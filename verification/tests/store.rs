use redis_core::Backend;
use redis_core::RespFrame;
use redis_core::SAdd;
use redis_core::SMembers;

fn bulk(bytes: &[u8]) -> RespFrame {
    RespFrame::BulkString(bytes.to_vec())
}

#[test]
fn scalar_read_after_write_and_overwrite() {
    let mut backend = Backend::new();
    assert_eq!(backend.get("k"), None);
    backend.set("k".to_string(), bulk(b"v"));
    assert_eq!(backend.get("k"), Some(bulk(b"v")));
    backend.set("k".to_string(), bulk(b"v2"));
    assert_eq!(backend.get("k"), Some(bulk(b"v2")));
    // an overwrite replaces, it does not merge: the other namespaces and
    // other keys stay as they were
    assert_eq!(backend.get("other"), None);
}

#[test]
fn hmget_always_answers_one_entry_per_field() {
    let mut backend = Backend::new();
    let fields = vec!["a".to_string(), "b".to_string(), "c".to_string()];
    let replies = backend.hmget("missing", &fields);
    assert_eq!(replies.len(), fields.len());
    assert!(replies.iter().all(|r| r.is_none()));

    backend.hset("h".to_string(), "b".to_string(), bulk(b"vb"));
    let replies = backend.hmget("h", &fields);
    assert_eq!(replies, vec![None, Some(bulk(b"vb")), None]);
}

#[test]
fn hget_distinguishes_key_and_field_absence() {
    let mut backend = Backend::new();
    assert_eq!(backend.hget("h", "f"), None);
    backend.hset("h".to_string(), "f".to_string(), bulk(b"v"));
    assert_eq!(backend.hget("h", "f"), Some(bulk(b"v")));
    assert_eq!(backend.hget("h", "g"), None);
    assert_eq!(backend.hgetall("nope"), None);
}

#[test]
fn sadd_counts_only_new_members() {
    let mut backend = Backend::new();
    let members = vec!["a".to_string(), "b".to_string(), "a".to_string()];
    // a duplicate inside the input counts once
    assert_eq!(backend.sadd("s", &members), 2);
    // the second identical call is idempotent: full count first, zero after
    assert_eq!(backend.sadd("s", &members), 0);
    assert_eq!(backend.sadd("s", &vec!["c".to_string()]), 1);
}

#[test]
fn sismember_is_false_until_added() {
    let mut backend = Backend::new();
    assert_eq!(backend.sismember("never_created", "m".to_string()), 0);
    backend.sadd("s", &vec!["m".to_string()]);
    assert_eq!(backend.sismember("s", "m".to_string()), 1);
    assert_eq!(backend.sismember("s", "not_added".to_string()), 0);
}

#[test]
fn smembers_sorts_regardless_of_insertion_order() {
    let mut backend = Backend::new();
    backend.sadd(
        "s",
        &vec![
            "pear".to_string(),
            "apple".to_string(),
            "quince".to_string(),
            "banana".to_string(),
        ],
    );
    let reply = SMembers {
        key: "s".to_string(),
        sort: true,
    }
    .execute(&mut backend);
    assert_eq!(
        reply,
        RespFrame::Array(vec![
            bulk(b"apple"),
            bulk(b"banana"),
            bulk(b"pear"),
            bulk(b"quince"),
        ])
    );
}

#[test]
fn smembers_without_sort_holds_each_member_once() {
    let mut backend = Backend::new();
    backend.sadd("s", &vec!["x".to_string(), "y".to_string()]);
    let reply = SMembers {
        key: "s".to_string(),
        sort: false,
    }
    .execute(&mut backend);
    let mut names = match reply {
        RespFrame::Array(items) => items
            .into_iter()
            .map(|f| match f {
                RespFrame::BulkString(b) => String::from_utf8(b).unwrap(),
                other => panic!("not a bulk string: {:?}", other),
            })
            .collect::<Vec<String>>(),
        other => panic!("not an array: {:?}", other),
    };
    names.sort();
    assert_eq!(names, vec!["x".to_string(), "y".to_string()]);
}

#[test]
fn integer_replies_render_multi_digit_counts() {
    let mut backend = Backend::new();
    let members: Vec<String> = (0..12).map(|i| format!("member{}", i)).collect();
    let reply = SAdd {
        key: "big".to_string(),
        values: members,
    }
    .execute(&mut backend);
    assert_eq!(reply, RespFrame::BulkString(b"(integer) 12".to_vec()));
    let reply = SAdd {
        key: "big".to_string(),
        values: vec!["member0".to_string()],
    }
    .execute(&mut backend);
    assert_eq!(reply, RespFrame::BulkString(b"(integer) 0".to_vec()));
}

#[test]
fn namespaces_do_not_share_keys() {
    let mut backend = Backend::new();
    backend.set("same".to_string(), bulk(b"scalar"));
    backend.hset("same".to_string(), "f".to_string(), bulk(b"hash"));
    backend.sadd("same", &vec!["member".to_string()]);
    assert_eq!(backend.get("same"), Some(bulk(b"scalar")));
    assert_eq!(backend.hget("same", "f"), Some(bulk(b"hash")));
    assert_eq!(backend.sismember("same", "member".to_string()), 1);
}

#[test]
fn snapshots_are_decoupled_from_later_writes() {
    let mut backend = Backend::new();
    backend.sadd("s", &vec!["a".to_string()]);
    let snapshot = backend.smembers("s").unwrap();
    backend.sadd("s", &vec!["b".to_string()]);
    assert_eq!(snapshot, vec!["a".to_string()]);
    let mut later = backend.smembers("s").unwrap();
    later.sort();
    assert_eq!(later, vec!["a".to_string(), "b".to_string()]);
}

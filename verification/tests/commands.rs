use redis_core::Backend;
use redis_core::Command;
use redis_core::CommandError;
use redis_core::Echo;
use redis_core::Get;
use redis_core::HGet;
use redis_core::HGetAll;
use redis_core::HMGet;
use redis_core::HSet;
use redis_core::RespArray;
use redis_core::RespFrame;
use redis_core::SAdd;
use redis_core::SIsMember;
use redis_core::SMembers;
use redis_core::SetCmd;

fn bulk(bytes: &[u8]) -> RespFrame {
    RespFrame::BulkString(bytes.to_vec())
}

/// Reads one wire request of the shape `*N\r\n` followed by N bulk strings
/// (`$L\r\n<payload>\r\n`), as the framing layer would hand it over.
fn decode_resp_array(buf: &[u8]) -> RespArray {
    let mut pos = 0usize;
    assert_eq!(buf[pos], b'*');
    pos += 1;
    let mut n = 0usize;
    while buf[pos] != b'\r' {
        n = n * 10 + (buf[pos] - b'0') as usize;
        pos += 1;
    }
    pos += 2;
    let mut frames = Vec::new();
    for _ in 0..n {
        assert_eq!(buf[pos], b'$');
        pos += 1;
        let mut l = 0usize;
        while buf[pos] != b'\r' {
            l = l * 10 + (buf[pos] - b'0') as usize;
            pos += 1;
        }
        pos += 2;
        frames.push(RespFrame::BulkString(buf[pos..pos + l].to_vec()));
        pos += l + 2;
    }
    RespArray::new(frames)
}

#[test]
fn test_echo_from_resp_array() {
    let frame = decode_resp_array(b"*2\r\n$4\r\necho\r\n$5\r\nhello\r\n");
    let result: Echo = Echo::parse(frame).unwrap();
    assert_eq!(result.value, "hello");
}

#[test]
fn test_echo_command() {
    let mut backend = Backend::new();
    let cmd = Echo {
        value: "hello".to_string(),
    };
    let result = cmd.execute(&mut backend);
    assert_eq!(result, RespFrame::BulkString(b"hello".to_vec()));
}

#[test]
fn test_sadd_from_resp_array() {
    let frame = decode_resp_array(b"*3\r\n$4\r\nsadd\r\n$3\r\nset\r\n$5\r\nhello\r\n");
    let result: SAdd = SAdd::parse(frame).unwrap();
    assert_eq!(result.key, "set");
    assert_eq!(result.values, vec!["hello".to_string()]);
}

#[test]
fn test_smembers_from_resp_array() {
    let frame = decode_resp_array(b"*2\r\n$8\r\nsmembers\r\n$3\r\nset\r\n");
    let result = SMembers::parse(frame).unwrap();
    assert_eq!(result.key, "set");
    assert!(!result.sort);
}

#[test]
fn test_sismember_from_resp_array() {
    let frame = decode_resp_array(b"*3\r\n$9\r\nsismember\r\n$3\r\nset\r\n$5\r\nhello\r\n");
    let result = SIsMember::parse(frame).unwrap();
    assert_eq!(result.key, "set");
    assert_eq!(result.value, "hello".to_string());
}

#[test]
fn test_sadd_sismember_smembers_command() {
    let mut backend = Backend::new();
    let cmd = SAdd {
        key: "set".to_string(),
        values: vec!["hello".to_string(), "world".to_string()],
    };
    let result = cmd.execute(&mut backend);
    assert_eq!(result, RespFrame::BulkString(b"(integer) 2".to_vec()));

    let cmd = SIsMember {
        key: "set".to_string(),
        value: "hello".to_string(),
    };
    let result = cmd.execute(&mut backend);
    assert_eq!(result, RespFrame::BulkString(b"(integer) 1".to_vec()));

    let cmd = SMembers {
        key: "set".to_string(),
        sort: true,
    };
    let result = cmd.execute(&mut backend);
    assert_eq!(
        result,
        RespFrame::Array(vec![bulk(b"hello"), bulk(b"world")])
    );

    let cmd = SIsMember {
        key: "set".to_string(),
        value: "not_member".to_string(),
    };
    let result = cmd.execute(&mut backend);
    assert_eq!(result, RespFrame::BulkString(b"(integer) 0".to_vec()));

    let cmd = SIsMember {
        key: "key_not_exist".to_string(),
        value: "whatever".to_string(),
    };
    let result = cmd.execute(&mut backend);
    assert_eq!(result, RespFrame::BulkString(b"(integer) 0".to_vec()));
}

#[test]
fn command_names_are_case_insensitive() {
    let req = RespArray::new(vec![bulk(b"EcHo"), bulk(b"MiXeD")]);
    let cmd = Echo::parse(req).unwrap();
    // data is never case-folded, only the command name is
    assert_eq!(cmd.value, "MiXeD");
}

#[test]
fn dispatch_picks_one_command_per_name() {
    let mut backend = Backend::new();
    let req = RespArray::new(vec![bulk(b"SET"), bulk(b"k"), bulk(b"v1")]);
    let cmd = Command::parse(req).unwrap();
    assert!(matches!(cmd, Command::SetCmd(_)));
    assert_eq!(
        cmd.execute(&mut backend),
        RespFrame::SimpleString("OK".to_string())
    );
    let req = RespArray::new(vec![bulk(b"get"), bulk(b"k")]);
    let cmd = Command::parse(req).unwrap();
    assert_eq!(cmd.execute(&mut backend), bulk(b"v1"));
}

#[test]
fn unknown_command_fails_closed() {
    let req = RespArray::new(vec![bulk(b"flushall")]);
    assert_eq!(Command::parse(req), Err(CommandError::WrongCommand));
    let empty = RespArray::new(vec![]);
    assert_eq!(Command::parse(empty), Err(CommandError::WrongCommand));
}

#[test]
fn echo_with_wrong_name_is_wrong_command() {
    let req = RespArray::new(vec![bulk(b"get"), bulk(b"x")]);
    assert_eq!(Echo::parse(req), Err(CommandError::WrongCommand));
}

#[test]
fn sadd_without_members_is_wrong_arg_count() {
    let mut backend = Backend::new();
    let req = RespArray::new(vec![bulk(b"sadd"), bulk(b"set")]);
    assert_eq!(SAdd::parse(req), Err(CommandError::WrongArgCount));
    // a failed parse never reaches the store: the set was not created
    let cmd = SMembers {
        key: "set".to_string(),
        sort: true,
    };
    assert_eq!(cmd.execute(&mut backend), RespFrame::Array(vec![]));
}

#[test]
fn echo_with_extra_argument_is_wrong_arg_count() {
    let req = RespArray::new(vec![bulk(b"echo"), bulk(b"a"), bulk(b"b")]);
    assert_eq!(Echo::parse(req), Err(CommandError::WrongArgCount));
}

#[test]
fn non_bulk_argument_is_wrong_type() {
    let req = RespArray::new(vec![bulk(b"echo"), RespFrame::Null]);
    assert_eq!(Echo::parse(req), Err(CommandError::WrongArgumentType));
    let req = RespArray::new(vec![
        bulk(b"sadd"),
        bulk(b"set"),
        RespFrame::Array(vec![]),
    ]);
    assert_eq!(SAdd::parse(req), Err(CommandError::WrongArgumentType));
}

#[test]
fn invalid_text_is_reported_as_such() {
    let req = RespArray::new(vec![bulk(b"echo"), bulk(&[0xff, 0xfe])]);
    assert_eq!(Echo::parse(req), Err(CommandError::InvalidText));
    // the wrong-type error of an earlier argument wins over later bad text
    let req = RespArray::new(vec![
        bulk(b"sadd"),
        bulk(b"set"),
        RespFrame::Null,
        bulk(&[0xff]),
    ]);
    assert_eq!(SAdd::parse(req), Err(CommandError::WrongArgumentType));
}

#[test]
fn parse_recovers_every_argument() {
    let req = RespArray::new(vec![
        bulk(b"hset"),
        bulk(b"profile"),
        bulk(b"name"),
        bulk(b"martha"),
    ]);
    let cmd = HSet::parse(req).unwrap();
    assert_eq!(cmd.key, "profile");
    assert_eq!(cmd.field, "name");
    assert_eq!(cmd.value, bulk(b"martha"));

    let req = RespArray::new(vec![
        bulk(b"hmget"),
        bulk(b"profile"),
        bulk(b"name"),
        bulk(b"age"),
    ]);
    let cmd = HMGet::parse(req).unwrap();
    assert_eq!(cmd.key, "profile");
    assert_eq!(cmd.fields, vec!["name".to_string(), "age".to_string()]);

    let req = RespArray::new(vec![bulk(b"get"), bulk(b"caf\xc3\xa9")]);
    let cmd = Get::parse(req).unwrap();
    assert_eq!(cmd.key, "caf\u{e9}");
}

#[test]
fn hset_hget_scenario() {
    let mut backend = Backend::new();
    let reply = HSet {
        key: "h".to_string(),
        field: "f1".to_string(),
        value: bulk(b"v1"),
    }
    .execute(&mut backend);
    assert_eq!(reply, RespFrame::SimpleString("OK".to_string()));

    let reply = HGet {
        key: "h".to_string(),
        field: "f1".to_string(),
    }
    .execute(&mut backend);
    assert_eq!(reply, bulk(b"v1"));

    let reply = HGet {
        key: "h".to_string(),
        field: "f2".to_string(),
    }
    .execute(&mut backend);
    assert_eq!(reply, RespFrame::Null);

    let reply = HMGet {
        key: "h".to_string(),
        fields: vec!["f1".to_string(), "f2".to_string()],
    }
    .execute(&mut backend);
    assert_eq!(reply, RespFrame::Array(vec![bulk(b"v1"), RespFrame::Null]));
}

#[test]
fn hgetall_renders_pairs_or_empty() {
    let mut backend = Backend::new();
    assert_eq!(
        HGetAll {
            key: "h".to_string()
        }
        .execute(&mut backend),
        RespFrame::Array(vec![])
    );
    HSet {
        key: "h".to_string(),
        field: "f1".to_string(),
        value: bulk(b"v1"),
    }
    .execute(&mut backend);
    let reply = HGetAll {
        key: "h".to_string(),
    }
    .execute(&mut backend);
    assert_eq!(reply, RespFrame::Array(vec![bulk(b"f1"), bulk(b"v1")]));
}

#[test]
fn get_echoes_the_very_frame_set_stored() {
    let mut backend = Backend::new();
    assert_eq!(
        Get {
            key: "missing".to_string()
        }
        .execute(&mut backend),
        RespFrame::Null
    );
    let stored = RespFrame::Array(vec![bulk(b"nested"), RespFrame::Null]);
    SetCmd {
        key: "k".to_string(),
        value: redis_core::resp::clone_frame(&stored),
    }
    .execute(&mut backend);
    assert_eq!(
        Get {
            key: "k".to_string()
        }
        .execute(&mut backend),
        stored
    );
}

#[test]
fn wire_level_scenario() {
    let mut backend = Backend::new();
    let req = decode_resp_array(b"*4\r\n$4\r\nsadd\r\n$3\r\nset\r\n$5\r\nhello\r\n$5\r\nworld\r\n");
    let reply = Command::parse(req).unwrap().execute(&mut backend);
    assert_eq!(reply, RespFrame::BulkString(b"(integer) 2".to_vec()));

    let req = decode_resp_array(b"*3\r\n$9\r\nsismember\r\n$3\r\nset\r\n$5\r\nhello\r\n");
    let reply = Command::parse(req).unwrap().execute(&mut backend);
    assert_eq!(reply, RespFrame::BulkString(b"(integer) 1".to_vec()));

    let req = decode_resp_array(b"*3\r\n$4\r\nhset\r\n$1\r\nh\r\n$2\r\nf1\r\n");
    assert_eq!(Command::parse(req), Err(CommandError::WrongArgCount));

    let req = decode_resp_array(b"*2\r\n$7\r\nhgetall\r\n$1\r\nh\r\n");
    let reply = Command::parse(req).unwrap().execute(&mut backend);
    assert_eq!(reply, RespFrame::Array(vec![]));
}

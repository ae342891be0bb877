//! Round trips and layout checks for the three record schemas, including a
//! cross-check of the layout against borsh's encoding of the same shape.

use student_intro::state::{ReplyCounter, ReplyInfo, StudentInfo};

fn bytes(s: &str) -> Vec<u8> {
    s.as_bytes().to_vec()
}

#[test]
fn student_round_trip() {
    let record = StudentInfo {
        discriminator: bytes("student"),
        is_initialized: true,
        name: bytes("Ada"),
        msg: bytes("Hello"),
    };
    let enc = record.encode();
    assert_eq!(enc.len(), 28);
    let back = StudentInfo::decode(&enc).expect("decodes");
    assert_eq!(back.discriminator, bytes("student"));
    assert!(back.is_initialized);
    assert_eq!(back.name, bytes("Ada"));
    assert_eq!(back.msg, bytes("Hello"));
}

#[test]
fn student_round_trip_empty_fields() {
    let record = StudentInfo {
        discriminator: bytes("student"),
        is_initialized: false,
        name: Vec::new(),
        msg: Vec::new(),
    };
    let enc = record.encode();
    let back = StudentInfo::decode(&enc).expect("decodes");
    assert!(!back.is_initialized);
    assert_eq!(back.name, Vec::<u8>::new());
    assert_eq!(back.msg, Vec::<u8>::new());
}

#[test]
fn reply_round_trip() {
    let record = ReplyInfo {
        discriminator: bytes("reply"),
        is_initialized: true,
        student_info: vec![7u8; 32],
        reply: bytes("nice to meet you"),
    };
    let enc = record.encode();
    assert_eq!(enc.len(), 46 + 16);
    let back = ReplyInfo::decode(&enc).expect("decodes");
    assert_eq!(back.discriminator, bytes("reply"));
    assert!(back.is_initialized);
    assert_eq!(back.student_info, vec![7u8; 32]);
    assert_eq!(back.reply, bytes("nice to meet you"));
}

#[test]
fn counter_round_trip() {
    let record = ReplyCounter {
        discriminator: bytes("counter"),
        is_initialized: true,
        count: 0xdead_beef_0102_0304,
    };
    let enc = record.encode();
    assert_eq!(enc.len(), 20);
    let back = ReplyCounter::decode(&enc).expect("decodes");
    assert_eq!(back.discriminator, bytes("counter"));
    assert!(back.is_initialized);
    assert_eq!(back.count, 0xdead_beef_0102_0304);
}

#[test]
fn decode_ignores_trailing_bytes() {
    let record = StudentInfo {
        discriminator: bytes("student"),
        is_initialized: true,
        name: bytes("Ada"),
        msg: bytes("Hello"),
    };
    let mut enc = record.encode();
    enc.resize(1000, 0);
    let back = StudentInfo::decode(&enc).expect("decodes");
    assert_eq!(back.name, bytes("Ada"));
    assert_eq!(back.msg, bytes("Hello"));
}

#[test]
fn decode_zero_buffers() {
    let zeros = vec![0u8; 1000];
    let student = StudentInfo::decode(&zeros).expect("decodes");
    assert!(!student.is_initialized);
    assert_eq!(student.discriminator, Vec::<u8>::new());
    assert_eq!(student.name, Vec::<u8>::new());
    assert_eq!(student.msg, Vec::<u8>::new());

    let counter_zeros = vec![0u8; 20];
    let counter = ReplyCounter::decode(&counter_zeros).expect("decodes");
    assert!(!counter.is_initialized);
    assert_eq!(counter.count, 0);

    let reply_zeros = vec![0u8; 46];
    let reply = ReplyInfo::decode(&reply_zeros).expect("decodes");
    assert!(!reply.is_initialized);
    assert_eq!(reply.student_info, vec![0u8; 32]);
    assert_eq!(reply.reply, Vec::<u8>::new());
}

#[test]
fn decode_rejects_truncated_buffers() {
    assert!(StudentInfo::decode(&vec![0u8; 3]).is_none());
    assert!(ReplyCounter::decode(&vec![0u8; 12]).is_none());
    assert!(ReplyInfo::decode(&vec![0u8; 40]).is_none());
    // A boolean byte other than 0 or 1 is malformed.
    let mut bad = vec![0u8; 20];
    bad[4] = 2;
    assert!(ReplyCounter::decode(&bad).is_none());
}

#[test]
fn layout_matches_borsh() {
    let record = StudentInfo {
        discriminator: bytes("student"),
        is_initialized: true,
        name: bytes("Ada"),
        msg: bytes("Hello"),
    };
    let reference = borsh::to_vec(&(
        "student".to_string(),
        true,
        "Ada".to_string(),
        "Hello".to_string(),
    ))
    .expect("borsh encodes");
    assert_eq!(record.encode(), reference);

    let counter = ReplyCounter {
        discriminator: bytes("counter"),
        is_initialized: true,
        count: 5,
    };
    let reference = borsh::to_vec(&("counter".to_string(), true, 5u64)).expect("borsh encodes");
    assert_eq!(counter.encode(), reference);

    let reply = ReplyInfo {
        discriminator: bytes("reply"),
        is_initialized: true,
        student_info: vec![9u8; 32],
        reply: bytes("hi"),
    };
    let reference =
        borsh::to_vec(&("reply".to_string(), true, [9u8; 32], "hi".to_string()))
            .expect("borsh encodes");
    assert_eq!(reply.encode(), reference);
}

#[test]
fn account_sizes() {
    // name="Ada", message="Hello": (4+7) + 1 + (4+3) + (4+5) = 28 bytes.
    assert_eq!(
        StudentInfo::get_account_size(&bytes("Ada"), &bytes("Hello")),
        28
    );
    assert_eq!(StudentInfo::get_account_size(&Vec::new(), &Vec::new()), 20);
    assert_eq!(ReplyInfo::get_account_size(&bytes("hi")), 48);
    assert_eq!(ReplyInfo::get_account_size(&Vec::new()), 46);
    assert_eq!(ReplyCounter::get_account_size(), 20);
}

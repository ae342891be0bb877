//! The inbound command decoding: selectors, payload shapes, and the inputs
//! it must reject.

use student_intro::error::StudentIntroError;
use student_intro::instruction::IntroInstruction;

fn field(b: &[u8]) -> Vec<u8> {
    let mut out = (b.len() as u32).to_le_bytes().to_vec();
    out.extend_from_slice(b);
    out
}

#[test]
fn unpack_create() {
    let mut data = vec![0u8];
    data.extend_from_slice(&field(b"Ada"));
    data.extend_from_slice(&field(b"Hello"));
    match IntroInstruction::unpack(&data) {
        Ok(IntroInstruction::InitUserInput { name, message }) => {
            assert_eq!(name, b"Ada".to_vec());
            assert_eq!(message, b"Hello".to_vec());
        },
        other => panic!("expected a create command, got {:?}", other.is_ok()),
    }
}

#[test]
fn unpack_update() {
    let mut data = vec![1u8];
    data.extend_from_slice(&field(b""));
    data.extend_from_slice(&field(b"new message"));
    match IntroInstruction::unpack(&data) {
        Ok(IntroInstruction::UpdateStudentIntro { name, message }) => {
            assert_eq!(name, Vec::<u8>::new());
            assert_eq!(message, b"new message".to_vec());
        },
        other => panic!("expected an update command, got {:?}", other.is_ok()),
    }
}

#[test]
fn unpack_reply() {
    let mut data = vec![2u8];
    data.extend_from_slice(&field(b"nice"));
    match IntroInstruction::unpack(&data) {
        Ok(IntroInstruction::Reply { reply }) => {
            assert_eq!(reply, b"nice".to_vec());
        },
        other => panic!("expected a reply command, got {:?}", other.is_ok()),
    }
}

#[test]
fn unpack_rejects_bad_input() {
    // Empty buffer: no selector at all.
    assert!(matches!(
        IntroInstruction::unpack(&Vec::new()),
        Err(StudentIntroError::InvalidInstruction)
    ));
    // Unknown selector.
    let mut data = vec![3u8];
    data.extend_from_slice(&field(b"x"));
    assert!(matches!(
        IntroInstruction::unpack(&data),
        Err(StudentIntroError::InvalidInstruction)
    ));
    // Truncated payload: the length prefix promises more bytes than follow.
    let data = vec![0u8, 10, 0, 0, 0, b'a'];
    assert!(matches!(
        IntroInstruction::unpack(&data),
        Err(StudentIntroError::InvalidInstruction)
    ));
    // A second field is missing entirely.
    let mut data = vec![0u8];
    data.extend_from_slice(&field(b"Ada"));
    assert!(matches!(
        IntroInstruction::unpack(&data),
        Err(StudentIntroError::InvalidInstruction)
    ));
    // Trailing bytes past the expected shape.
    let mut data = vec![2u8];
    data.extend_from_slice(&field(b"nice"));
    data.push(0);
    assert!(matches!(
        IntroInstruction::unpack(&data),
        Err(StudentIntroError::InvalidInstruction)
    ));
}

//! The inbound command encoding: the first byte selects the command, the
//! remaining bytes are its length-prefixed text arguments and must be
//! consumed exactly.

use crate::codec::{read_field, spec_read_field};
use crate::error::StudentIntroError;
use vstd::prelude::*;

verus! {

/// A decoded command.
pub enum IntroInstruction {
    /// Selector 0: create an introduction and its companion counter.
    InitUserInput { name: Vec<u8>, message: Vec<u8> },
    /// Selector 1: replace an introduction's message in place. The name must
    /// still decode but is ignored by the handler.
    UpdateStudentIntro { name: Vec<u8>, message: Vec<u8> },
    /// Selector 2: create a reply to an introduction.
    Reply { reply: Vec<u8> },
}

/// The mathematical shape of a decoded command.
pub enum IntroInstructionView {
    InitUserInput { name: Seq<u8>, message: Seq<u8> },
    UpdateStudentIntro { name: Seq<u8>, message: Seq<u8> },
    Reply { reply: Seq<u8> },
}

impl View for IntroInstruction {
    type V = IntroInstructionView;

    open spec fn view(&self) -> IntroInstructionView {
        match self {
            IntroInstruction::InitUserInput { name, message } => IntroInstructionView::InitUserInput {
                name: name@,
                message: message@,
            },
            IntroInstruction::UpdateStudentIntro {
                name,
                message,
            } => IntroInstructionView::UpdateStudentIntro { name: name@, message: message@ },
            IntroInstruction::Reply { reply } => IntroInstructionView::Reply { reply: reply@ },
        }
    }
}

/// Two length-prefixed fields consuming the buffer exactly.
pub open spec fn spec_read_two_fields_exact(b: Seq<u8>) -> Option<(Seq<u8>, Seq<u8>)> {
    match spec_read_field(b) {
        Some((first, r1)) => match spec_read_field(r1) {
            Some((second, r2)) => if r2.len() == 0 {
                Some((first, second))
            } else {
                None
            },
            None => None,
        },
        None => None,
    }
}

/// One length-prefixed field consuming the buffer exactly.
pub open spec fn spec_read_one_field_exact(b: Seq<u8>) -> Option<Seq<u8>> {
    match spec_read_field(b) {
        Some((first, r1)) => if r1.len() == 0 {
            Some(first)
        } else {
            None
        },
        None => None,
    }
}

/// Decoding an instruction buffer: the selector byte, then the selector's
/// expected argument shape, consumed exactly.
pub open spec fn spec_unpack(b: Seq<u8>) -> Option<IntroInstructionView> {
    if b.len() < 1 {
        None
    } else {
        let rest = b.subrange(1, b.len() as int);
        if b[0] == 0u8 {
            match spec_read_two_fields_exact(rest) {
                Some((name, message)) => Some(IntroInstructionView::InitUserInput { name, message }),
                None => None,
            }
        } else if b[0] == 1u8 {
            match spec_read_two_fields_exact(rest) {
                Some((name, message)) => Some(
                    IntroInstructionView::UpdateStudentIntro { name, message },
                ),
                None => None,
            }
        } else if b[0] == 2u8 {
            match spec_read_one_field_exact(rest) {
                Some(reply) => Some(IntroInstructionView::Reply { reply }),
                None => None,
            }
        } else {
            None
        }
    }
}

impl IntroInstruction {
    /// Decodes an instruction buffer, failing on an unrecognized selector or
    /// a payload that is not exactly the selector's expected shape.
    pub fn unpack(input: &Vec<u8>) -> (r: Result<IntroInstruction, StudentIntroError>)
        ensures
            match r {
                Ok(i) => spec_unpack(input@) == Some(i@),
                Err(e) => spec_unpack(input@) is None && e
                    == StudentIntroError::InvalidInstruction,
            },
    {
        if input.len() < 1 {
            return Err(StudentIntroError::InvalidInstruction);
        }
        let selector = input[0];
        let ghost rest = input@.subrange(1, input@.len() as int);
        if selector == 0 || selector == 1 {
            let (first, p1) = match read_field(input, 1) {
                Some(x) => x,
                None => {
                    return Err(StudentIntroError::InvalidInstruction);
                },
            };
            proof {
                assert(input@.subrange(1, input@.len() as int) =~= rest);
            }
            let (second, p2) = match read_field(input, p1) {
                Some(x) => x,
                None => {
                    return Err(StudentIntroError::InvalidInstruction);
                },
            };
            if p2 != input.len() {
                return Err(StudentIntroError::InvalidInstruction);
            }
            proof {
                assert(input@.subrange(p2 as int, input@.len() as int).len() == 0);
            }
            if selector == 0 {
                Ok(IntroInstruction::InitUserInput { name: first, message: second })
            } else {
                Ok(IntroInstruction::UpdateStudentIntro { name: first, message: second })
            }
        } else if selector == 2 {
            let (reply, p1) = match read_field(input, 1) {
                Some(x) => x,
                None => {
                    return Err(StudentIntroError::InvalidInstruction);
                },
            };
            proof {
                assert(input@.subrange(1, input@.len() as int) =~= rest);
            }
            if p1 != input.len() {
                return Err(StudentIntroError::InvalidInstruction);
            }
            proof {
                assert(input@.subrange(p1 as int, input@.len() as int).len() == 0);
            }
            Ok(IntroInstruction::Reply { reply })
        } else {
            Err(StudentIntroError::InvalidInstruction)
        }
    }
}

} // verus!

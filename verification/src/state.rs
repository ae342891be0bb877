//! The three record schemas and their binary layout. Every record encodes as
//! a length-prefixed tag string, a one-byte initialization flag, and the
//! payload fields in declaration order. Decoding tolerates an all-zero buffer
//! (freshly allocated storage) and ignores any bytes past the encoded prefix.
//!
//! Text is carried as its UTF-8 bytes: the record layout only ever reads
//! lengths and copies bytes, never characters.

use crate::codec::{
    append_bool, append_bytes, append_field, le64_bytes, lemma_read_bool_zeros,
    lemma_read_encoded_bool, lemma_read_encoded_field, lemma_read_encoded_fixed,
    lemma_read_encoded_u64, lemma_read_field_zeros, lemma_read_fixed_zeros, lemma_read_u64_zeros,
    read_bool_at, read_field, read_fixed, read_le64_at, spec_encode_bool, spec_encode_field,
    spec_le64, spec_read_bool, spec_read_field, spec_read_fixed, spec_read_u64, zero_bytes,
};
use vstd::prelude::*;

verus! {

// ---------------------------------------------------------------------------
// Tags
// ---------------------------------------------------------------------------

/// The tag bytes of an introduction record: the UTF-8 of "student".
pub open spec fn spec_student_tag() -> Seq<u8> {
    seq![115u8, 116u8, 117u8, 100u8, 101u8, 110u8, 116u8]
}

/// The tag bytes of a reply record: the UTF-8 of "reply".
pub open spec fn spec_reply_tag() -> Seq<u8> {
    seq![114u8, 101u8, 112u8, 108u8, 121u8]
}

/// The tag bytes of a reply-counter record: the UTF-8 of "counter".
pub open spec fn spec_counter_tag() -> Seq<u8> {
    seq![99u8, 111u8, 117u8, 110u8, 116u8, 101u8, 114u8]
}

pub fn student_tag() -> (r: Vec<u8>)
    ensures
        r@ == spec_student_tag(),
{
    let mut v: Vec<u8> = Vec::new();
    v.push(115u8);
    v.push(116u8);
    v.push(117u8);
    v.push(100u8);
    v.push(101u8);
    v.push(110u8);
    v.push(116u8);
    proof {
        assert(v@ =~= spec_student_tag());
    }
    v
}

pub fn reply_tag() -> (r: Vec<u8>)
    ensures
        r@ == spec_reply_tag(),
{
    let mut v: Vec<u8> = Vec::new();
    v.push(114u8);
    v.push(101u8);
    v.push(112u8);
    v.push(108u8);
    v.push(121u8);
    proof {
        assert(v@ =~= spec_reply_tag());
    }
    v
}

pub fn counter_tag() -> (r: Vec<u8>)
    ensures
        r@ == spec_counter_tag(),
{
    let mut v: Vec<u8> = Vec::new();
    v.push(99u8);
    v.push(111u8);
    v.push(117u8);
    v.push(110u8);
    v.push(116u8);
    v.push(101u8);
    v.push(114u8);
    proof {
        assert(v@ =~= spec_counter_tag());
    }
    v
}

// ---------------------------------------------------------------------------
// The introduction record
// ---------------------------------------------------------------------------

/// One student introduction, keyed by submitter identity. `name` is fixed at
/// creation; `msg` may be replaced in place later.
pub struct StudentInfo {
    pub discriminator: Vec<u8>,
    pub is_initialized: bool,
    pub name: Vec<u8>,
    pub msg: Vec<u8>,
}

/// The mathematical shape of an introduction record.
pub struct StudentInfoView {
    pub discriminator: Seq<u8>,
    pub is_initialized: bool,
    pub name: Seq<u8>,
    pub msg: Seq<u8>,
}

impl View for StudentInfo {
    type V = StudentInfoView;

    open spec fn view(&self) -> StudentInfoView {
        StudentInfoView {
            discriminator: self.discriminator@,
            is_initialized: self.is_initialized,
            name: self.name@,
            msg: self.msg@,
        }
    }
}

/// Every variable-length field of the record fits its four-byte length
/// prefix.
pub open spec fn spec_student_fits(v: StudentInfoView) -> bool {
    v.discriminator.len() <= u32::MAX && v.name.len() <= u32::MAX && v.msg.len() <= u32::MAX
}

/// The byte encoding of an introduction record: tag, flag, name, message.
pub open spec fn spec_student_encode(v: StudentInfoView) -> Seq<u8> {
    spec_encode_field(v.discriminator) + spec_encode_bool(v.is_initialized) + spec_encode_field(
        v.name,
    ) + spec_encode_field(v.msg)
}

/// Decoding an introduction record from the front of a buffer; bytes past
/// the encoded prefix are ignored.
pub open spec fn spec_student_decode(b: Seq<u8>) -> Option<StudentInfoView> {
    match spec_read_field(b) {
        Some((discriminator, r1)) => match spec_read_bool(r1) {
            Some((is_initialized, r2)) => match spec_read_field(r2) {
                Some((name, r3)) => match spec_read_field(r3) {
                    Some((msg, _rest)) => Some(
                        StudentInfoView { discriminator, is_initialized, name, msg },
                    ),
                    None => None,
                },
                None => None,
            },
            None => None,
        },
        None => None,
    }
}

/// The exact serialized size of an introduction with the given name and
/// message byte lengths: an 11-byte tag field, the flag, and two
/// length-prefixed payload fields.
pub open spec fn spec_student_size(name_len: nat, msg_len: nat) -> nat {
    20 + name_len + msg_len
}

impl StudentInfo {
    /// The serialized size of an introduction record holding `name` and
    /// `msg`.
    pub fn get_account_size(name: &Vec<u8>, msg: &Vec<u8>) -> (r: usize)
        requires
            20 + name@.len() + msg@.len() <= usize::MAX,
        ensures
            r == spec_student_size(name@.len(), msg@.len()),
    {
        20 + name.len() + msg.len()
    }

    pub fn is_initialized(&self) -> (r: bool)
        ensures
            r == self.is_initialized,
    {
        self.is_initialized
    }

    /// Serializes the record: tag, flag, name, message.
    pub fn encode(&self) -> (r: Vec<u8>)
        requires
            spec_student_fits(self@),
        ensures
            r@ == spec_student_encode(self@),
    {
        let mut out: Vec<u8> = Vec::new();
        append_field(&mut out, &self.discriminator);
        append_bool(&mut out, self.is_initialized);
        append_field(&mut out, &self.name);
        append_field(&mut out, &self.msg);
        proof {
            assert(out@ =~= spec_student_encode(self@));
        }
        out
    }

    /// Deserializes a record from the front of a buffer. An all-zero buffer
    /// of sufficient length decodes to an uninitialized record with empty
    /// fields; see [`lemma_student_decode_zeros`].
    pub fn decode(b: &Vec<u8>) -> (r: Option<StudentInfo>)
        ensures
            match r {
                Some(s) => spec_student_decode(b@) == Some(s@),
                None => spec_student_decode(b@) is None,
            },
    {
        proof {
            assert(b@.subrange(0, b@.len() as int) =~= b@);
        }
        let (discriminator, p1) = match read_field(b, 0) {
            Some(x) => x,
            None => {
                return None;
            },
        };
        let (is_initialized, p2) = match read_bool_at(b, p1) {
            Some(x) => x,
            None => {
                return None;
            },
        };
        let (name, p3) = match read_field(b, p2) {
            Some(x) => x,
            None => {
                return None;
            },
        };
        let (msg, _p4) = match read_field(b, p3) {
            Some(x) => x,
            None => {
                return None;
            },
        };
        Some(StudentInfo { discriminator, is_initialized, name, msg })
    }
}

/// An encoded introduction decodes back to itself, whatever follows it.
pub proof fn lemma_student_decode_encoded(v: StudentInfoView, tail: Seq<u8>)
    requires
        spec_student_fits(v),
    ensures
        spec_student_decode(spec_student_encode(v) + tail) == Some(v),
{
    let r3 = spec_encode_field(v.msg) + tail;
    let r2 = spec_encode_field(v.name) + r3;
    let r1 = spec_encode_bool(v.is_initialized) + r2;
    assert(spec_student_encode(v) + tail =~= spec_encode_field(v.discriminator) + r1);
    lemma_read_encoded_field(v.discriminator, r1);
    lemma_read_encoded_bool(v.is_initialized, r2);
    lemma_read_encoded_field(v.name, r3);
    lemma_read_encoded_field(v.msg, tail);
}

/// An all-zero buffer of at least the minimal length decodes to an
/// uninitialized introduction with empty fields.
pub proof fn lemma_student_decode_zeros(n: nat)
    requires
        n >= 13,
    ensures
        spec_student_decode(zero_bytes(n)) == Some(
            StudentInfoView {
                discriminator: Seq::<u8>::empty(),
                is_initialized: false,
                name: Seq::<u8>::empty(),
                msg: Seq::<u8>::empty(),
            },
        ),
{
    lemma_read_field_zeros(n);
    lemma_read_bool_zeros((n - 4) as nat);
    lemma_read_field_zeros((n - 5) as nat);
    lemma_read_field_zeros((n - 9) as nat);
}

// ---------------------------------------------------------------------------
// The reply record
// ---------------------------------------------------------------------------

/// One reply to an introduction, immutable after creation. `student_info`
/// holds the parent introduction's 32-byte storage address.
pub struct ReplyInfo {
    pub discriminator: Vec<u8>,
    pub is_initialized: bool,
    pub student_info: Vec<u8>,
    pub reply: Vec<u8>,
}

/// The mathematical shape of a reply record.
pub struct ReplyInfoView {
    pub discriminator: Seq<u8>,
    pub is_initialized: bool,
    pub student_info: Seq<u8>,
    pub reply: Seq<u8>,
}

impl View for ReplyInfo {
    type V = ReplyInfoView;

    open spec fn view(&self) -> ReplyInfoView {
        ReplyInfoView {
            discriminator: self.discriminator@,
            is_initialized: self.is_initialized,
            student_info: self.student_info@,
            reply: self.reply@,
        }
    }
}

/// The fields of the record fit their encoding: the parent address is raw
/// 32 bytes, the others carry four-byte length prefixes.
pub open spec fn spec_reply_fits(v: ReplyInfoView) -> bool {
    v.discriminator.len() <= u32::MAX && v.student_info.len() == 32 && v.reply.len() <= u32::MAX
}

/// The byte encoding of a reply record: tag, flag, raw 32-byte parent
/// address, reply body.
pub open spec fn spec_reply_encode(v: ReplyInfoView) -> Seq<u8> {
    spec_encode_field(v.discriminator) + spec_encode_bool(v.is_initialized) + v.student_info
        + spec_encode_field(v.reply)
}

/// Decoding a reply record from the front of a buffer.
pub open spec fn spec_reply_decode(b: Seq<u8>) -> Option<ReplyInfoView> {
    match spec_read_field(b) {
        Some((discriminator, r1)) => match spec_read_bool(r1) {
            Some((is_initialized, r2)) => match spec_read_fixed(r2, 32) {
                Some((student_info, r3)) => match spec_read_field(r3) {
                    Some((reply, _rest)) => Some(
                        ReplyInfoView { discriminator, is_initialized, student_info, reply },
                    ),
                    None => None,
                },
                None => None,
            },
            None => None,
        },
        None => None,
    }
}

/// The exact serialized size of a reply with the given body byte length:
/// a 9-byte tag field, the flag, the raw parent address, and the
/// length-prefixed body.
pub open spec fn spec_reply_size(reply_len: nat) -> nat {
    46 + reply_len
}

impl ReplyInfo {
    /// The serialized size of a reply record holding `reply`.
    pub fn get_account_size(reply: &Vec<u8>) -> (r: usize)
        requires
            46 + reply@.len() <= usize::MAX,
        ensures
            r == spec_reply_size(reply@.len()),
    {
        46 + reply.len()
    }

    pub fn is_initialized(&self) -> (r: bool)
        ensures
            r == self.is_initialized,
    {
        self.is_initialized
    }

    /// Serializes the record: tag, flag, parent address, body.
    pub fn encode(&self) -> (r: Vec<u8>)
        requires
            spec_reply_fits(self@),
        ensures
            r@ == spec_reply_encode(self@),
    {
        let mut out: Vec<u8> = Vec::new();
        append_field(&mut out, &self.discriminator);
        append_bool(&mut out, self.is_initialized);
        append_bytes(&mut out, &self.student_info);
        append_field(&mut out, &self.reply);
        proof {
            assert(out@ =~= spec_reply_encode(self@));
        }
        out
    }

    /// Deserializes a record from the front of a buffer.
    pub fn decode(b: &Vec<u8>) -> (r: Option<ReplyInfo>)
        ensures
            match r {
                Some(s) => spec_reply_decode(b@) == Some(s@),
                None => spec_reply_decode(b@) is None,
            },
    {
        proof {
            assert(b@.subrange(0, b@.len() as int) =~= b@);
        }
        let (discriminator, p1) = match read_field(b, 0) {
            Some(x) => x,
            None => {
                return None;
            },
        };
        let (is_initialized, p2) = match read_bool_at(b, p1) {
            Some(x) => x,
            None => {
                return None;
            },
        };
        let (student_info, p3) = match read_fixed(b, p2, 32) {
            Some(x) => x,
            None => {
                return None;
            },
        };
        let (reply, _p4) = match read_field(b, p3) {
            Some(x) => x,
            None => {
                return None;
            },
        };
        Some(ReplyInfo { discriminator, is_initialized, student_info, reply })
    }
}

/// An encoded reply decodes back to itself, whatever follows it.
pub proof fn lemma_reply_decode_encoded(v: ReplyInfoView, tail: Seq<u8>)
    requires
        spec_reply_fits(v),
    ensures
        spec_reply_decode(spec_reply_encode(v) + tail) == Some(v),
{
    let r3 = spec_encode_field(v.reply) + tail;
    let r2 = v.student_info + r3;
    let r1 = spec_encode_bool(v.is_initialized) + r2;
    assert(spec_reply_encode(v) + tail =~= spec_encode_field(v.discriminator) + r1);
    lemma_read_encoded_field(v.discriminator, r1);
    lemma_read_encoded_bool(v.is_initialized, r2);
    lemma_read_encoded_fixed(v.student_info, r3);
    lemma_read_encoded_field(v.reply, tail);
}

/// An all-zero buffer of at least the minimal length decodes to an
/// uninitialized reply with empty fields and an all-zero parent address.
pub proof fn lemma_reply_decode_zeros(n: nat)
    requires
        n >= 45,
    ensures
        spec_reply_decode(zero_bytes(n)) == Some(
            ReplyInfoView {
                discriminator: Seq::<u8>::empty(),
                is_initialized: false,
                student_info: zero_bytes(32),
                reply: Seq::<u8>::empty(),
            },
        ),
{
    lemma_read_field_zeros(n);
    lemma_read_bool_zeros((n - 4) as nat);
    lemma_read_fixed_zeros((n - 5) as nat, 32);
    lemma_read_field_zeros((n - 37) as nat);
}

// ---------------------------------------------------------------------------
// The reply-counter record
// ---------------------------------------------------------------------------

/// The per-introduction reply counter: how many replies exist, and the index
/// seed of the next reply's derived address.
pub struct ReplyCounter {
    pub discriminator: Vec<u8>,
    pub is_initialized: bool,
    pub count: u64,
}

/// The mathematical shape of a reply-counter record.
pub struct ReplyCounterView {
    pub discriminator: Seq<u8>,
    pub is_initialized: bool,
    pub count: u64,
}

impl View for ReplyCounter {
    type V = ReplyCounterView;

    open spec fn view(&self) -> ReplyCounterView {
        ReplyCounterView {
            discriminator: self.discriminator@,
            is_initialized: self.is_initialized,
            count: self.count,
        }
    }
}

/// The tag of the record fits its four-byte length prefix.
pub open spec fn spec_counter_fits(v: ReplyCounterView) -> bool {
    v.discriminator.len() <= u32::MAX
}

/// The byte encoding of a counter record: tag, flag, eight-byte count.
pub open spec fn spec_counter_encode(v: ReplyCounterView) -> Seq<u8> {
    spec_encode_field(v.discriminator) + spec_encode_bool(v.is_initialized) + spec_le64(v.count)
}

/// Decoding a counter record from the front of a buffer.
pub open spec fn spec_counter_decode(b: Seq<u8>) -> Option<ReplyCounterView> {
    match spec_read_field(b) {
        Some((discriminator, r1)) => match spec_read_bool(r1) {
            Some((is_initialized, r2)) => match spec_read_u64(r2) {
                Some((count, _rest)) => Some(
                    ReplyCounterView { discriminator, is_initialized, count },
                ),
                None => None,
            },
            None => None,
        },
        None => None,
    }
}

/// The exact serialized size of a counter record: an 11-byte tag field, the
/// flag, and the eight-byte count. No variable-length payload, so no slack.
pub open spec fn spec_counter_size() -> nat {
    20
}

impl ReplyCounter {
    /// The serialized size of a counter record.
    pub fn get_account_size() -> (r: usize)
        ensures
            r == spec_counter_size(),
    {
        20
    }

    pub fn is_initialized(&self) -> (r: bool)
        ensures
            r == self.is_initialized,
    {
        self.is_initialized
    }

    /// Serializes the record: tag, flag, count.
    pub fn encode(&self) -> (r: Vec<u8>)
        requires
            spec_counter_fits(self@),
        ensures
            r@ == spec_counter_encode(self@),
    {
        let mut out: Vec<u8> = Vec::new();
        append_field(&mut out, &self.discriminator);
        append_bool(&mut out, self.is_initialized);
        let count_bytes = le64_bytes(self.count);
        append_bytes(&mut out, &count_bytes);
        proof {
            assert(out@ =~= spec_counter_encode(self@));
        }
        out
    }

    /// Deserializes a record from the front of a buffer.
    pub fn decode(b: &Vec<u8>) -> (r: Option<ReplyCounter>)
        ensures
            match r {
                Some(s) => spec_counter_decode(b@) == Some(s@),
                None => spec_counter_decode(b@) is None,
            },
    {
        proof {
            assert(b@.subrange(0, b@.len() as int) =~= b@);
        }
        let (discriminator, p1) = match read_field(b, 0) {
            Some(x) => x,
            None => {
                return None;
            },
        };
        let (is_initialized, p2) = match read_bool_at(b, p1) {
            Some(x) => x,
            None => {
                return None;
            },
        };
        let (count, _p3) = match read_le64_at(b, p2) {
            Some(x) => x,
            None => {
                return None;
            },
        };
        Some(ReplyCounter { discriminator, is_initialized, count })
    }
}

/// An encoded counter decodes back to itself, whatever follows it.
pub proof fn lemma_counter_decode_encoded(v: ReplyCounterView, tail: Seq<u8>)
    requires
        spec_counter_fits(v),
    ensures
        spec_counter_decode(spec_counter_encode(v) + tail) == Some(v),
{
    let r2 = spec_le64(v.count) + tail;
    let r1 = spec_encode_bool(v.is_initialized) + r2;
    assert(spec_counter_encode(v) + tail =~= spec_encode_field(v.discriminator) + r1);
    lemma_read_encoded_field(v.discriminator, r1);
    lemma_read_encoded_bool(v.is_initialized, r2);
    lemma_read_encoded_u64(v.count, tail);
}

/// An all-zero buffer of at least the minimal length decodes to an
/// uninitialized counter with count zero.
pub proof fn lemma_counter_decode_zeros(n: nat)
    requires
        n >= 13,
    ensures
        spec_counter_decode(zero_bytes(n)) == Some(
            ReplyCounterView {
                discriminator: Seq::<u8>::empty(),
                is_initialized: false,
                count: 0u64,
            },
        ),
{
    lemma_read_field_zeros(n);
    lemma_read_bool_zeros((n - 4) as nat);
    lemma_read_u64_zeros((n - 5) as nat);
}

} // verus!

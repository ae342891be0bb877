//! The command handlers, each verified against a transition function that
//! states exactly which accounts change, to what, and which error each
//! rejected input produces.

use crate::account::{create_account, spec_alloc_ok, store_bytes, Account, AccountView};
use crate::address::{
    derive_counter_address, derive_intro_address, derive_reply_address, pda_derivation,
    spec_counter_seeds, spec_intro_seeds, spec_reply_seeds, Address,
};
use crate::codec::zero_bytes;
use crate::error::StudentIntroError;
use crate::instruction::{spec_unpack, IntroInstruction, IntroInstructionView};
use crate::codec::copy_bytes;
use crate::state::{
    counter_tag, lemma_counter_decode_zeros, lemma_reply_decode_zeros, lemma_student_decode_zeros,
    reply_tag, spec_counter_decode, spec_counter_encode, spec_counter_tag,
    spec_reply_encode, spec_reply_tag, spec_student_decode, spec_student_encode, spec_student_size,
    spec_student_tag, student_tag, ReplyCounter, ReplyCounterView, ReplyInfo, ReplyInfoView,
    StudentInfo, StudentInfoView,
};
use vstd::pervasive::unreached;
use vstd::prelude::*;

verus! {

/// The size ceiling of an introduction record: its buffer is allocated at
/// this size regardless of the payload, leaving headroom for later in-place
/// updates.
pub open spec fn spec_intro_ceiling() -> nat {
    1000
}

/// The address a derivation yields (meaningful only where the derivation
/// succeeds).
pub open spec fn spec_derived_addr(seeds: Seq<Seq<u8>>, program_id: Seq<u8>) -> Seq<u8> {
    match pda_derivation(seeds, program_id) {
        Some(p) => p.0,
        None => Seq::<u8>::empty(),
    }
}

/// A freshly created introduction record.
pub open spec fn spec_student_record(name: Seq<u8>, msg: Seq<u8>) -> StudentInfoView {
    StudentInfoView {
        discriminator: spec_student_tag(),
        is_initialized: true,
        name: name,
        msg: msg,
    }
}

/// A freshly created counter record.
pub open spec fn spec_counter_record(count: u64) -> ReplyCounterView {
    ReplyCounterView { discriminator: spec_counter_tag(), is_initialized: true, count: count }
}

// ---------------------------------------------------------------------------
// Creating an introduction and its counter
// ---------------------------------------------------------------------------

/// What `add_student_intro` asks of its caller: well-formed identities, a
/// payload size that fits the machine, and that the address derivations it
/// performs succeed (the derivation exhausting its bump search space is
/// treated as fatal and excluded here).
pub open spec fn spec_create_intro_requires(
    pid: Seq<u8>,
    initializer: Seq<u8>,
    user: AccountView,
    counter: AccountView,
    system_id: Seq<u8>,
    name: Seq<u8>,
    msg: Seq<u8>,
) -> bool {
    &&& pid.len() == 32
    &&& initializer.len() == 32
    &&& 20 + name.len() + msg.len() <= usize::MAX
    &&& pda_derivation(spec_intro_seeds(initializer), pid) is Some
    &&& {
        let intro_addr = spec_derived_addr(spec_intro_seeds(initializer), pid);
        (intro_addr == user.key && spec_student_size(name.len(), msg.len())
            <= spec_intro_ceiling() && spec_alloc_ok(user, system_id)) ==> pda_derivation(
            spec_counter_seeds(intro_addr),
            pid,
        ) is Some
    }
}

/// The create transition: the introduction account, the counter account, and
/// the result. The first failed check decides the error; the accounts change
/// exactly as far as the checks were passed.
pub open spec fn spec_create_intro(
    pid: Seq<u8>,
    initializer: Seq<u8>,
    user: AccountView,
    counter: AccountView,
    system_id: Seq<u8>,
    name: Seq<u8>,
    msg: Seq<u8>,
) -> (AccountView, AccountView, Result<(), StudentIntroError>) {
    let intro_addr = spec_derived_addr(spec_intro_seeds(initializer), pid);
    if intro_addr != user.key {
        (user, counter, Err(StudentIntroError::InvalidPDA))
    } else if spec_student_size(name.len(), msg.len()) > spec_intro_ceiling() {
        (user, counter, Err(StudentIntroError::InvalidDataLength))
    } else if !spec_alloc_ok(user, system_id) {
        (user, counter, Err(StudentIntroError::AccountInUse))
    } else {
        let enc = spec_student_encode(spec_student_record(name, msg));
        let user2 = AccountView {
            key: user.key,
            owner: pid,
            data: enc + zero_bytes((spec_intro_ceiling() - enc.len()) as nat),
        };
        let counter_addr = spec_derived_addr(spec_counter_seeds(intro_addr), pid);
        if counter_addr != counter.key {
            (user2, counter, Err(StudentIntroError::InvalidArgument))
        } else if !spec_alloc_ok(counter, system_id) {
            (user2, counter, Err(StudentIntroError::AccountInUse))
        } else {
            let counter2 = AccountView {
                key: counter.key,
                owner: pid,
                data: spec_counter_encode(spec_counter_record(0)),
            };
            (user2, counter2, Ok(()))
        }
    }
}

/// Creates a new introduction record for `initializer` and its companion
/// reply counter, in one request.
///
/// The target addresses are recomputed from the submitter identity and
/// checked against the supplied accounts; the introduction buffer is
/// allocated at the fixed ceiling regardless of payload size; the counter is
/// allocated at its exact size and starts at zero.
pub fn add_student_intro(
    program_id: &Address,
    initializer: &Address,
    user_account: &mut Account,
    pda_counter: &mut Account,
    system_program: &Address,
    name: Vec<u8>,
    message: Vec<u8>,
) -> (r: Result<(), StudentIntroError>)
    requires
        spec_create_intro_requires(
            program_id@,
            initializer@,
            old(user_account)@,
            old(pda_counter)@,
            system_program@,
            name@,
            message@,
        ),
    ensures
        ({
            let (u2, c2, res) = spec_create_intro(
                program_id@,
                initializer@,
                old(user_account)@,
                old(pda_counter)@,
                system_program@,
                name@,
                message@,
            );
            final(user_account)@ =~= u2 && final(pda_counter)@ =~= c2 && r == res
        }),
{
    let (pda, _bump_seed) = match derive_intro_address(initializer, program_id) {
        Some(x) => x,
        None => unreached(),
    };
    if !pda.eq_addr(&user_account.key) {
        return Err(StudentIntroError::InvalidPDA);
    }
    let total_len = StudentInfo::get_account_size(&name, &message);
    if total_len > 1000 {
        return Err(StudentIntroError::InvalidDataLength);
    }
    let account_len: usize = 1000;

    match create_account(user_account, account_len, program_id, system_program) {
        Ok(_) => {},
        Err(e) => {
            return Err(e);
        },
    }
    proof {
        lemma_student_decode_zeros(1000);
    }
    let account_data = match StudentInfo::decode(&user_account.data) {
        Some(d) => d,
        None => unreached(),
    };
    if account_data.is_initialized() {
        // A freshly allocated buffer is all zero, so this cannot happen; the
        // check stays as defense in depth against an allocator that hands
        // back a used buffer.
        return unreached();
    }

    let record = StudentInfo {
        discriminator: student_tag(),
        is_initialized: true,
        name: name,
        msg: message,
    };
    let enc = record.encode();
    match store_bytes(&mut user_account.data, &enc) {
        Ok(_) => {},
        Err(_) => {
            return unreached();
        },
    }
    proof {
        assert(user_account@.data =~= enc@ + zero_bytes((1000 - enc@.len()) as nat));
    }

    let counter_len = ReplyCounter::get_account_size();
    let (counter_pda, _counter_bump) = match derive_counter_address(&pda, program_id) {
        Some(x) => x,
        None => unreached(),
    };
    if !counter_pda.eq_addr(&pda_counter.key) {
        return Err(StudentIntroError::InvalidArgument);
    }

    match create_account(pda_counter, counter_len, program_id, system_program) {
        Ok(_) => {},
        Err(e) => {
            return Err(e);
        },
    }
    proof {
        lemma_counter_decode_zeros(20);
    }
    let counter_data = match ReplyCounter::decode(&pda_counter.data) {
        Some(d) => d,
        None => unreached(),
    };
    if counter_data.is_initialized() {
        // Unreachable for the same reason as above; kept as defense in depth.
        return unreached();
    }

    let counter_record = ReplyCounter {
        discriminator: counter_tag(),
        is_initialized: true,
        count: 0,
    };
    let counter_enc = counter_record.encode();
    match store_bytes(&mut pda_counter.data, &counter_enc) {
        Ok(_) => {},
        Err(_) => {
            return unreached();
        },
    }
    proof {
        assert(pda_counter@.data =~= spec_counter_encode(spec_counter_record(0)));
    }
    Ok(())
}

// ---------------------------------------------------------------------------
// Updating an introduction's message in place
// ---------------------------------------------------------------------------

/// What `update_student_intro` asks of its caller: well-formed identities, a
/// record that decodes (the handler cannot report a buffer it cannot read),
/// a new size that fits the machine, and a derivation that succeeds where the
/// handler reaches it.
pub open spec fn spec_update_intro_requires(
    pid: Seq<u8>,
    initializer: Seq<u8>,
    user: AccountView,
    msg: Seq<u8>,
) -> bool {
    &&& pid.len() == 32
    &&& initializer.len() == 32
    &&& match spec_student_decode(user.data) {
        Some(v) => {
            &&& 13 + v.discriminator.len() + v.name.len() + msg.len() <= usize::MAX
            &&& ((v.is_initialized && user.owner == pid) ==> pda_derivation(
                spec_intro_seeds(initializer),
                pid,
            ) is Some)
        },
        None => false,
    }
}

/// The update transition: only the message field changes; the tag, the name
/// and the initialization flag are re-encoded as decoded. The buffer keeps
/// its size — it was allocated at the ceiling — so bytes past the encoded
/// prefix stay as they were.
pub open spec fn spec_update_intro(
    pid: Seq<u8>,
    initializer: Seq<u8>,
    user: AccountView,
    msg: Seq<u8>,
) -> (AccountView, Result<(), StudentIntroError>) {
    match spec_student_decode(user.data) {
        None => (user, Err(StudentIntroError::BorshIoError)),
        Some(v) => {
            if !v.is_initialized {
                (user, Err(StudentIntroError::UninitializedAccount))
            } else if user.owner != pid {
                (user, Err(StudentIntroError::IllegalOwner))
            } else if spec_derived_addr(spec_intro_seeds(initializer), pid) != user.key {
                (user, Err(StudentIntroError::InvalidPDA))
            } else if 13 + v.discriminator.len() + v.name.len() + msg.len()
                > spec_intro_ceiling() {
                (user, Err(StudentIntroError::InvalidDataLength))
            } else {
                let enc = spec_student_encode(
                    StudentInfoView {
                        discriminator: v.discriminator,
                        is_initialized: v.is_initialized,
                        name: v.name,
                        msg: msg,
                    },
                );
                if enc.len() > user.data.len() {
                    (user, Err(StudentIntroError::BorshIoError))
                } else {
                    (
                        AccountView {
                            key: user.key,
                            owner: user.owner,
                            data: enc + user.data.subrange(
                                enc.len() as int,
                                user.data.len() as int,
                            ),
                        },
                        Ok(()),
                    )
                }
            }
        },
    }
}

/// Replaces the message of an existing introduction in place. The name is
/// never altered here; the `name` argument must still have decoded but is
/// ignored.
pub fn update_student_intro(
    program_id: &Address,
    initializer: &Address,
    user_account: &mut Account,
    name: Vec<u8>,
    message: Vec<u8>,
) -> (r: Result<(), StudentIntroError>)
    requires
        spec_update_intro_requires(program_id@, initializer@, old(user_account)@, message@),
    ensures
        ({
            let (u2, res) = spec_update_intro(
                program_id@,
                initializer@,
                old(user_account)@,
                message@,
            );
            final(user_account)@ =~= u2 && r == res
        }),
{
    let _ = name;
    let mut account_data = match StudentInfo::decode(&user_account.data) {
        Some(d) => d,
        None => unreached(),
    };
    if !account_data.is_initialized() {
        return Err(StudentIntroError::UninitializedAccount);
    }
    if !user_account.owner.eq_addr(program_id) {
        return Err(StudentIntroError::IllegalOwner);
    }
    let (pda, _bump_seed) = match derive_intro_address(initializer, program_id) {
        Some(x) => x,
        None => unreached(),
    };
    if !pda.eq_addr(&user_account.key) {
        return Err(StudentIntroError::InvalidPDA);
    }
    let update_len: usize = 13 + account_data.discriminator.len() + account_data.name.len()
        + message.len();
    if update_len > 1000 {
        return Err(StudentIntroError::InvalidDataLength);
    }
    account_data.msg = message;
    let enc = account_data.encode();
    match store_bytes(&mut user_account.data, &enc) {
        Ok(_) => {},
        Err(e) => {
            return Err(e);
        },
    }
    Ok(())
}

// ---------------------------------------------------------------------------
// Creating a reply
// ---------------------------------------------------------------------------

/// A freshly created reply record linked to its parent introduction.
pub open spec fn spec_reply_record(parent: Seq<u8>, body: Seq<u8>) -> ReplyInfoView {
    ReplyInfoView {
        discriminator: spec_reply_tag(),
        is_initialized: true,
        student_info: parent,
        reply: body,
    }
}

/// What `add_reply` asks of its caller: well-formed identities, a body whose
/// encoded form fits its length prefix and the machine, a counter that
/// decodes where the handler reads it, a derivation that succeeds where the
/// handler reaches it, and a count that does not wrap where the handler
/// increments it.
pub open spec fn spec_add_reply_requires(
    pid: Seq<u8>,
    student_key: Seq<u8>,
    counter: AccountView,
    reply_acct: AccountView,
    system_id: Seq<u8>,
    body: Seq<u8>,
) -> bool {
    &&& pid.len() == 32
    &&& student_key.len() == 32
    &&& 46 + body.len() <= usize::MAX
    &&& body.len() <= u32::MAX
    &&& (counter.owner == system_id ==> match spec_counter_decode(counter.data) {
        Some(cv) => {
            &&& pda_derivation(spec_reply_seeds(student_key, cv.count), pid) is Some
            &&& ((spec_derived_addr(spec_reply_seeds(student_key, cv.count), pid)
                == reply_acct.key && spec_alloc_ok(reply_acct, system_id)) ==> cv.count
                < u64::MAX)
        },
        None => false,
    })
}

/// The reply transition: the counter account, the reply account, and the
/// result. The reply lands at the address derived from the parent and the
/// pre-increment count; the count then increases by exactly one.
pub open spec fn spec_add_reply(
    pid: Seq<u8>,
    student_key: Seq<u8>,
    counter: AccountView,
    reply_acct: AccountView,
    system_id: Seq<u8>,
    body: Seq<u8>,
) -> (AccountView, AccountView, Result<(), StudentIntroError>) {
    if counter.owner != system_id {
        (counter, reply_acct, Err(StudentIntroError::IllegalOwner))
    } else {
        match spec_counter_decode(counter.data) {
            None => (counter, reply_acct, Err(StudentIntroError::BorshIoError)),
            Some(cv) => {
                let reply_addr = spec_derived_addr(spec_reply_seeds(student_key, cv.count), pid);
                if reply_addr != reply_acct.key {
                    (counter, reply_acct, Err(StudentIntroError::InvalidPDA))
                } else if !spec_alloc_ok(reply_acct, system_id) {
                    (counter, reply_acct, Err(StudentIntroError::AccountInUse))
                } else {
                    let reply2 = AccountView {
                        key: reply_acct.key,
                        owner: pid,
                        data: spec_reply_encode(spec_reply_record(student_key, body)),
                    };
                    let cenc = spec_counter_encode(
                        ReplyCounterView {
                            discriminator: spec_counter_tag(),
                            is_initialized: cv.is_initialized,
                            count: (cv.count + 1) as u64,
                        },
                    );
                    if cenc.len() > counter.data.len() {
                        (counter, reply2, Err(StudentIntroError::BorshIoError))
                    } else {
                        (
                            AccountView {
                                key: counter.key,
                                owner: counter.owner,
                                data: cenc + counter.data.subrange(
                                    cenc.len() as int,
                                    counter.data.len() as int,
                                ),
                            },
                            reply2,
                            Ok(()),
                        )
                    }
                }
            },
        }
    }
}

/// Creates a new reply record at the address derived from the parent
/// introduction and the current counter value, links it to its parent, and
/// increments the counter.
///
/// The counter is read in its pre-ownership state: its owner must still be
/// the system allocator identity, a deliberate defensive check on the state
/// the counter is read in.
pub fn add_reply(
    program_id: &Address,
    pda_student: &Account,
    pda_counter: &mut Account,
    pda_reply: &mut Account,
    system_program: &Address,
    reply: Vec<u8>,
) -> (r: Result<(), StudentIntroError>)
    requires
        spec_add_reply_requires(
            program_id@,
            pda_student@.key,
            old(pda_counter)@,
            old(pda_reply)@,
            system_program@,
            reply@,
        ),
    ensures
        ({
            let (c2, r2, res) = spec_add_reply(
                program_id@,
                pda_student@.key,
                old(pda_counter)@,
                old(pda_reply)@,
                system_program@,
                reply@,
            );
            final(pda_counter)@ =~= c2 && final(pda_reply)@ =~= r2 && r == res
        }),
{
    if !pda_counter.owner.eq_addr(system_program) {
        return Err(StudentIntroError::IllegalOwner);
    }
    let counter_data = match ReplyCounter::decode(&pda_counter.data) {
        Some(d) => d,
        None => unreached(),
    };

    let account_len = ReplyInfo::get_account_size(&reply);
    let (reply_pda, _bump_seed) = match derive_reply_address(
        &pda_student.key,
        counter_data.count,
        program_id,
    ) {
        Some(x) => x,
        None => unreached(),
    };
    if !reply_pda.eq_addr(&pda_reply.key) {
        return Err(StudentIntroError::InvalidPDA);
    }

    match create_account(pda_reply, account_len, program_id, system_program) {
        Ok(_) => {},
        Err(e) => {
            return Err(e);
        },
    }
    proof {
        lemma_reply_decode_zeros((46 + reply@.len()) as nat);
    }
    let reply_data = match ReplyInfo::decode(&pda_reply.data) {
        Some(d) => d,
        None => unreached(),
    };
    if reply_data.is_initialized {
        // A freshly allocated buffer is all zero, so this cannot happen; the
        // check stays as defense in depth.
        return unreached();
    }

    // Re-read the counter after allocation: the read must be fresh in case
    // the allocation had side effects in the surrounding context.
    let counter_data = match ReplyCounter::decode(&pda_counter.data) {
        Some(d) => d,
        None => unreached(),
    };

    let record = ReplyInfo {
        discriminator: reply_tag(),
        is_initialized: true,
        student_info: copy_bytes(&pda_student.key.bytes),
        reply: reply,
    };
    let enc = record.encode();
    match store_bytes(&mut pda_reply.data, &enc) {
        Ok(_) => {},
        Err(_) => {
            return unreached();
        },
    }
    proof {
        assert(pda_reply@.data =~= spec_reply_encode(spec_reply_record(pda_student@.key, record.reply@)));
    }

    let new_counter = ReplyCounter {
        discriminator: counter_tag(),
        is_initialized: counter_data.is_initialized,
        count: counter_data.count + 1,
    };
    let counter_enc = new_counter.encode();
    match store_bytes(&mut pda_counter.data, &counter_enc) {
        Ok(_) => {},
        Err(e) => {
            return Err(e);
        },
    }
    Ok(())
}

// ---------------------------------------------------------------------------
// The dispatcher
// ---------------------------------------------------------------------------

/// What `process_instruction` asks of its caller, per decoded command: the
/// requirement of the handler the command routes to, over the accounts it
/// will be handed.
pub open spec fn spec_process_requires(pid: Seq<u8>, pre: Seq<Account>, data: Seq<u8>) -> bool {
    match spec_unpack(data) {
        None => true,
        Some(IntroInstructionView::InitUserInput { name, message }) => pre.len() >= 4
            ==> spec_create_intro_requires(
            pid,
            pre[0]@.key,
            pre[1]@,
            pre[2]@,
            pre[3]@.key,
            name,
            message,
        ),
        Some(IntroInstructionView::UpdateStudentIntro { name: _, message }) => pre.len() >= 2
            ==> spec_update_intro_requires(pid, pre[0]@.key, pre[1]@, message),
        Some(IntroInstructionView::Reply { reply }) => pre.len() >= 5 ==> spec_add_reply_requires(
            pid,
            pre[1]@.key,
            pre[2]@,
            pre[3]@,
            pre[4]@.key,
            reply,
        ),
    }
}

/// What `process_instruction` leaves behind: the accounts the routed handler
/// touches change exactly as its transition says; every other account is
/// untouched; the result is the handler's.
pub open spec fn spec_process_post(
    pid: Seq<u8>,
    pre: Seq<Account>,
    post: Seq<Account>,
    data: Seq<u8>,
    r: Result<(), StudentIntroError>,
) -> bool {
    match spec_unpack(data) {
        None => r == Err::<(), StudentIntroError>(StudentIntroError::InvalidInstruction) && post
            == pre,
        Some(IntroInstructionView::InitUserInput { name, message }) => {
            if pre.len() < 4 {
                r == Err::<(), StudentIntroError>(StudentIntroError::NotEnoughAccountKeys) && post
                    == pre
            } else {
                let (u2, c2, res) = spec_create_intro(
                    pid,
                    pre[0]@.key,
                    pre[1]@,
                    pre[2]@,
                    pre[3]@.key,
                    name,
                    message,
                );
                &&& r == res
                &&& post.len() == pre.len()
                &&& post[1]@ == u2
                &&& post[2]@ == c2
                &&& forall|i: int| 0 <= i < pre.len() && i != 1 && i != 2 ==> post[i] == pre[i]
            }
        },
        Some(IntroInstructionView::UpdateStudentIntro { name: _, message }) => {
            if pre.len() < 2 {
                r == Err::<(), StudentIntroError>(StudentIntroError::NotEnoughAccountKeys) && post
                    == pre
            } else {
                let (u2, res) = spec_update_intro(pid, pre[0]@.key, pre[1]@, message);
                &&& r == res
                &&& post.len() == pre.len()
                &&& post[1]@ == u2
                &&& forall|i: int| 0 <= i < pre.len() && i != 1 ==> post[i] == pre[i]
            }
        },
        Some(IntroInstructionView::Reply { reply }) => {
            if pre.len() < 5 {
                r == Err::<(), StudentIntroError>(StudentIntroError::NotEnoughAccountKeys) && post
                    == pre
            } else {
                let (c2, r2, res) = spec_add_reply(
                    pid,
                    pre[1]@.key,
                    pre[2]@,
                    pre[3]@,
                    pre[4]@.key,
                    reply,
                );
                &&& r == res
                &&& post.len() == pre.len()
                &&& post[2]@ == c2
                &&& post[3]@ == r2
                &&& forall|i: int| 0 <= i < pre.len() && i != 2 && i != 3 ==> post[i] == pre[i]
            }
        },
    }
}

/// Decodes the instruction and routes it to its handler, with the accounts
/// in the caller-supplied positional order: create takes submitter,
/// introduction target, counter target, system allocator; update takes
/// submitter, introduction target; reply takes replier, parent introduction,
/// counter, reply target, system allocator.
pub fn process_instruction(
    program_id: &Address,
    accounts: &mut Vec<Account>,
    instruction_data: &Vec<u8>,
) -> (r: Result<(), StudentIntroError>)
    requires
        spec_process_requires(program_id@, old(accounts)@, instruction_data@),
    ensures
        spec_process_post(program_id@, old(accounts)@, final(accounts)@, instruction_data@, r),
{
    let instruction = match IntroInstruction::unpack(instruction_data) {
        Ok(i) => i,
        Err(e) => {
            return Err(e);
        },
    };
    match instruction {
        IntroInstruction::InitUserInput { name, message } => {
            if accounts.len() < 4 {
                return Err(StudentIntroError::NotEnoughAccountKeys);
            }
            let initializer_key = accounts[0].key.dup();
            let system_key = accounts[3].key.dup();
            let mut pda_counter = accounts.remove(2);
            let mut user_account = accounts.remove(1);
            let r = add_student_intro(
                program_id,
                &initializer_key,
                &mut user_account,
                &mut pda_counter,
                &system_key,
                name,
                message,
            );
            accounts.insert(1, user_account);
            accounts.insert(2, pda_counter);
            proof {
                assert(forall|i: int|
                    0 <= i < old(accounts)@.len() && i != 1 && i != 2 ==> accounts@[i] == old(
                        accounts,
                    )@[i]);
            }
            r
        },
        IntroInstruction::UpdateStudentIntro { name, message } => {
            if accounts.len() < 2 {
                return Err(StudentIntroError::NotEnoughAccountKeys);
            }
            let initializer_key = accounts[0].key.dup();
            let mut user_account = accounts.remove(1);
            let r = update_student_intro(
                program_id,
                &initializer_key,
                &mut user_account,
                name,
                message,
            );
            accounts.insert(1, user_account);
            proof {
                assert(forall|i: int|
                    0 <= i < old(accounts)@.len() && i != 1 ==> accounts@[i] == old(accounts)@[i]);
            }
            r
        },
        IntroInstruction::Reply { reply } => {
            if accounts.len() < 5 {
                return Err(StudentIntroError::NotEnoughAccountKeys);
            }
            let system_key = accounts[4].key.dup();
            let mut pda_reply = accounts.remove(3);
            let mut pda_counter = accounts.remove(2);
            let r = add_reply(
                program_id,
                &accounts[1],
                &mut pda_counter,
                &mut pda_reply,
                &system_key,
                reply,
            );
            accounts.insert(2, pda_counter);
            accounts.insert(3, pda_reply);
            proof {
                assert(forall|i: int|
                    0 <= i < old(accounts)@.len() && i != 2 && i != 3 ==> accounts@[i] == old(
                        accounts,
                    )@[i]);
            }
            r
        },
    }
}

/// Runs `process_instruction` only after checking executively that its
/// requirement holds, and returns `None`, with every account untouched, where
/// it does not: an identity of the wrong width, a size beyond the machine, a
/// record buffer the routed handler would read but cannot decode, an address
/// derivation with no viable bump, or a counter about to wrap.
pub fn try_process_instruction(
    program_id: &Address,
    accounts: &mut Vec<Account>,
    instruction_data: &Vec<u8>,
) -> (r: Option<Result<(), StudentIntroError>>)
    ensures
        match r {
            Some(res) => spec_process_requires(program_id@, old(accounts)@, instruction_data@)
                && spec_process_post(
                program_id@,
                old(accounts)@,
                final(accounts)@,
                instruction_data@,
                res,
            ),
            None => final(accounts)@ == old(accounts)@ && !spec_process_requires(
                program_id@,
                old(accounts)@,
                instruction_data@,
            ),
        },
{
    let instruction = match IntroInstruction::unpack(instruction_data) {
        Ok(i) => i,
        Err(_) => {
            return Some(process_instruction(program_id, accounts, instruction_data));
        },
    };
    match &instruction {
        IntroInstruction::InitUserInput { name, message } => {
            if accounts.len() < 4 {
                return Some(process_instruction(program_id, accounts, instruction_data));
            }
            if program_id.bytes.len() != 32 || accounts[0].key.bytes.len() != 32 {
                return None;
            }
            if message.len() > usize::MAX - 20 || name.len() > usize::MAX - 20 - message.len() {
                return None;
            }
            let (pda, _bump) = match derive_intro_address(&accounts[0].key, program_id) {
                Some(x) => x,
                None => {
                    return None;
                },
            };
            let reaches_counter = pda.eq_addr(&accounts[1].key) && 20 + name.len() + message.len()
                <= 1000 && accounts[1].data.len() == 0 && accounts[1].owner.eq_addr(
                &accounts[3].key,
            );
            if reaches_counter {
                match derive_counter_address(&pda, program_id) {
                    Some(_) => {},
                    None => {
                        return None;
                    },
                }
            }
            Some(process_instruction(program_id, accounts, instruction_data))
        },
        IntroInstruction::UpdateStudentIntro { name: _, message } => {
            if accounts.len() < 2 {
                return Some(process_instruction(program_id, accounts, instruction_data));
            }
            if program_id.bytes.len() != 32 || accounts[0].key.bytes.len() != 32 {
                return None;
            }
            let decoded = match StudentInfo::decode(&accounts[1].data) {
                Some(v) => v,
                None => {
                    return None;
                },
            };
            if message.len() > usize::MAX - 13 {
                return None;
            }
            if decoded.discriminator.len() > usize::MAX - 13 - message.len() {
                return None;
            }
            if decoded.name.len() > usize::MAX - 13 - message.len()
                - decoded.discriminator.len() {
                return None;
            }
            if decoded.is_initialized && accounts[1].owner.eq_addr(program_id) {
                match derive_intro_address(&accounts[0].key, program_id) {
                    Some(_) => {},
                    None => {
                        return None;
                    },
                }
            }
            Some(process_instruction(program_id, accounts, instruction_data))
        },
        IntroInstruction::Reply { reply } => {
            if accounts.len() < 5 {
                return Some(process_instruction(program_id, accounts, instruction_data));
            }
            if program_id.bytes.len() != 32 || accounts[1].key.bytes.len() != 32 {
                return None;
            }
            if reply.len() > usize::MAX - 46 || reply.len() > (u32::MAX as usize) {
                return None;
            }
            if accounts[2].owner.eq_addr(&accounts[4].key) {
                let counter_view = match ReplyCounter::decode(&accounts[2].data) {
                    Some(v) => v,
                    None => {
                        return None;
                    },
                };
                let (reply_pda, _bump) = match derive_reply_address(
                    &accounts[1].key,
                    counter_view.count,
                    program_id,
                ) {
                    Some(x) => x,
                    None => {
                        return None;
                    },
                };
                if reply_pda.eq_addr(&accounts[3].key) && accounts[3].data.len() == 0
                    && accounts[3].owner.eq_addr(&accounts[4].key) && counter_view.count
                    == u64::MAX {
                    return None;
                }
            }
            Some(process_instruction(program_id, accounts, instruction_data))
        },
    }
}

} // verus!

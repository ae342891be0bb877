//! The laws of the record store, each proved from the handlers' transition
//! functions and the record codec: what a successful creation leaves behind,
//! that rejected requests leave no trace, that a second creation against the
//! same submitter fails, that an update touches the message alone, and how
//! one successful reply moves the counter and populates the derived slot.

use crate::account::{spec_alloc_ok, AccountView};
use crate::address::{pda_derivation, spec_intro_seeds, spec_reply_seeds};
use crate::codec::zero_bytes;
use crate::error::StudentIntroError;
use crate::processor::{
    spec_add_reply, spec_create_intro, spec_derived_addr, spec_intro_ceiling, spec_reply_record,
    spec_student_record, spec_update_intro,
};
use crate::state::{
    lemma_counter_decode_encoded, lemma_reply_decode_encoded, lemma_student_decode_encoded,
    spec_counter_decode, spec_counter_encode, spec_counter_tag, spec_reply_decode,
    spec_student_decode, spec_student_encode, spec_student_size, ReplyCounterView, StudentInfoView,
};
use vstd::prelude::*;

verus! {

/// A successful creation leaves the introduction buffer decoding to an
/// initialized record carrying exactly the submitted name and message, and
/// the companion counter decoding to an initialized record with count zero;
/// both accounts now belong to the program, and the introduction buffer sits
/// at the fixed ceiling.
#[verifier::rlimit(100)]
pub proof fn lemma_create_intro_success(
    pid: Seq<u8>,
    initializer: Seq<u8>,
    user: AccountView,
    counter: AccountView,
    system_id: Seq<u8>,
    name: Seq<u8>,
    msg: Seq<u8>,
)
    requires
        spec_create_intro(pid, initializer, user, counter, system_id, name, msg).2 is Ok,
    ensures
        ({
            let (u2, c2, res) = spec_create_intro(
                pid,
                initializer,
                user,
                counter,
                system_id,
                name,
                msg,
            );
            &&& spec_student_decode(u2.data) == Some(spec_student_record(name, msg))
            &&& spec_counter_decode(c2.data) == Some(
                ReplyCounterView {
                    discriminator: spec_counter_tag(),
                    is_initialized: true,
                    count: 0u64,
                },
            )
            &&& u2.data.len() == spec_intro_ceiling()
            &&& u2.owner == pid
            &&& c2.owner == pid
            &&& u2.key == user.key
            &&& c2.key == counter.key
        }),
{
    let (u2, c2, res) = spec_create_intro(pid, initializer, user, counter, system_id, name, msg);
    let record = spec_student_record(name, msg);
    let enc = spec_student_encode(record);
    let tail = zero_bytes((spec_intro_ceiling() - enc.len()) as nat);
    assert(u2.data == enc + tail);
    assert(enc.len() == spec_student_size(name.len(), msg.len()));
    lemma_student_decode_encoded(record, tail);
    assert(spec_student_decode(u2.data) == Some(record));
    assert(u2.data.len() == spec_intro_ceiling());
    let counter_record = ReplyCounterView {
        discriminator: spec_counter_tag(),
        is_initialized: true,
        count: 0u64,
    };
    assert(c2.data == spec_counter_encode(counter_record));
    lemma_counter_decode_encoded(counter_record, Seq::<u8>::empty());
    assert(spec_counter_encode(counter_record) + Seq::<u8>::empty() =~= spec_counter_encode(
        counter_record,
    ));
    assert(spec_counter_decode(c2.data) == Some(counter_record));
}

/// A creation whose encoded size is over the ceiling fails with
/// `InvalidDataLength` and allocates nothing: both accounts are exactly as
/// supplied.
pub proof fn lemma_create_intro_over_ceiling(
    pid: Seq<u8>,
    initializer: Seq<u8>,
    user: AccountView,
    counter: AccountView,
    system_id: Seq<u8>,
    name: Seq<u8>,
    msg: Seq<u8>,
)
    requires
        spec_derived_addr(spec_intro_seeds(initializer), pid) == user.key,
        spec_student_size(name.len(), msg.len()) > spec_intro_ceiling(),
    ensures
        spec_create_intro(pid, initializer, user, counter, system_id, name, msg) == (
            user,
            counter,
            Err::<(), StudentIntroError>(StudentIntroError::InvalidDataLength),
        ),
{
}

/// A creation whose supplied introduction address does not match the one
/// derived from the submitter fails with `InvalidPDA`, whatever the payload,
/// and changes nothing.
pub proof fn lemma_create_intro_pda_mismatch(
    pid: Seq<u8>,
    initializer: Seq<u8>,
    user: AccountView,
    counter: AccountView,
    system_id: Seq<u8>,
    name: Seq<u8>,
    msg: Seq<u8>,
)
    requires
        spec_derived_addr(spec_intro_seeds(initializer), pid) != user.key,
    ensures
        spec_create_intro(pid, initializer, user, counter, system_id, name, msg) == (
            user,
            counter,
            Err::<(), StudentIntroError>(StudentIntroError::InvalidPDA),
        ),
{
}

/// Creating twice against the same submitter fails: after one successful
/// creation the introduction's address is in use, so the allocator refuses
/// the second request, whatever its payload.
pub proof fn lemma_create_intro_twice(
    pid: Seq<u8>,
    initializer: Seq<u8>,
    user: AccountView,
    counter: AccountView,
    counter2: AccountView,
    system_id: Seq<u8>,
    name: Seq<u8>,
    msg: Seq<u8>,
    name2: Seq<u8>,
    msg2: Seq<u8>,
)
    requires
        spec_create_intro(pid, initializer, user, counter, system_id, name, msg).2 is Ok,
        spec_student_size(name2.len(), msg2.len()) <= spec_intro_ceiling(),
    ensures
        ({
            let (u2, _c2, _res) = spec_create_intro(
                pid,
                initializer,
                user,
                counter,
                system_id,
                name,
                msg,
            );
            spec_create_intro(pid, initializer, u2, counter2, system_id, name2, msg2).2 == Err::<
                (),
                StudentIntroError,
            >(StudentIntroError::AccountInUse)
        }),
{
    let (u2, _c2, _res) = spec_create_intro(pid, initializer, user, counter, system_id, name, msg);
    assert(u2.data.len() == spec_intro_ceiling());
}

/// A successful update leaves the record decoding to the old record with only
/// the message replaced: the tag, the name and the initialization flag are
/// unchanged, and so are the account's address, owner and buffer size.
pub proof fn lemma_update_intro_changes_only_message(
    pid: Seq<u8>,
    initializer: Seq<u8>,
    user: AccountView,
    msg: Seq<u8>,
)
    requires
        spec_update_intro(pid, initializer, user, msg).1 is Ok,
        spec_student_decode(user.data) is Some,
    ensures
        ({
            let (u2, _res) = spec_update_intro(pid, initializer, user, msg);
            let v = spec_student_decode(user.data)->Some_0;
            &&& spec_student_decode(u2.data) == Some(
                StudentInfoView {
                    discriminator: v.discriminator,
                    is_initialized: true,
                    name: v.name,
                    msg: msg,
                },
            )
            &&& u2.key == user.key
            &&& u2.owner == user.owner
            &&& u2.data.len() == user.data.len()
        }),
{
    let v = spec_student_decode(user.data)->Some_0;
    let new_record = StudentInfoView {
        discriminator: v.discriminator,
        is_initialized: v.is_initialized,
        name: v.name,
        msg: msg,
    };
    let enc = spec_student_encode(new_record);
    lemma_student_decode_encoded(
        new_record,
        user.data.subrange(enc.len() as int, user.data.len() as int),
    );
}

/// An update whose new encoded size is over the ceiling fails with
/// `InvalidDataLength` and changes nothing.
pub proof fn lemma_update_intro_over_ceiling(
    pid: Seq<u8>,
    initializer: Seq<u8>,
    user: AccountView,
    msg: Seq<u8>,
)
    requires
        spec_student_decode(user.data) matches Some(v) && v.is_initialized,
        user.owner == pid,
        spec_derived_addr(spec_intro_seeds(initializer), pid) == user.key,
        13 + spec_student_decode(user.data)->Some_0.discriminator.len() + spec_student_decode(
            user.data,
        )->Some_0.name.len() + msg.len() > spec_intro_ceiling(),
    ensures
        spec_update_intro(pid, initializer, user, msg) == (
            user,
            Err::<(), StudentIntroError>(StudentIntroError::InvalidDataLength),
        ),
{
}

/// An update against a record not yet initialized fails with
/// `UninitializedAccount` and changes nothing.
pub proof fn lemma_update_intro_uninitialized(
    pid: Seq<u8>,
    initializer: Seq<u8>,
    user: AccountView,
    msg: Seq<u8>,
)
    requires
        spec_student_decode(user.data) matches Some(v) && !v.is_initialized,
    ensures
        spec_update_intro(pid, initializer, user, msg) == (
            user,
            Err::<(), StudentIntroError>(StudentIntroError::UninitializedAccount),
        ),
{
}

/// An update whose supplied address does not match the one derived from the
/// submitter fails with `InvalidPDA` and changes nothing.
pub proof fn lemma_update_intro_pda_mismatch(
    pid: Seq<u8>,
    initializer: Seq<u8>,
    user: AccountView,
    msg: Seq<u8>,
)
    requires
        spec_student_decode(user.data) matches Some(v) && v.is_initialized,
        user.owner == pid,
        spec_derived_addr(spec_intro_seeds(initializer), pid) != user.key,
    ensures
        spec_update_intro(pid, initializer, user, msg) == (
            user,
            Err::<(), StudentIntroError>(StudentIntroError::InvalidPDA),
        ),
{
}

/// One successful reply, read against counter value `C`: the reply record
/// lands at the address derived from the parent and `C`, decodes to an
/// initialized record holding the parent address and the submitted body, and
/// the counter decodes to `C + 1`. The counter account itself keeps its
/// address, owner and buffer size, so the law composes: the next reply is
/// read against `C + 1`.
#[verifier::rlimit(100)]
#[verifier::spinoff_prover]
pub proof fn lemma_add_reply_success(
    pid: Seq<u8>,
    student_key: Seq<u8>,
    counter: AccountView,
    reply_acct: AccountView,
    system_id: Seq<u8>,
    body: Seq<u8>,
)
    requires
        spec_add_reply(pid, student_key, counter, reply_acct, system_id, body).2 is Ok,
        spec_counter_decode(counter.data) is Some,
        student_key.len() == 32,
        body.len() <= u32::MAX,
    ensures
        ({
            let (c2, r2, _res) = spec_add_reply(
                pid,
                student_key,
                counter,
                reply_acct,
                system_id,
                body,
            );
            let cv = spec_counter_decode(counter.data)->Some_0;
            &&& spec_reply_decode(r2.data) == Some(spec_reply_record(student_key, body))
            &&& r2.key == spec_derived_addr(spec_reply_seeds(student_key, cv.count), pid)
            &&& r2.owner == pid
            &&& spec_counter_decode(c2.data) == Some(
                ReplyCounterView {
                    discriminator: spec_counter_tag(),
                    is_initialized: cv.is_initialized,
                    count: (cv.count + 1) as u64,
                },
            )
            &&& c2.key == counter.key
            &&& c2.owner == counter.owner
            &&& c2.data.len() == counter.data.len()
        }),
{
    let (c2, r2, res) = spec_add_reply(pid, student_key, counter, reply_acct, system_id, body);
    let cv = spec_counter_decode(counter.data)->Some_0;
    assert(counter.owner == system_id);
    assert(spec_derived_addr(spec_reply_seeds(student_key, cv.count), pid) == reply_acct.key);
    let reply_record = spec_reply_record(student_key, body);
    let renc = crate::state::spec_reply_encode(reply_record);
    assert(r2.data == renc);
    lemma_reply_decode_encoded(reply_record, Seq::<u8>::empty());
    assert(renc + Seq::<u8>::empty() =~= renc);
    assert(spec_reply_decode(r2.data) == Some(reply_record));
    let new_counter = ReplyCounterView {
        discriminator: spec_counter_tag(),
        is_initialized: cv.is_initialized,
        count: (cv.count + 1) as u64,
    };
    let cenc = spec_counter_encode(new_counter);
    let tail = counter.data.subrange(cenc.len() as int, counter.data.len() as int);
    assert(c2.data == cenc + tail);
    lemma_counter_decode_encoded(new_counter, tail);
    assert(spec_counter_decode(c2.data) == Some(new_counter));
    assert(c2.data.len() == counter.data.len());
}

/// The counter and reply accounts left by running the first `i` of a series
/// of replies in order: each call reads the counter left by the one before
/// and writes the caller-supplied fresh target account of its turn.
pub open spec fn spec_reply_chain(
    pid: Seq<u8>,
    student_key: Seq<u8>,
    counter: AccountView,
    targets: Seq<AccountView>,
    bodies: Seq<Seq<u8>>,
    system_id: Seq<u8>,
    i: int,
) -> (AccountView, Seq<AccountView>)
    decreases i,
{
    if i <= 0 {
        (counter, Seq::<AccountView>::empty())
    } else {
        let (c_prev, outs) = spec_reply_chain(
            pid,
            student_key,
            counter,
            targets,
            bodies,
            system_id,
            i - 1,
        );
        let (c2, r2, _res) = spec_add_reply(
            pid,
            student_key,
            c_prev,
            targets[i - 1],
            system_id,
            bodies[i - 1],
        );
        (c2, outs.push(r2))
    }
}

/// What a series of `n` replies needs to go through: a counter read in its
/// pre-ownership state whose buffer fits the rewrite, and, for each turn, a
/// fresh target account sitting at the address derived from the parent and
/// that turn's counter value, a body that fits its length prefix, a
/// derivation that succeeds, and a count that never wraps.
pub open spec fn spec_reply_chain_inputs_ok(
    pid: Seq<u8>,
    student_key: Seq<u8>,
    counter: AccountView,
    targets: Seq<AccountView>,
    bodies: Seq<Seq<u8>>,
    system_id: Seq<u8>,
    n: int,
    c0: u64,
) -> bool {
    &&& counter.owner == system_id
    &&& spec_counter_decode(counter.data) matches Some(cv) && cv.count == c0
    &&& counter.data.len() >= 20
    &&& student_key.len() == 32
    &&& c0 + n <= u64::MAX
    &&& targets.len() >= n
    &&& bodies.len() >= n
    &&& forall|k: int|
        0 <= k < n ==> {
            &&& (#[trigger] targets[k]).key == spec_derived_addr(
                spec_reply_seeds(student_key, (c0 + k) as u64),
                pid,
            )
            &&& spec_alloc_ok(targets[k], system_id)
        }
    &&& forall|k: int| 0 <= k < n ==> (#[trigger] bodies[k]).len() <= u32::MAX
    &&& forall|k: int|
        0 <= k < n ==> pda_derivation(
            #[trigger] spec_reply_seeds(student_key, (c0 + k) as u64),
            pid,
        ) is Some
}

/// `n` sequential successful replies against one introduction: every call
/// succeeds, the counter reads `c0 + n` afterwards, and the reply written on
/// turn `k` sits at the address derived from the parent and `c0 + k`, owned
/// by the program, decoding to an initialized record that carries the parent
/// address and the `k`th submitted body.
pub proof fn lemma_reply_chain(
    pid: Seq<u8>,
    student_key: Seq<u8>,
    counter: AccountView,
    targets: Seq<AccountView>,
    bodies: Seq<Seq<u8>>,
    system_id: Seq<u8>,
    n: int,
    c0: u64,
)
    requires
        0 <= n,
        spec_reply_chain_inputs_ok(pid, student_key, counter, targets, bodies, system_id, n, c0),
    ensures
        ({
            let (c_final, outs) = spec_reply_chain(
                pid,
                student_key,
                counter,
                targets,
                bodies,
                system_id,
                n,
            );
            &&& outs.len() == n
            &&& spec_counter_decode(c_final.data) matches Some(cv) && cv.count == c0 + n
            &&& c_final.owner == system_id
            &&& c_final.key == counter.key
            &&& c_final.data.len() == counter.data.len()
            &&& forall|k: int|
                0 <= k < n ==> {
                    &&& spec_reply_decode((#[trigger] outs[k]).data) == Some(
                        spec_reply_record(student_key, bodies[k]),
                    )
                    &&& outs[k].key == spec_derived_addr(
                        spec_reply_seeds(student_key, (c0 + k) as u64),
                        pid,
                    )
                    &&& outs[k].owner == pid
                    &&& spec_add_reply(
                        pid,
                        student_key,
                        spec_reply_chain(
                            pid,
                            student_key,
                            counter,
                            targets,
                            bodies,
                            system_id,
                            k,
                        ).0,
                        targets[k],
                        system_id,
                        bodies[k],
                    ).2 is Ok
                }
        }),
    decreases n,
{
    if n > 0 {
        lemma_reply_chain(pid, student_key, counter, targets, bodies, system_id, n - 1, c0);
        let (c_prev, outs) = spec_reply_chain(
            pid,
            student_key,
            counter,
            targets,
            bodies,
            system_id,
            n - 1,
        );
        let cv_prev = spec_counter_decode(c_prev.data)->Some_0;
        assert(cv_prev.count == c0 + n - 1);
        assert(targets[n - 1].key == spec_derived_addr(
            spec_reply_seeds(student_key, cv_prev.count),
            pid,
        ));
        let (c2, r2, res) = spec_add_reply(
            pid,
            student_key,
            c_prev,
            targets[n - 1],
            system_id,
            bodies[n - 1],
        );
        assert(res is Ok);
        lemma_add_reply_success(pid, student_key, c_prev, targets[n - 1], system_id, bodies[n - 1]);
        assert(spec_counter_decode(c2.data)->Some_0.count == c0 + n);
        let (c_final, outs_final) = spec_reply_chain(
            pid,
            student_key,
            counter,
            targets,
            bodies,
            system_id,
            n,
        );
        assert(c_final == c2 && outs_final == outs.push(r2));
        assert(forall|k: int| 0 <= k < n - 1 ==> outs.push(r2)[k] == outs[k]);
        assert(outs.push(r2)[n - 1] == r2);
    }
}

/// A reply whose supplied target address does not match the one derived from
/// the parent and the current count fails with `InvalidPDA`, whatever the
/// payload, and changes nothing.
pub proof fn lemma_add_reply_pda_mismatch(
    pid: Seq<u8>,
    student_key: Seq<u8>,
    counter: AccountView,
    reply_acct: AccountView,
    system_id: Seq<u8>,
    body: Seq<u8>,
)
    requires
        counter.owner == system_id,
        spec_counter_decode(counter.data) matches Some(cv) && spec_derived_addr(
            spec_reply_seeds(student_key, cv.count),
            pid,
        ) != reply_acct.key,
    ensures
        spec_add_reply(pid, student_key, counter, reply_acct, system_id, body) == (
            counter,
            reply_acct,
            Err::<(), StudentIntroError>(StudentIntroError::InvalidPDA),
        ),
{
}

} // verus!

//! The storage model the handlers run against: an account is a fixed
//! address, the identity of the program that owns it, and its byte buffer.
//! Allocation mirrors the substrate's account-creation primitive: it succeeds
//! only on a fresh account (still owned by the system allocator, with no
//! data), hands the account to the requesting program, and zero-fills the
//! buffer at the requested size.

use crate::address::Address;
use crate::codec::{zero_bytes, zero_vec};
use crate::error::StudentIntroError;
use vstd::prelude::*;

verus! {

/// One storage account: its address, its owning program, and its data.
pub struct Account {
    pub key: Address,
    pub owner: Address,
    pub data: Vec<u8>,
}

/// The mathematical shape of an account.
#[verifier::ext_equal]
pub struct AccountView {
    pub key: Seq<u8>,
    pub owner: Seq<u8>,
    pub data: Seq<u8>,
}

impl View for Account {
    type V = AccountView;

    open spec fn view(&self) -> AccountView {
        AccountView { key: self.key@, owner: self.owner@, data: self.data@ }
    }
}

/// The allocator creates an account only while it is fresh: still owned by
/// the system allocator and holding no data.
pub open spec fn spec_alloc_ok(a: AccountView, system_id: Seq<u8>) -> bool {
    a.owner == system_id && a.data.len() == 0
}

/// The state of an account just after allocation: owned by the requesting
/// program, its buffer zero-filled at the requested size.
pub open spec fn spec_allocated(a: AccountView, size: nat, new_owner: Seq<u8>) -> AccountView {
    AccountView { key: a.key, owner: new_owner, data: zero_bytes(size) }
}

/// Requests allocation of a `size`-byte buffer at `target`'s address, funded
/// by the caller and assigned to `new_owner`. Fails, leaving the account
/// untouched, if the address is already in use.
pub fn create_account(
    target: &mut Account,
    size: usize,
    new_owner: &Address,
    system_id: &Address,
) -> (r: Result<(), StudentIntroError>)
    ensures
        match r {
            Ok(_) => spec_alloc_ok(old(target)@, system_id@) && final(target)@ == spec_allocated(
                old(target)@,
                size as nat,
                new_owner@,
            ),
            Err(e) => {
                &&& e == StudentIntroError::AccountInUse
                &&& !spec_alloc_ok(old(target)@, system_id@)
                &&& final(target)@ == old(target)@
            },
        },
{
    if target.data.len() != 0 || !target.owner.eq_addr(system_id) {
        return Err(StudentIntroError::AccountInUse);
    }
    target.owner = new_owner.dup();
    target.data = zero_vec(size);
    Ok(())
}

/// Writes an encoded record over the front of an account buffer, leaving any
/// bytes past it as they were. Fails, leaving the buffer untouched, if the
/// record does not fit.
pub fn store_bytes(buf: &mut Vec<u8>, bytes: &Vec<u8>) -> (r: Result<(), StudentIntroError>)
    ensures
        match r {
            Ok(_) => {
                &&& bytes@.len() <= old(buf)@.len()
                &&& final(buf)@ == bytes@ + old(buf)@.subrange(
                    bytes@.len() as int,
                    old(buf)@.len() as int,
                )
            },
            Err(e) => {
                &&& e == StudentIntroError::BorshIoError
                &&& bytes@.len() > old(buf)@.len()
                &&& final(buf)@ == old(buf)@
            },
        },
{
    if bytes.len() > buf.len() {
        return Err(StudentIntroError::BorshIoError);
    }
    let ghost buf0 = buf@;
    let mut out: Vec<u8> = Vec::new();
    let mut i: usize = 0;
    while i < bytes.len()
        invariant
            i <= bytes@.len(),
            out@ == bytes@.subrange(0, i as int),
        decreases bytes@.len() - i,
    {
        out.push(bytes[i]);
        i = i + 1;
        proof {
            assert(bytes@.subrange(0, i - 1).push(bytes@[i - 1]) =~= bytes@.subrange(0, i as int));
        }
    }
    proof {
        assert(out@ =~= bytes@);
    }
    let mut j: usize = bytes.len();
    while j < buf.len()
        invariant
            bytes@.len() <= j <= buf@.len(),
            buf@ == buf0,
            bytes@.len() <= buf0.len(),
            out@ == bytes@ + buf0.subrange(bytes@.len() as int, j as int),
        decreases buf@.len() - j,
    {
        out.push(buf[j]);
        j = j + 1;
        proof {
            assert((bytes@ + buf0.subrange(bytes@.len() as int, j - 1)).push(buf0[j - 1]) =~= bytes@
                + buf0.subrange(bytes@.len() as int, j as int));
        }
    }
    *buf = out;
    Ok(())
}

} // verus!

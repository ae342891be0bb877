//! Deterministic storage addresses. An address is 32 raw bytes; a program
//! derived address is computed from an ordered list of seed byte-strings and
//! a program identity, together with a one-byte "bump" disambiguator chosen
//! so the candidate address falls outside the signable-key space. The
//! derivation itself is the execution substrate's hash-based primitive; this
//! module wraps it and builds the three seed shapes this program uses.

use crate::codec::{be64_bytes, bytes_eq, copy_bytes, spec_be64};
use vstd::prelude::*;

verus! {

/// A 32-byte storage address or program identity.
pub struct Address {
    pub bytes: Vec<u8>,
}

impl View for Address {
    type V = Seq<u8>;

    open spec fn view(&self) -> Seq<u8> {
        self.bytes@
    }
}

impl Address {
    /// A fresh copy of this address.
    pub fn dup(&self) -> (r: Address)
        ensures
            r@ == self@,
    {
        Address { bytes: copy_bytes(&self.bytes) }
    }

    /// Element-wise comparison.
    pub fn eq_addr(&self, other: &Address) -> (r: bool)
        ensures
            r == (self@ == other@),
    {
        bytes_eq(&self.bytes, &other.bytes)
    }
}

/// What the substrate's address derivation returns for a seed list and a
/// program identity: a 32-byte address and its bump, or nothing in the
/// statistically improbable event that no bump pushes the candidate off the
/// curve (also when a seed is over-long or there are too many seeds). The
/// result is a pure function of the seeds and the program identity.
pub uninterp spec fn pda_derivation(seeds: Seq<Seq<u8>>, program_id: Seq<u8>) -> Option<
    (Seq<u8>, u8),
>;

/// Relies on solana_program::pubkey::Pubkey::try_find_program_address: a
/// deterministic, pure search over bump seeds, returning the first candidate
/// address outside the curve-point space, or None if the search space is
/// exhausted or the seeds break its limits. Same seeds and same program
/// identity always give the same result.
#[verifier::external_body]
fn solana_try_find_program_address(seeds: &Vec<Vec<u8>>, program_id: &Address) -> (r: Option<
    (Address, u8),
>)
    requires
        program_id@.len() == 32,
    ensures
        match r {
            Some(p) => pda_derivation(seeds.deep_view(), program_id@) == Some((p.0@, p.1))
                && p.0@.len() == 32,
            None => pda_derivation(seeds.deep_view(), program_id@) is None,
        },
{
    let mut array = [0u8; 32];
    array.copy_from_slice(&program_id.bytes);
    let pid = solana_program::pubkey::Pubkey::new_from_array(array);
    let seed_slices: Vec<&[u8]> = seeds.iter().map(|s: &Vec<u8>| s.as_slice()).collect();
    let (pk, bump) = solana_program::pubkey::Pubkey::try_find_program_address(
        &seed_slices,
        &pid,
    )?;
    Some((Address { bytes: pk.to_bytes().to_vec() }, bump))
}

// ---------------------------------------------------------------------------
// The three seed shapes
// ---------------------------------------------------------------------------

/// Seeds of an introduction's address: the submitter identity alone.
pub open spec fn spec_intro_seeds(submitter: Seq<u8>) -> Seq<Seq<u8>> {
    seq![submitter]
}

/// The fixed discriminator seed of a counter's address: the UTF-8 of
/// "reply".
pub open spec fn spec_counter_seed() -> Seq<u8> {
    seq![114u8, 101u8, 112u8, 108u8, 121u8]
}

/// Seeds of a counter's address: the parent introduction's address and the
/// fixed discriminator seed.
pub open spec fn spec_counter_seeds(intro: Seq<u8>) -> Seq<Seq<u8>> {
    seq![intro, spec_counter_seed()]
}

/// Seeds of a reply's address: the parent introduction's address and the
/// pre-increment counter value as eight big-endian bytes.
pub open spec fn spec_reply_seeds(intro: Seq<u8>, count: u64) -> Seq<Seq<u8>> {
    seq![intro, spec_be64(count)]
}

/// Derives the introduction address owed to a submitter.
pub fn derive_intro_address(submitter: &Address, program_id: &Address) -> (r: Option<
    (Address, u8),
>)
    requires
        submitter@.len() == 32,
        program_id@.len() == 32,
    ensures
        match r {
            Some(p) => pda_derivation(spec_intro_seeds(submitter@), program_id@) == Some(
                (p.0@, p.1),
            ) && p.0@.len() == 32,
            None => pda_derivation(spec_intro_seeds(submitter@), program_id@) is None,
        },
{
    let mut seeds: Vec<Vec<u8>> = Vec::new();
    seeds.push(copy_bytes(&submitter.bytes));
    proof {
        assert(seeds.deep_view() =~~= spec_intro_seeds(submitter@));
    }
    solana_try_find_program_address(&seeds, program_id)
}

/// Derives the counter address owed to an introduction.
pub fn derive_counter_address(intro: &Address, program_id: &Address) -> (r: Option<(Address, u8)>)
    requires
        intro@.len() == 32,
        program_id@.len() == 32,
    ensures
        match r {
            Some(p) => pda_derivation(spec_counter_seeds(intro@), program_id@) == Some(
                (p.0@, p.1),
            ) && p.0@.len() == 32,
            None => pda_derivation(spec_counter_seeds(intro@), program_id@) is None,
        },
{
    let mut discriminator_seed: Vec<u8> = Vec::new();
    discriminator_seed.push(114u8);
    discriminator_seed.push(101u8);
    discriminator_seed.push(112u8);
    discriminator_seed.push(108u8);
    discriminator_seed.push(121u8);
    proof {
        assert(discriminator_seed@ =~= spec_counter_seed());
    }
    let mut seeds: Vec<Vec<u8>> = Vec::new();
    seeds.push(copy_bytes(&intro.bytes));
    seeds.push(discriminator_seed);
    proof {
        assert(seeds.deep_view() =~~= spec_counter_seeds(intro@));
    }
    solana_try_find_program_address(&seeds, program_id)
}

/// Derives the address owed to the reply at the given pre-increment counter
/// value: the reply at index `count` (0-indexed) is always at the address
/// derived from the parent and `count`.
pub fn derive_reply_address(intro: &Address, count: u64, program_id: &Address) -> (r: Option<
    (Address, u8),
>)
    requires
        intro@.len() == 32,
        program_id@.len() == 32,
    ensures
        match r {
            Some(p) => pda_derivation(spec_reply_seeds(intro@, count), program_id@) == Some(
                (p.0@, p.1),
            ) && p.0@.len() == 32,
            None => pda_derivation(spec_reply_seeds(intro@, count), program_id@) is None,
        },
{
    let mut seeds: Vec<Vec<u8>> = Vec::new();
    seeds.push(copy_bytes(&intro.bytes));
    seeds.push(be64_bytes(count));
    proof {
        assert(seeds.deep_view() =~~= spec_reply_seeds(intro@, count));
    }
    solana_try_find_program_address(&seeds, program_id)
}

} // verus!

//! Stable identifiers for configured providers (sensors, transformers, hooks,
//! terminators and rules).

use std::hash::Hash;
use std::hash::Hasher;

use vstd::prelude::*;

verus! {

/// Stable opaque identifier for a registered provider.
///
/// Derived from the provider name with `rustc_hash::FxHasher`, so every component
/// of one program that turns the same name into an id gets the same id.  The
/// hash mixes in word-sized steps: targets of different pointer widths may
/// give a name different ids.
#[derive(Debug, Clone, Copy, PartialEq, Eq, Hash, Structural)]
pub struct ProviderId(pub u64);

/// What `FxHasher` computes for a `str` hashed with `Hash::hash` (its bytes, then
/// the `0xff` terminator), on a target whose `usize` has `word_bits` bits.
pub uninterp spec fn fx_str_hash(text: Seq<char>, word_bits: u32) -> u64;

/// Hashes `name` with `rustc_hash::FxHasher` through `<str as Hash>::hash` and
/// returns `Hasher::finish`.  The contract names the result: it is a function of
/// the text and of the pointer width of the target, nothing else.
#[verifier::external_body]
fn fx_hash_of_str(name: &str) -> (r: u64)
    ensures
        r == fx_str_hash(name@, usize::BITS),
{
    let mut h = rustc_hash::FxHasher::default();
    name.hash(&mut h);
    h.finish()
}

/// The id that a provider named `name` gets.
pub open spec fn provider_id_of(name: Seq<char>) -> ProviderId {
    ProviderId(fx_str_hash(name, usize::BITS))
}

impl ProviderId {
    /// Derives a [`ProviderId`] from a human-readable provider name.
    pub fn from_name(name: &str) -> (r: ProviderId)
        ensures
            r == provider_id_of(name@),
    {
        ProviderId(fx_hash_of_str(name))
    }
}

impl<'a> From<&'a str> for ProviderId {
    fn from(name: &'a str) -> (r: ProviderId) {
        ProviderId::from_name(name)
    }
}

impl<'a> vstd::std_specs::convert::FromSpecImpl<&'a str> for ProviderId {
    open spec fn obeys_from_spec() -> bool {
        true
    }

    open spec fn from_spec(name: &'a str) -> ProviderId {
        provider_id_of(name@)
    }
}

/// Two names give the same id whenever they are the same text.
pub proof fn lemma_provider_id_deterministic(a: Seq<char>, b: Seq<char>)
    requires
        a == b,
    ensures
        provider_id_of(a) == provider_id_of(b),
{
}

} // verus!

//! Opaque session tokens: 32 bytes drawn from a seedable, cryptographically
//! strong generator, stored as their hexadecimal value and compared by
//! equality. No claims are embedded; possession is the whole capability.
use crate::codec::{
    all_ascii, ascii_bytes_to_string, chars_of_bytes, hex_encode, spec_hex, lemma_hex_len,
};
use rand_core::Rng;
use rand_core::SeedableRng;
use vstd::prelude::*;

verus! {

/// Days an opaque session stays valid from issuance.
pub const SESSION_DAYS_DURATION: u64 = 30;

/// The same duration in unix seconds.
pub const SESSION_SECONDS: u64 = 2_592_000;

/// Number of random bytes in one opaque session token: 32 bytes, well above
/// the 128 bits of entropy the storage scheme needs.
pub const SESSION_TOKEN_BYTES: usize = 32;

#[verifier::external_type_specification]
#[verifier::external_body]
pub struct ExChaCha8Rng(rand_chacha::ChaCha8Rng);

/// Relies on `rand_core::SeedableRng::seed_from_u64`: expands the seed into
/// a generator state; deterministic, so a fixed seed gives a reproducible
/// stream for tests.
#[verifier::external_body]
pub fn rng_from_u64_seed(seed: u64) -> rand_chacha::ChaCha8Rng {
    rand_chacha::ChaCha8Rng::seed_from_u64(seed)
}

/// Relies on `rand_core::Rng::fill_bytes` on `ChaCha8Rng`: fills the whole
/// buffer with generator output and cannot fail. Nothing is promised of the
/// values drawn.
#[verifier::external_body]
pub fn fill_random_bytes(rng: &mut rand_chacha::ChaCha8Rng, len: usize) -> (r: Vec<u8>)
    ensures
        r@.len() == len,
{
    let mut buf = vec![0u8; len];
    rng.fill_bytes(&mut buf);
    buf
}

/// The deterministic transform from raw token bytes to the value stored and
/// compared in the session store: lowercase hex, as text.
pub open spec fn spec_storage_value(raw: Seq<u8>) -> Seq<char> {
    chars_of_bytes(spec_hex(raw))
}

pub proof fn lemma_hex_ascii(s: Seq<u8>)
    ensures
        all_ascii(spec_hex(s)),
    decreases s.len(),
{
    if s.len() > 0 {
        lemma_hex_ascii(s.drop_last());
        assert forall|i: int| 0 <= i < spec_hex(s).len() implies #[trigger] spec_hex(s)[i]
            < 0x80 by {
            let pre = spec_hex(s.drop_last());
            if i >= pre.len() {
                assert(spec_hex(s)[i] == if i == pre.len() {
                    crate::codec::spec_hex_digit(s.last() / 16)
                } else {
                    crate::codec::spec_hex_digit(s.last() % 16)
                });
            }
        }
    }
}

/// A freshly generated opaque session token, still holding its raw bytes.
/// It is handed to the owning client once, at creation; afterwards only the
/// storage value exists server-side.
pub struct SessionToken {
    pub raw: Vec<u8>,
}

impl SessionToken {
    /// Draws a new token from the shared generator. Only the length is
    /// certain; the bytes are generator output.
    pub fn generate_new(rng: &mut rand_chacha::ChaCha8Rng) -> (r: SessionToken)
        ensures
            r.raw@.len() == SESSION_TOKEN_BYTES,
    {
        SessionToken { raw: fill_random_bytes(rng, SESSION_TOKEN_BYTES) }
    }

    /// The deterministic storage value of this token: the same transform on
    /// the same bytes, so a client-supplied token is matched by equality.
    pub fn into_database_value(&self) -> (r: String)
        ensures
            r@ == spec_storage_value(self.raw@),
            r@.len() == 2 * self.raw@.len(),
    {
        let h = hex_encode(&self.raw);
        proof {
            lemma_hex_ascii(self.raw@);
            lemma_hex_len(self.raw@);
        }
        ascii_bytes_to_string(h)
    }
}

} // verus!

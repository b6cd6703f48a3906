//! SHA-256 of a byte stream, rendered as lowercase hex.

use vstd::prelude::*;
use sha2::Digest;

verus! {

/// A SHA-256 computation in progress. Verus cannot take the hasher's type,
/// so the struct is opaque; what it has absorbed is `sha256_absorbed`.
#[verifier::external_body]
pub struct Sha256Stream {
    hasher: sha2::Sha256,
}

/// The bytes a SHA-256 computation has absorbed so far, in order.
pub uninterp spec fn sha256_absorbed(s: Sha256Stream) -> Seq<u8>;

/// The SHA-256 digest of a byte sequence.
pub uninterp spec fn sha256_digest(data: Seq<u8>) -> Seq<u8>;

/// `Sha256::new`: a computation that has absorbed nothing.
#[verifier::external_body]
fn sha256_start() -> (s: Sha256Stream)
    ensures
        sha256_absorbed(s) == Seq::<u8>::empty(),
{
    Sha256Stream { hasher: sha2::Sha256::new() }
}

/// `Digest::update`: absorbs the bytes of `chunk` after those absorbed.
#[verifier::external_body]
fn sha256_absorb(s: &mut Sha256Stream, chunk: &[u8])
    ensures
        sha256_absorbed(*final(s)) == sha256_absorbed(*old(s)) + chunk@,
{
    s.hasher.update(chunk);
}

/// `Digest::finalize`: the 32-byte digest of what was absorbed.
#[verifier::external_body]
fn sha256_digest_of(s: Sha256Stream) -> (r: Vec<u8>)
    ensures
        r@ == sha256_digest(sha256_absorbed(s)),
        r@.len() == 32,
{
    s.hasher.finalize().to_vec()
}

/// The lowercase hex digit of a value below 16.
pub open spec fn hex_digit(d: nat) -> char {
    if d < 10 {
        (48 + d) as char
    } else {
        (87 + d) as char
    }
}

/// Bytes as lowercase hex, two digits per byte, high digit first.
pub open spec fn hex_text(bytes: Seq<u8>) -> Seq<char>
    decreases bytes.len(),
{
    if bytes.len() == 0 {
        Seq::empty()
    } else {
        hex_text(bytes.drop_last()) + seq![
            hex_digit((bytes.last() / 16) as nat),
            hex_digit((bytes.last() % 16) as nat),
        ]
    }
}

proof fn lemma_hex_text_len(bytes: Seq<u8>)
    ensures
        hex_text(bytes).len() == 2 * bytes.len(),
    decreases bytes.len(),
{
    if bytes.len() > 0 {
        lemma_hex_text_len(bytes.drop_last());
    }
}

fn hex_digit_exec(d: u8) -> (c: char)
    requires
        d < 16,
    ensures
        c == hex_digit(d as nat),
{
    if d < 10 {
        (48 + d) as char
    } else {
        (87 + d) as char
    }
}

/// Bytes as lowercase hex.
pub fn hex_string(bytes: &Vec<u8>) -> (r: String)
    ensures
        r@ == hex_text(bytes@),
        r@.len() == 2 * bytes@.len(),
{
    let mut out = String::new();
    let mut i: usize = 0;
    assert(bytes@.take(0) =~= Seq::<u8>::empty());
    while i < bytes.len()
        invariant
            i <= bytes@.len(),
            out@ == hex_text(bytes@.take(i as int)),
        decreases bytes.len() - i,
    {
        let b = bytes[i];
        let hi = hex_digit_exec(b / 16);
        let lo = hex_digit_exec(b % 16);
        crate::text::string_push(&mut out, hi);
        crate::text::string_push(&mut out, lo);
        assert(bytes@.take(i + 1).drop_last() =~= bytes@.take(i as int));
        assert(bytes@.take(i + 1).last() == b);
        assert(out@ =~= hex_text(bytes@.take(i + 1)));
        i = i + 1;
    }
    assert(bytes@.take(bytes@.len() as int) =~= bytes@);
    proof {
        lemma_hex_text_len(bytes@);
    }
    out
}

impl Sha256Stream {
    /// What the computation has absorbed so far.
    pub open spec fn absorbed(self) -> Seq<u8> {
        sha256_absorbed(self)
    }

    /// A computation that has absorbed nothing yet.
    pub fn new() -> (s: Sha256Stream)
        ensures
            s.absorbed() == Seq::<u8>::empty(),
    {
        sha256_start()
    }

    /// Absorb the next chunk of the stream.
    pub fn update(&mut self, chunk: &[u8])
        ensures
            final(self).absorbed() == old(self).absorbed() + chunk@,
    {
        sha256_absorb(self, chunk);
    }

    /// The digest of everything absorbed, as 64 lowercase hex digits.
    pub fn finish_hex(self) -> (r: String)
        ensures
            r@ == hex_text(sha256_digest(self.absorbed())),
            r@.len() == 64,
    {
        let d = sha256_digest_of(self);
        hex_string(&d)
    }
}

} // verus!

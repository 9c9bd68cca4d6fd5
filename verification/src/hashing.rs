use vstd::prelude::*;
use sha2::Digest;

verus! {

/// The SHA-256 digest of a byte sequence: 32 bytes, a function of the input
/// alone. The algorithm itself is not restated here; the implementation in
/// the `sha2` crate is relied on, and named by this function.
pub uninterp spec fn sha256_of(data: Seq<u8>) -> Seq<u8>;

/// A streaming content hasher. Large originals are hashed chunk by chunk so
/// that no whole file is ever buffered; the digest depends only on the bytes
/// fed, in order.
#[verifier::external_body]
pub struct ContentHasher {
    inner: sha2::Sha256,
}

/// The bytes fed to a hasher so far, in order.
pub uninterp spec fn hasher_fed(h: &ContentHasher) -> Seq<u8>;

impl ContentHasher {
    /// Relies on `sha2::Sha256::new`: a hasher that has seen no bytes.
    #[verifier::external_body]
    pub fn new() -> (h: ContentHasher)
        ensures
            hasher_fed(&h) == Seq::<u8>::empty(),
    {
        ContentHasher { inner: sha2::Sha256::new() }
    }

    /// Relies on `sha2::Sha256::update`: feeding bytes extends the hashed stream.
    #[verifier::external_body]
    pub fn update(&mut self, chunk: &[u8])
        ensures
            hasher_fed(final(self)) == hasher_fed(old(self)) + chunk@,
    {
        self.inner.update(chunk);
    }

    /// Relies on `sha2::Sha256::finalize`: the digest of every byte fed, 32 bytes.
    #[verifier::external_body]
    pub fn finish(self) -> (digest: Vec<u8>)
        ensures
            digest@ == sha256_of(hasher_fed(&self)),
            digest@.len() == 32,
    {
        self.inner.finalize().to_vec()
    }

    /// The hex string of the digest of every byte fed: the content digest
    /// that deduplication keys on.
    pub fn finish_hex(self) -> (r: String)
        ensures
            r@ == spec_hex(sha256_of(hasher_fed(&self))),
            r@.len() == 64,
    {
        let ghost fed = hasher_fed(&self);
        let digest = self.finish();
        let r = hex_encode(&digest);
        assert(r@.len() == 2 * sha256_of(fed).len());
        r
    }
}

/// The digest of an in-memory byte buffer, as lower-case hex.
pub fn hash_bytes(data: &[u8]) -> (r: String)
    ensures
        r@ == spec_hex(sha256_of(data@)),
        r@.len() == 64,
{
    let mut h = ContentHasher::new();
    h.update(data);
    assert(hasher_fed(&h) =~= data@);
    h.finish_hex()
}

/// The lower-case hex digit for a value below 16.
pub open spec fn spec_hex_digit(v: int) -> char {
    seq!['0', '1', '2', '3', '4', '5', '6', '7', '8', '9', 'a', 'b', 'c', 'd', 'e', 'f'][v]
}

/// Lower-case hex encoding: two digits for each byte, high nibble first.
pub open spec fn spec_hex(data: Seq<u8>) -> Seq<char> {
    Seq::new(2 * data.len(), |i: int|
        if i % 2 == 0 {
            spec_hex_digit(data[i / 2] as int / 16)
        } else {
            spec_hex_digit(data[i / 2] as int % 16)
        }
    )
}

fn hex_digit(v: u8) -> (c: char)
    requires
        v < 16,
    ensures
        c == spec_hex_digit(v as int),
{
    match v {
        0 => '0', 1 => '1', 2 => '2', 3 => '3', 4 => '4', 5 => '5', 6 => '6', 7 => '7',
        8 => '8', 9 => '9', 10 => 'a', 11 => 'b', 12 => 'c', 13 => 'd', 14 => 'e', _ => 'f',
    }
}

/// Hex encoding of a byte buffer, lower case.
pub fn hex_encode(bytes: &Vec<u8>) -> (r: String)
    ensures
        r@ == spec_hex(bytes@),
        r@.len() == 2 * bytes@.len(),
{
    let mut r = String::new();
    let mut i: usize = 0;
    while i < bytes.len()
        invariant
            i <= bytes@.len(),
            r@.len() == 2 * i,
            forall|j: int| 0 <= j < 2 * i ==> r@[j] == spec_hex(bytes@)[j],
        decreases bytes@.len() - i,
    {
        let b = bytes[i];
        let hi = hex_digit(b / 16);
        let lo = hex_digit(b % 16);
        crate::geo::push_char(&mut r, hi);
        crate::geo::push_char(&mut r, lo);
        i = i + 1;
    }
    assert(r@ =~= spec_hex(bytes@));
    r
}

} // verus!

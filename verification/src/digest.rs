use vstd::prelude::*;
use vstd::slice::slice_subrange;

verus! {

/// The bytes a hasher has absorbed so far, in order. Named here so that the
/// contracts of the hashing wrappers can track it.
pub uninterp spec fn hasher_fed(h: blake3::Hasher) -> Seq<u8>;

/// The digest that the hash function assigns to a byte sequence. It depends
/// on the input bytes alone, so hashing equal contents gives equal digests.
pub uninterp spec fn blake3_of(bytes: Seq<u8>) -> Seq<u8>;

#[verifier::external_type_specification]
#[verifier::external_body]
pub struct ExHasher(blake3::Hasher);

/// The lowercase hexadecimal digit for a value below sixteen.
pub open spec fn hex_char(nibble: u8) -> char
    recommends
        nibble < 16,
{
    if nibble == 0 { '0' }
    else if nibble == 1 { '1' }
    else if nibble == 2 { '2' }
    else if nibble == 3 { '3' }
    else if nibble == 4 { '4' }
    else if nibble == 5 { '5' }
    else if nibble == 6 { '6' }
    else if nibble == 7 { '7' }
    else if nibble == 8 { '8' }
    else if nibble == 9 { '9' }
    else if nibble == 10 { 'a' }
    else if nibble == 11 { 'b' }
    else if nibble == 12 { 'c' }
    else if nibble == 13 { 'd' }
    else if nibble == 14 { 'e' }
    else { 'f' }
}

/// Lowercase hexadecimal encoding: two digits per byte, high nibble first.
pub open spec fn hex_of(bytes: Seq<u8>) -> Seq<char>
    decreases bytes.len(),
{
    if bytes.len() == 0 {
        Seq::<char>::empty()
    } else {
        seq![hex_char(bytes[0] / 16), hex_char(bytes[0] % 16)] + hex_of(bytes.drop_first())
    }
}

pub proof fn lemma_hex_of_len(bytes: Seq<u8>)
    ensures
        hex_of(bytes).len() == 2 * bytes.len(),
    decreases bytes.len(),
{
    if bytes.len() > 0 {
        lemma_hex_of_len(bytes.drop_first());
    }
}

/// The digest string of a byte sequence: its hash, written in lowercase hex.
pub open spec fn digest_of(bytes: Seq<u8>) -> Seq<char> {
    hex_of(blake3_of(bytes))
}

/// Relies on blake3::Hasher::new: a fresh hasher has absorbed no input.
#[verifier::external_body]
fn hasher_new() -> (h: blake3::Hasher)
    ensures
        hasher_fed(h) == Seq::<u8>::empty(),
{
    blake3::Hasher::new()
}

/// Relies on blake3::Hasher::update: appends the chunk to the absorbed input.
#[verifier::external_body]
fn hasher_update(h: &mut blake3::Hasher, chunk: &[u8])
    ensures
        hasher_fed(*final(h)) == hasher_fed(*old(h)) + chunk@,
{
    h.update(chunk);
}

/// Relies on blake3::Hasher::finalize and blake3::Hash::as_bytes: a 32-byte
/// digest that is a function of the absorbed bytes alone.
#[verifier::external_body]
fn hasher_finalize(h: &blake3::Hasher) -> (d: Vec<u8>)
    ensures
        d@ == blake3_of(hasher_fed(*h)),
        d@.len() == 32,
{
    h.finalize().as_bytes().to_vec()
}

/// Relies on hex::encode: lowercase hex, two digits per byte, high nibble
/// first.
#[verifier::external_body]
fn hex_encode(bytes: &Vec<u8>) -> (r: String)
    ensures
        r@ == hex_of(bytes@),
{
    hex::encode(bytes.as_slice())
}

/// An incremental content hasher: feed it chunks in order, then read the
/// digest of everything fed. Working memory is bounded by the chunk size, not
/// by the total input.
pub struct DigestEngine {
    hasher: blake3::Hasher,
}

impl DigestEngine {
    /// Everything this engine has been fed so far, in order.
    pub closed spec fn fed(&self) -> Seq<u8> {
        hasher_fed(self.hasher)
    }

    pub fn new() -> (engine: Self)
        ensures
            engine.fed() == Seq::<u8>::empty(),
    {
        DigestEngine { hasher: hasher_new() }
    }

    pub fn update(&mut self, chunk: &[u8])
        ensures
            final(self).fed() == old(self).fed() + chunk@,
    {
        hasher_update(&mut self.hasher, chunk);
    }

    /// The digest of everything fed so far: a fixed-length lowercase
    /// hexadecimal string.
    pub fn finish(&self) -> (digest: String)
        ensures
            digest@ == digest_of(self.fed()),
            digest@.len() == 64,
    {
        let raw = hasher_finalize(&self.hasher);
        proof {
            lemma_hex_of_len(raw@);
        }
        hex_encode(&raw)
    }
}

/// Digest a whole byte string, feeding it to the engine in bounded chunks as
/// a streaming reader would.
pub fn digest_bytes(data: &[u8]) -> (digest: String)
    ensures
        digest@ == digest_of(data@),
        digest@.len() == 64,
{
    let mut engine = DigestEngine::new();
    let mut i: usize = 0;
    while i < data.len()
        invariant
            i <= data.len(),
            engine.fed() == data@.subrange(0, i as int),
        decreases data.len() - i,
    {
        let j = if data.len() - i < 65536 { data.len() } else { i + 65536 };
        let chunk = slice_subrange(data, i, j);
        engine.update(chunk);
        proof {
            assert(engine.fed() =~= data@.subrange(0, j as int));
        }
        i = j;
    }
    proof {
        assert(engine.fed() =~= data@);
    }
    engine.finish()
}

/// Hashing is deterministic: equal contents always give equal digests,
/// however and wherever they were fed in.
pub proof fn lemma_digest_deterministic(a: Seq<u8>, b: Seq<u8>)
    requires
        a == b,
    ensures
        digest_of(a) == digest_of(b),
{
}

} // verus!

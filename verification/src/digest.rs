use vstd::prelude::*;
use sha1::{Digest, Sha1};

verus! {

/// The parts of a signature input, joined in order with no separator.
pub open spec fn joined(parts: Seq<Seq<char>>) -> Seq<char>
    decreases parts.len(),
{
    if parts.len() == 0 {
        Seq::empty()
    } else {
        joined(parts.drop_last()) + parts.last()
    }
}

/// The views of a vector of parts.
pub open spec fn views_of(parts: Seq<String>) -> Seq<Seq<char>> {
    parts.map_values(|p: String| p@)
}

/// The value of the outside 160-bit hash on a byte sequence.
pub uninterp spec fn sha1_of(input: Seq<u8>) -> Seq<u8>;

/// The lowercase hex digit for a nibble.
pub open spec fn hex_digit(n: u8) -> char
    recommends
        n < 16,
{
    if n < 10 {
        (n + 48) as char
    } else {
        (n + 87) as char
    }
}

/// Lowercase hex encoding: two digits per byte, high nibble first.
pub open spec fn hex_of(bytes: Seq<u8>) -> Seq<char> {
    Seq::new(
        bytes.len() * 2,
        |i: int| if i % 2 == 0 { hex_digit(bytes[i / 2] / 16) } else { hex_digit(bytes[i / 2] % 16) },
    )
}

/// What `digest` returns on a given character sequence: the lowercase hex
/// encoding of the 160-bit hash of its UTF-8 bytes.
pub open spec fn spec_digest(s: Seq<char>) -> Seq<char> {
    hex_of(sha1_of(vstd::utf8::encode_utf8(s)))
}

/// Digest law: the digest is a pure function of the joined parts alone, so
/// identical inputs always yield the identical hex output, however the
/// parts are grouped.
pub proof fn lemma_digest_deterministic(a: Seq<Seq<char>>, b: Seq<Seq<char>>)
    requires
        joined(a) == joined(b),
    ensures
        spec_digest(joined(a)) == spec_digest(joined(b)),
{
}

/// Relies on sha1::Sha1 through the digest traits: the hash value is a
/// function of the input bytes alone and is always 20 bytes long.
#[verifier::external_body]
fn sha1_bytes(input: &Vec<u8>) -> (r: Vec<u8>)
    ensures
        r@ == sha1_of(input@),
        r@.len() == 20,
{
    Sha1::digest(input.as_slice()).to_vec()
}

/// Relies on hex::encode: each byte becomes two lowercase hex digits,
/// high nibble first.
#[verifier::external_body]
fn hex_lower(bytes: &Vec<u8>) -> (r: String)
    ensures
        r@ == hex_of(bytes@),
{
    hex::encode(bytes.as_slice())
}

/// Digest of one already-joined input. A fresh hash is computed per call, so
/// consecutive calls never leak accumulated bytes into one another.
pub fn digest_str(input: &str) -> (r: String)
    ensures
        r@ == spec_digest(input@),
        r@.len() == 40,
{
    let bytes = input.as_bytes_vec();
    let d = sha1_bytes(&bytes);
    hex_lower(&d)
}

/// Keyed-digest computation over an ordered sequence of string parts: the
/// parts are concatenated in order with no separator and hashed. Stateless:
/// the result depends on the parts alone.
pub fn digest_parts(parts: &Vec<String>) -> (r: String)
    ensures
        r@ == spec_digest(joined(views_of(parts@))),
        r@.len() == 40,
{
    let mut acc = String::new();
    let mut i: usize = 0;
    while i < parts.len()
        invariant
            i <= parts.len(),
            acc@ == joined(views_of(parts@).take(i as int)),
        decreases parts.len() - i,
    {
        acc.append(parts[i].as_str());
        proof {
            let vs = views_of(parts@);
            assert(vs.take(i + 1).drop_last() =~= vs.take(i as int));
            assert(vs.take(i + 1).last() == parts@[i as int]@);
        }
        i += 1;
    }
    proof {
        assert(views_of(parts@).take(parts@.len() as int) =~= views_of(parts@));
    }
    digest_str(acc.as_str())
}

} // verus!

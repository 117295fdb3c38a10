//! Content-hash versioning of resources.
//!
//! A version is a pure, deterministic fingerprint of a resource's raw
//! source: the lowercase hexadecimal form of the SHA-256 digest of its
//! bytes. Equal sources give equal versions; the store's optimistic
//! version check compares these fingerprints.

use vstd::prelude::*;

verus! {

/// The SHA-256 digest of the UTF-8 bytes of a string, as a function of
/// its characters alone.
pub uninterp spec fn sha_digest(s: Seq<char>) -> Seq<u8>;

/// Relies on sha2::Sha256 through sha2::Digest::digest: the digest is a
/// pure function of the input bytes (here, the UTF-8 bytes of `s`), and
/// a SHA-256 digest is exactly 32 bytes long.
#[verifier::external_body]
fn sha256_of(s: &str) -> (r: Vec<u8>)
    ensures
        r@ == sha_digest(s@),
        r@.len() == 32,
{
    let digest = <sha2::Sha256 as sha2::Digest>::digest(s.as_bytes());
    digest.to_vec()
}

/// The lowercase hexadecimal digit for a value below 16.
pub open spec fn hex_digit(d: int) -> char {
    if d == 0 {
        '0'
    } else if d == 1 {
        '1'
    } else if d == 2 {
        '2'
    } else if d == 3 {
        '3'
    } else if d == 4 {
        '4'
    } else if d == 5 {
        '5'
    } else if d == 6 {
        '6'
    } else if d == 7 {
        '7'
    } else if d == 8 {
        '8'
    } else if d == 9 {
        '9'
    } else if d == 10 {
        'a'
    } else if d == 11 {
        'b'
    } else if d == 12 {
        'c'
    } else if d == 13 {
        'd'
    } else if d == 14 {
        'e'
    } else {
        'f'
    }
}

/// The lowercase hexadecimal form of a byte sequence: two digits per
/// byte, high digit first.
pub open spec fn hex_of(bs: Seq<u8>) -> Seq<char>
    decreases bs.len(),
{
    if bs.len() == 0 {
        Seq::empty()
    } else {
        hex_of(bs.drop_last()) + seq![
            hex_digit(bs.last() as int / 16),
            hex_digit(bs.last() as int % 16),
        ]
    }
}

/// The version fingerprint of a source text.
pub open spec fn spec_version_of(s: Seq<char>) -> Seq<char> {
    hex_of(sha_digest(s))
}

pub fn hex_digit_exec(d: u8) -> (r: char)
    requires
        d < 16,
    ensures
        r == hex_digit(d as int),
{
    match d {
        0 => '0',
        1 => '1',
        2 => '2',
        3 => '3',
        4 => '4',
        5 => '5',
        6 => '6',
        7 => '7',
        8 => '8',
        9 => '9',
        10 => 'a',
        11 => 'b',
        12 => 'c',
        13 => 'd',
        14 => 'e',
        _ => 'f',
    }
}

/// Relies on String::push: it appends exactly the given character.
pub assume_specification[ String::push ](s: &mut String, c: char)
    ensures
        final(s)@ == old(s)@.push(c),
;

/// The lowercase hexadecimal form of a byte sequence.
#[verifier::loop_isolation(false)]
pub fn hex_encode(bs: &Vec<u8>) -> (r: String)
    ensures
        r@ == hex_of(bs@),
{
    let mut out = String::new();
    let mut i: usize = 0;
    proof {
        assert(hex_of(bs@.subrange(0, 0)) =~= Seq::<char>::empty());
    }
    while i < bs.len()
        invariant
            i <= bs@.len(),
            out@ == hex_of(bs@.subrange(0, i as int)),
        decreases bs@.len() - i,
    {
        let b = bs[i];
        out.push(hex_digit_exec(b / 16));
        out.push(hex_digit_exec(b % 16));
        proof {
            let pre = bs@.subrange(0, i as int);
            let next = bs@.subrange(0, i as int + 1);
            assert(next.drop_last() =~= pre);
            assert(next.last() == bs@[i as int]);
            assert(out@ =~= hex_of(next));
        }
        i = i + 1;
    }
    proof {
        assert(bs@.subrange(0, bs@.len() as int) =~= bs@);
    }
    out
}

/// The version fingerprint of a source text: the lowercase hexadecimal
/// form of the SHA-256 digest of its bytes, 64 characters long.
pub fn version_of(source: &str) -> (r: String)
    ensures
        r@ == spec_version_of(source@),
        r@.len() == 64,
{
    let digest = sha256_of(source);
    proof {
        lemma_hex_len(digest@);
    }
    hex_encode(&digest)
}

proof fn lemma_hex_len(bs: Seq<u8>)
    ensures
        hex_of(bs).len() == 2 * bs.len(),
    decreases bs.len(),
{
    if bs.len() > 0 {
        lemma_hex_len(bs.drop_last());
    }
}

/// The version fingerprint is deterministic: computations on equal
/// sources agree.
pub proof fn lemma_version_deterministic(s1: Seq<char>, s2: Seq<char>)
    ensures
        s1 == s2 ==> spec_version_of(s1) == spec_version_of(s2),
{
}

} // verus!

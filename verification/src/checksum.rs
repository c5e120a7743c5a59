//! Checksum algorithms accepted by the package manifest, digest
//! computation through outside hashing crates, and hex encoding of
//! digests.

use vstd::prelude::*;
use crate::LpmError;
use sha2::Digest;

verus! {

/// The digest algorithms a package manifest may declare for a file.
#[derive(Clone, Copy, Debug, PartialEq, Eq, Structural)]
pub enum ChecksumKind {
    Md5,
    Sha256,
    Sha512,
}

impl ChecksumKind {
    /// The canonical lowercase name of the algorithm.
    pub fn as_str(&self) -> (r: &str)
        ensures
            r@ == self.name(),
    {
        match self {
            ChecksumKind::Md5 => "md5",
            ChecksumKind::Sha256 => "sha256",
            ChecksumKind::Sha512 => "sha512",
        }
    }

    /// The canonical name of the algorithm, as a sequence of characters.
    pub open spec fn name(self) -> Seq<char> {
        match self {
            ChecksumKind::Md5 => "md5"@,
            ChecksumKind::Sha256 => "sha256"@,
            ChecksumKind::Sha512 => "sha512"@,
        }
    }

    /// Parses an algorithm name; only the three canonical lowercase
    /// names are accepted.
    pub fn from_str(kind: &str) -> (r: Result<ChecksumKind, LpmError>)
        ensures
            kind@ == "md5"@ ==> r == Ok::<ChecksumKind, LpmError>(ChecksumKind::Md5),
            kind@ == "sha256"@ ==> r == Ok::<ChecksumKind, LpmError>(ChecksumKind::Sha256),
            kind@ == "sha512"@ ==> r == Ok::<ChecksumKind, LpmError>(ChecksumKind::Sha512),
            kind@ != "md5"@ && kind@ != "sha256"@ && kind@ != "sha512"@ ==> (match r {
                Err(LpmError::UnsupportedChecksumAlgorithm) => true,
                _ => false,
            }),
            r matches Ok(k) ==> kind@ == k.name(),
    {
        proof {
            reveal_strlit("md5");
            reveal_strlit("sha256");
            reveal_strlit("sha512");
            assert("md5"@.len() == 3);
            assert("sha256"@.len() == 6);
            assert("sha512"@.len() == 6);
            assert("sha256"@[3] == '2' && "sha512"@[3] == '5');
        }
        let k = kind.to_owned();
        if k == String::from_str("md5") {
            Ok(ChecksumKind::Md5)
        } else if k == String::from_str("sha256") {
            Ok(ChecksumKind::Sha256)
        } else if k == String::from_str("sha512") {
            Ok(ChecksumKind::Sha512)
        } else {
            Err(LpmError::UnsupportedChecksumAlgorithm)
        }
    }
}

/// The character that writes one hex nibble, lowercase.
pub open spec fn hex_digit(n: u8) -> char
    recommends
        n < 16,
{
    if n == 0 { '0' } else if n == 1 { '1' } else if n == 2 { '2' } else if n == 3 { '3' }
    else if n == 4 { '4' } else if n == 5 { '5' } else if n == 6 { '6' } else if n == 7 { '7' }
    else if n == 8 { '8' } else if n == 9 { '9' } else if n == 10 { 'a' } else if n == 11 { 'b' }
    else if n == 12 { 'c' } else if n == 13 { 'd' } else if n == 14 { 'e' } else { 'f' }
}

/// The two lowercase hex characters of one byte, high nibble first.
pub open spec fn hex_of_byte(b: u8) -> Seq<char> {
    seq![hex_digit(b / 16), hex_digit(b % 16)]
}

/// The lowercase hex encoding of a byte sequence.
pub open spec fn hex_of(bytes: Seq<u8>) -> Seq<char>
    decreases bytes.len(),
{
    if bytes.len() == 0 {
        Seq::empty()
    } else {
        hex_of_byte(bytes[0]) + hex_of(bytes.drop_first())
    }
}

pub proof fn lemma_hex_of_push(bytes: Seq<u8>, b: u8)
    ensures
        hex_of(bytes.push(b)) == hex_of(bytes) + hex_of_byte(b),
    decreases bytes.len(),
{
    if bytes.len() == 0 {
        assert(bytes.push(b).drop_first() =~= Seq::<u8>::empty());
        assert(hex_of(Seq::<u8>::empty()) == Seq::<char>::empty());
        assert(bytes.push(b)[0] == b);
        assert(hex_of(bytes.push(b)) =~= hex_of(bytes) + hex_of_byte(b));
    } else {
        assert(bytes.push(b).drop_first() =~= bytes.drop_first().push(b));
        lemma_hex_of_push(bytes.drop_first(), b);
        assert(bytes.push(b)[0] == bytes[0]);
        assert(hex_of(bytes.push(b)) == hex_of_byte(bytes[0]) + hex_of(bytes.drop_first().push(b)));
        assert(hex_of(bytes) == hex_of_byte(bytes[0]) + hex_of(bytes.drop_first()));
        assert(hex_of_byte(bytes[0]) + (hex_of(bytes.drop_first()) + hex_of_byte(b)) =~= (
        hex_of_byte(bytes[0]) + hex_of(bytes.drop_first())) + hex_of_byte(b));
    }
}

fn hex_digit_char(n: u8) -> (c: char)
    requires
        n < 16,
    ensures
        c == hex_digit(n),
{
    match n {
        0 => '0', 1 => '1', 2 => '2', 3 => '3',
        4 => '4', 5 => '5', 6 => '6', 7 => '7',
        8 => '8', 9 => '9', 10 => 'a', 11 => 'b',
        12 => 'c', 13 => 'd', 14 => 'e', _ => 'f',
    }
}

/// Relies on `core::iter::Iterator::collect` into `String`: the built
/// string holds exactly the characters of the vector, in order.
#[verifier::external_body]
pub(crate) fn chars_to_string(v: &Vec<char>) -> (r: String)
    ensures
        r@ == v@,
{
    v.iter().collect()
}

/// Writes a digest as its lowercase hex string, two characters per byte.
pub fn digest_to_hex_string(digest: &Vec<u8>) -> (r: String)
    ensures
        r@ == hex_of(digest@),
{
    let mut chars: Vec<char> = Vec::new();
    let mut i: usize = 0;
    while i < digest.len()
        invariant
            i <= digest.len(),
            chars@ == hex_of(digest@.take(i as int)),
        decreases digest.len() - i,
    {
        let b = digest[i];
        chars.push(hex_digit_char(b / 16));
        chars.push(hex_digit_char(b % 16));
        proof {
            lemma_hex_of_push(digest@.take(i as int), b);
            assert(digest@.take(i + 1) =~= digest@.take(i as int).push(digest@[i as int]));
        }
        i = i + 1;
    }
    proof {
        assert(digest@.take(digest@.len() as int) =~= digest@);
    }
    chars_to_string(&chars)
}

/// The MD5 digest of a byte sequence: a function of the bytes alone.
pub uninterp spec fn md5_of(bytes: Seq<u8>) -> Seq<u8>;

/// The SHA-256 digest of a byte sequence: a function of the bytes alone.
pub uninterp spec fn sha256_of(bytes: Seq<u8>) -> Seq<u8>;

/// The SHA-512 digest of a byte sequence: a function of the bytes alone.
pub uninterp spec fn sha512_of(bytes: Seq<u8>) -> Seq<u8>;

/// Relies on `md5::compute`: the 16-byte MD5 digest of the input,
/// depending on the input bytes alone.
#[verifier::external_body]
fn md5_digest(bytes: &Vec<u8>) -> (r: Vec<u8>)
    ensures
        r@ == md5_of(bytes@),
        r@.len() == 16,
{
    md5::compute(bytes.as_slice()).0.to_vec()
}

/// Relies on `sha2::Sha256` through `digest::Digest::digest`: the
/// 32-byte SHA-256 digest of the input, depending on the input bytes
/// alone.
#[verifier::external_body]
fn sha256_digest(bytes: &Vec<u8>) -> (r: Vec<u8>)
    ensures
        r@ == sha256_of(bytes@),
        r@.len() == 32,
{
    sha2::Sha256::digest(bytes.as_slice()).to_vec()
}

/// Relies on `sha2::Sha512` through `digest::Digest::digest`: the
/// 64-byte SHA-512 digest of the input, depending on the input bytes
/// alone.
#[verifier::external_body]
fn sha512_digest(bytes: &Vec<u8>) -> (r: Vec<u8>)
    ensures
        r@ == sha512_of(bytes@),
        r@.len() == 64,
{
    sha2::Sha512::digest(bytes.as_slice()).to_vec()
}

/// The digest of a byte sequence under the given algorithm.
pub open spec fn digest_of(kind: ChecksumKind, bytes: Seq<u8>) -> Seq<u8> {
    match kind {
        ChecksumKind::Md5 => md5_of(bytes),
        ChecksumKind::Sha256 => sha256_of(bytes),
        ChecksumKind::Sha512 => sha512_of(bytes),
    }
}

/// Computes the digest of the bytes under the given algorithm and
/// writes it as a lowercase hex string.
pub fn compute_checksum(kind: &ChecksumKind, bytes: &Vec<u8>) -> (r: String)
    ensures
        r@ == hex_of(digest_of(*kind, bytes@)),
{
    let digest = match kind {
        ChecksumKind::Md5 => md5_digest(bytes),
        ChecksumKind::Sha256 => sha256_digest(bytes),
        ChecksumKind::Sha512 => sha512_digest(bytes),
    };
    digest_to_hex_string(&digest)
}

/// Maps an uppercase hex letter to its lowercase form; every other
/// character stays as it is.
pub open spec fn lower_hex_char(c: char) -> char {
    if c == 'A' { 'a' } else if c == 'B' { 'b' } else if c == 'C' { 'c' }
    else if c == 'D' { 'd' } else if c == 'E' { 'e' } else if c == 'F' { 'f' }
    else { c }
}

fn lower_hex_char_exec(c: char) -> (r: char)
    ensures
        r == lower_hex_char(c),
{
    match c {
        'A' => 'a', 'B' => 'b', 'C' => 'c',
        'D' => 'd', 'E' => 'e', 'F' => 'f',
        _ => c,
    }
}

/// Two character sequences are the same hex string up to the case of
/// the hex letters.
pub open spec fn hex_eq_ci(a: Seq<char>, b: Seq<char>) -> bool {
    a.len() == b.len() && forall|i: int| 0 <= i < a.len() ==> lower_hex_char(a[i]) == lower_hex_char(#[trigger] b[i])
}

/// Compares a manifest checksum string against a computed hex digest,
/// ignoring the case of hex letters.
pub fn checksum_matches(expected: &String, computed: &String) -> (r: bool)
    ensures
        r == hex_eq_ci(expected@, computed@),
{
    let n = expected.as_str().unicode_len();
    let m = computed.as_str().unicode_len();
    if n != m {
        return false;
    }
    let mut i: usize = 0;
    while i < n
        invariant
            n == expected@.len(),
            m == computed@.len(),
            n == m,
            i <= n,
            forall|j: int| 0 <= j < i ==> lower_hex_char(expected@[j]) == lower_hex_char(#[trigger] computed@[j]),
        decreases n - i,
    {
        let a = expected.as_str().get_char(i);
        let b = computed.as_str().get_char(i);
        if lower_hex_char_exec(a) != lower_hex_char_exec(b) {
            return false;
        }
        i = i + 1;
    }
    true
}

} // verus!

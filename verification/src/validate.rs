//! The package validator: architecture compatibility and per-file
//! digest verification against the manifest.

use vstd::prelude::*;
use vstd::map::Map;
use crate::checksum::{
    chars_to_string, checksum_matches, compute_checksum, digest_of, hex_eq_ci, hex_of,
    ChecksumKind,
};
use crate::pkg::{Package, PkgFile};
use crate::LpmError;

verus! {

/// Maps an ASCII uppercase letter to its lowercase form; every other
/// character stays as it is.
pub open spec fn lower_ascii_char(c: char) -> char {
    if c == 'A' { 'a' } else if c == 'B' { 'b' } else if c == 'C' { 'c' }
    else if c == 'D' { 'd' } else if c == 'E' { 'e' } else if c == 'F' { 'f' }
    else if c == 'G' { 'g' } else if c == 'H' { 'h' } else if c == 'I' { 'i' }
    else if c == 'J' { 'j' } else if c == 'K' { 'k' } else if c == 'L' { 'l' }
    else if c == 'M' { 'm' } else if c == 'N' { 'n' } else if c == 'O' { 'o' }
    else if c == 'P' { 'p' } else if c == 'Q' { 'q' } else if c == 'R' { 'r' }
    else if c == 'S' { 's' } else if c == 'T' { 't' } else if c == 'U' { 'u' }
    else if c == 'V' { 'v' } else if c == 'W' { 'w' } else if c == 'X' { 'x' }
    else if c == 'Y' { 'y' } else if c == 'Z' { 'z' }
    else { c }
}

fn lower_ascii_char_exec(c: char) -> (r: char)
    ensures
        r == lower_ascii_char(c),
{
    match c {
        'A' => 'a', 'B' => 'b', 'C' => 'c', 'D' => 'd', 'E' => 'e', 'F' => 'f',
        'G' => 'g', 'H' => 'h', 'I' => 'i', 'J' => 'j', 'K' => 'k', 'L' => 'l',
        'M' => 'm', 'N' => 'n', 'O' => 'o', 'P' => 'p', 'Q' => 'q', 'R' => 'r',
        'S' => 's', 'T' => 't', 'U' => 'u', 'V' => 'v', 'W' => 'w', 'X' => 'x',
        'Y' => 'y', 'Z' => 'z',
        _ => c,
    }
}

/// A character sequence with every ASCII uppercase letter lowered.
pub open spec fn lower_ascii(s: Seq<char>) -> Seq<char> {
    Seq::new(s.len(), |i: int| lower_ascii_char(s[i]))
}

/// Lowers the ASCII uppercase letters of a string.
pub fn to_lowercase_ascii(s: &String) -> (r: String)
    ensures
        r@ == lower_ascii(s@),
{
    let n = s.as_str().unicode_len();
    let mut chars: Vec<char> = Vec::new();
    let mut i: usize = 0;
    while i < n
        invariant
            n == s@.len(),
            i <= n,
            chars@.len() == i,
            forall|j: int| 0 <= j < i ==> chars@[j] == lower_ascii_char(#[trigger] s@[j]),
        decreases n - i,
    {
        chars.push(lower_ascii_char_exec(s.as_str().get_char(i)));
        i = i + 1;
    }
    let r = chars_to_string(&chars);
    proof {
        assert(r@ =~= lower_ascii(s@));
    }
    r
}

/// The digest algorithm a manifest entry names, read without regard to
/// the case of ASCII letters; `None` when the name is not one of the
/// accepted algorithms.
pub open spec fn algo_of(s: Seq<char>) -> Option<ChecksumKind> {
    if lower_ascii(s) == "md5"@ {
        Some(ChecksumKind::Md5)
    } else if lower_ascii(s) == "sha256"@ {
        Some(ChecksumKind::Sha256)
    } else if lower_ascii(s) == "sha512"@ {
        Some(ChecksumKind::Sha512)
    } else {
        None
    }
}

/// What the validator finds wrong with one manifest entry, checked in
/// order: the file must exist in the program tree, the algorithm must
/// be a known one, and the file's digest must equal the manifest
/// checksum up to hex-letter case. `None` means the entry is valid.
pub open spec fn entry_error(program: Map<Seq<char>, Vec<u8>>, e: PkgFile) -> Option<LpmError> {
    if !program.contains_key(e.path@) {
        Some(LpmError::MalformedPackage)
    } else {
        match algo_of(e.checksum_algorithm@) {
            None => Some(LpmError::UnsupportedChecksumAlgorithm),
            Some(kind) => {
                if !hex_eq_ci(e.checksum@, hex_of(digest_of(kind, program[e.path@]@))) {
                    Some(LpmError::InvalidPackageFiles)
                } else {
                    None
                }
            },
        }
    }
}

/// Every manifest entry of the package is valid against its program
/// tree.
pub open spec fn all_entries_valid(pkg: Package) -> bool {
    forall|i: int|
        0 <= i < pkg.files.0@.len() ==> entry_error(pkg.program@, #[trigger] pkg.files.0@[i]) is None
}

/// Holds every manifest entry against the program tree: the named file
/// must be present and its digest under the declared algorithm must
/// match the manifest checksum. Returns the first failure, in manifest
/// order.
pub fn check_program_checksums(pkg: &Package) -> (r: Result<(), LpmError>)
    ensures
        r matches Ok(()) <==> all_entries_valid(*pkg),
        r matches Err(e) ==> exists|i: int|
            {
                &&& 0 <= i < pkg.files.0@.len()
                &&& entry_error(pkg.program@, #[trigger] pkg.files.0@[i]) == Some(e)
                &&& forall|j: int|
                    0 <= j < i ==> entry_error(pkg.program@, #[trigger] pkg.files.0@[j]) is None
            },
{
    let n = pkg.files.0.len();
    let mut i: usize = 0;
    while i < n
        invariant
            n == pkg.files.0@.len(),
            i <= n,
            forall|j: int| 0 <= j < i ==> entry_error(pkg.program@, #[trigger] pkg.files.0@[j]) is None,
        decreases n - i,
    {
        let entry = &pkg.files.0[i];
        match pkg.program.get(entry.path.as_str()) {
            None => {
                return Err(LpmError::MalformedPackage);
            },
            Some(content) => {
                let lowered = to_lowercase_ascii(&entry.checksum_algorithm);
                match ChecksumKind::from_str(lowered.as_str()) {
                    Err(_) => {
                        return Err(LpmError::UnsupportedChecksumAlgorithm);
                    },
                    Ok(kind) => {
                        let computed = compute_checksum(&kind, content);
                        if !checksum_matches(&entry.checksum, &computed) {
                            return Err(LpmError::InvalidPackageFiles);
                        }
                    },
                }
            },
        }
        i = i + 1;
    }
    Ok(())
}

/// The package's architecture tag is compatible with the host: either
/// the wildcard tag or exactly the host architecture.
pub open spec fn arch_ok(arch: Seq<char>, host_arch: Seq<char>) -> bool {
    arch == "any"@ || arch == host_arch
}

/// Validates a staged package: first the architecture tag against the
/// host architecture, then every manifest digest against the program
/// tree.
pub fn start_validate_task(pkg: &Package, host_arch: &str) -> (r: Result<(), LpmError>)
    ensures
        r matches Ok(()) <==> (arch_ok(pkg.meta.arch@, host_arch@) && all_entries_valid(*pkg)),
        !arch_ok(pkg.meta.arch@, host_arch@) ==> r matches Err(LpmError::UnsupportedArchitecture),
        arch_ok(pkg.meta.arch@, host_arch@) ==> (r matches Err(e) ==> exists|i: int|
            {
                &&& 0 <= i < pkg.files.0@.len()
                &&& entry_error(pkg.program@, #[trigger] pkg.files.0@[i]) == Some(e)
                &&& forall|j: int|
                    0 <= j < i ==> entry_error(pkg.program@, #[trigger] pkg.files.0@[j]) is None
            }),
{
    let any_tag = String::from_str("any");
    let host = host_arch.to_owned();
    if !(pkg.meta.arch == any_tag || pkg.meta.arch == host) {
        return Err(LpmError::UnsupportedArchitecture);
    }
    check_program_checksums(pkg)
}

impl crate::ValidationTasks for Package {
    fn start_validations(&self, host_arch: &str) -> Result<(), LpmError> {
        start_validate_task(self, host_arch)
    }
}

} // verus!

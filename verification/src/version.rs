//! Package versions and their ordering.

use vstd::prelude::*;
use core::cmp::Ordering;

verus! {

/// A package version: ordered by (major, minor, patch), then by the
/// presence of a pre-release tag (a stable version orders above a
/// tagged pre-release of the same triple). `readable` is informational
/// and takes no part in ordering.
#[derive(Clone, Debug)]
pub struct Version {
    pub major: u32,
    pub minor: u32,
    pub patch: u32,
    pub tag: Option<String>,
    pub readable: String,
}

/// The mathematical value of a `Version`.
#[verifier::ext_equal]
pub struct VersionView {
    pub major: u32,
    pub minor: u32,
    pub patch: u32,
    pub tag: Option<Seq<char>>,
    pub readable: Seq<char>,
}

impl View for Version {
    type V = VersionView;

    open spec fn view(&self) -> VersionView {
        VersionView {
            major: self.major,
            minor: self.minor,
            patch: self.patch,
            tag: match self.tag {
                Some(t) => Some(t@),
                None => None,
            },
            readable: self.readable@,
        }
    }
}

impl VersionView {
    /// The rank of the tag part: a version without a tag orders above
    /// one with a tag.
    pub open spec fn tag_rank(self) -> int {
        if self.tag is None { 1int } else { 0int }
    }

    /// Ordering of versions: lexicographic on (major, minor, patch),
    /// then tag absent above tag present.
    pub open spec fn cmp_spec(self, other: VersionView) -> Ordering {
        if self.major != other.major {
            if self.major < other.major { Ordering::Less } else { Ordering::Greater }
        } else if self.minor != other.minor {
            if self.minor < other.minor { Ordering::Less } else { Ordering::Greater }
        } else if self.patch != other.patch {
            if self.patch < other.patch { Ordering::Less } else { Ordering::Greater }
        } else if self.tag_rank() != other.tag_rank() {
            if self.tag_rank() < other.tag_rank() { Ordering::Less } else { Ordering::Greater }
        } else {
            Ordering::Equal
        }
    }

    /// Two versions order as equal exactly when their numeric triple
    /// agrees and both have, or both lack, a tag.
    pub open spec fn same_version(self, other: VersionView) -> bool {
        self.cmp_spec(other) == Ordering::Equal
    }
}

impl Version {
    /// Compares two versions under the ordering of `VersionView::cmp_spec`.
    pub fn compare(&self, other: &Version) -> (r: Ordering)
        ensures
            r == self@.cmp_spec(other@),
    {
        if self.major != other.major {
            if self.major < other.major { Ordering::Less } else { Ordering::Greater }
        } else if self.minor != other.minor {
            if self.minor < other.minor { Ordering::Less } else { Ordering::Greater }
        } else if self.patch != other.patch {
            if self.patch < other.patch { Ordering::Less } else { Ordering::Greater }
        } else {
            let self_stable = self.tag.is_none();
            let other_stable = other.tag.is_none();
            if self_stable == other_stable {
                Ordering::Equal
            } else if other_stable {
                Ordering::Less
            } else {
                Ordering::Greater
            }
        }
    }
}

} // verus!

//! The package data model: metadata, the file manifest, lifecycle
//! scripts and the staged program tree.

use vstd::prelude::*;
use vstd::hash_map::StringHashMap;
use crate::version::Version;
use crate::ScriptPhase;

verus! {

/// One entry of the file manifest: a path, the name of the digest
/// algorithm, and the expected digest in hex.
#[derive(Clone, Debug)]
pub struct PkgFile {
    pub path: String,
    pub checksum_algorithm: String,
    pub checksum: String,
}

/// The mathematical value of a manifest entry.
#[verifier::ext_equal]
pub struct PkgFileView {
    pub path: Seq<char>,
    pub checksum_algorithm: Seq<char>,
    pub checksum: Seq<char>,
}

impl View for PkgFile {
    type V = PkgFileView;

    open spec fn view(&self) -> PkgFileView {
        PkgFileView {
            path: self.path@,
            checksum_algorithm: self.checksum_algorithm@,
            checksum: self.checksum@,
        }
    }
}

/// The ordered file manifest of a package.
#[derive(Clone, Debug)]
pub struct Files(pub Vec<PkgFile>);

impl View for Files {
    type V = Seq<PkgFileView>;

    open spec fn view(&self) -> Seq<PkgFileView> {
        self.0@.map_values(|f: PkgFile| f@)
    }
}

impl Files {
    /// Manifest paths name each file once.
    pub open spec fn paths_unique(self) -> bool {
        forall|i: int, j: int|
            0 <= i < j < self@.len() ==> #[trigger] self@[i].path != #[trigger] self@[j].path
    }
}

/// The absolute path a manifest-relative path installs at: the path
/// under the system root.
pub open spec fn abs_of(rel: Seq<char>) -> Seq<char> {
    "/"@ + rel
}

/// Joins a manifest-relative path under the system root.
pub fn abs_path(rel: &String) -> (r: String)
    ensures
        r@ == abs_of(rel@),
{
    String::from_str("/").concat(rel.as_str())
}

/// Prefixing with the system root keeps distinct paths distinct.
pub proof fn lemma_abs_of_injective(a: Seq<char>, b: Seq<char>)
    requires
        abs_of(a) == abs_of(b),
    ensures
        a == b,
{
    let pa = "/"@ + a;
    let pb = "/"@ + b;
    assert(pa.len() == "/"@.len() + a.len());
    assert(pb.len() == "/"@.len() + b.len());
    assert forall|i: int| 0 <= i < a.len() implies a[i] == b[i] by {
        assert(pa["/"@.len() + i] == a[i]);
        assert(pb["/"@.len() + i] == b[i]);
    }
    assert(a =~= b);
}

/// Package metadata, as the `meta` manifest carries it.
#[derive(Clone, Debug)]
pub struct Meta {
    pub name: String,
    pub description: String,
    pub maintainer: String,
    pub homepage: String,
    pub arch: String,
    pub kind: String,
    pub installed_size: u64,
    pub license: String,
    pub tags: Vec<String>,
    pub version: Version,
}

/// The mathematical value of package metadata.
#[verifier::ext_equal]
pub struct MetaView {
    pub name: Seq<char>,
    pub description: Seq<char>,
    pub maintainer: Seq<char>,
    pub homepage: Seq<char>,
    pub arch: Seq<char>,
    pub kind: Seq<char>,
    pub installed_size: u64,
    pub license: Seq<char>,
    pub tags: Seq<Seq<char>>,
    pub version: crate::version::VersionView,
}

impl View for Meta {
    type V = MetaView;

    open spec fn view(&self) -> MetaView {
        MetaView {
            name: self.name@,
            description: self.description@,
            maintainer: self.maintainer@,
            homepage: self.homepage@,
            arch: self.arch@,
            kind: self.kind@,
            installed_size: self.installed_size,
            license: self.license@,
            tags: self.tags.deep_view(),
            version: self.version@,
        }
    }
}

/// Copies package metadata field by field.
pub fn clone_meta(m: &Meta) -> (r: Meta)
    ensures
        r@ == m@,
{
    let mut tags: Vec<String> = Vec::new();
    let mut i: usize = 0;
    while i < m.tags.len()
        invariant
            i <= m.tags@.len(),
            tags@.len() == i,
            forall|j: int| 0 <= j < i ==> #[trigger] tags@[j]@ == m.tags@[j]@,
        decreases m.tags@.len() - i,
    {
        tags.push(m.tags[i].clone());
        i = i + 1;
    }
    proof {
        assert(tags.deep_view() =~~= m.tags.deep_view());
    }
    let r = Meta {
        name: m.name.clone(),
        description: m.description.clone(),
        maintainer: m.maintainer.clone(),
        homepage: m.homepage.clone(),
        arch: m.arch.clone(),
        kind: m.kind.clone(),
        installed_size: m.installed_size,
        license: m.license.clone(),
        tags,
        version: Version {
            major: m.version.major,
            minor: m.version.minor,
            patch: m.version.patch,
            tag: match &m.version.tag {
                Some(t) => Some(t.clone()),
                None => None,
            },
            readable: m.version.readable.clone(),
        },
    };
    proof {
        assert(r@ =~~= m@);
    }
    r
}

/// A lifecycle script of a package: the phase it runs at and its body.
#[derive(Clone, Debug)]
pub struct Script {
    pub phase: ScriptPhase,
    pub body: String,
}

/// A package staged on disk: its artifact path, metadata, manifest,
/// lifecycle scripts, and the program tree to be copied under the
/// system root, keyed by manifest-relative path.
pub struct Package {
    pub path: String,
    pub meta: Meta,
    pub files: Files,
    pub scripts: Vec<Script>,
    pub program: StringHashMap<Vec<u8>>,
}

impl Package {
    /// Whether the package carries a script for the given phase.
    pub open spec fn spec_has_script(self, phase: ScriptPhase) -> bool {
        exists|i: int| 0 <= i < self.scripts@.len() && (#[trigger] self.scripts@[i]).phase == phase
    }

    /// Looks the phase up among the package's scripts.
    pub fn has_script(&self, phase: ScriptPhase) -> (r: bool)
        ensures
            r == self.spec_has_script(phase),
    {
        let mut i: usize = 0;
        while i < self.scripts.len()
            invariant
                i <= self.scripts@.len(),
                forall|j: int| 0 <= j < i ==> (#[trigger] self.scripts@[j]).phase != phase,
            decreases self.scripts@.len() - i,
        {
            if self.scripts[i].phase == phase {
                return true;
            }
            i = i + 1;
        }
        false
    }

    /// A script of the given phase succeeds when it is absent (a no-op)
    /// or when running it exited with code zero.
    pub open spec fn script_ok(self, phase: ScriptPhase, exit_code: i32) -> bool {
        !self.spec_has_script(phase) || exit_code == 0
    }
}

/// A file tree: contents keyed by path.
pub type Tree = StringHashMap<Vec<u8>>;

/// An empty file tree.
pub fn empty_tree() -> (r: Tree)
    ensures
        r@ == Map::<Seq<char>, Vec<u8>>::empty(),
{
    StringHashMap::new()
}

/// Puts one file into a tree, replacing what the path held.
pub fn tree_insert(tree: &mut Tree, path: String, content: Vec<u8>)
    ensures
        final(tree)@ == old(tree)@.insert(path@, content),
{
    tree.insert(path, content);
}

/// Reads one file of a tree.
pub fn tree_get<'a>(tree: &'a Tree, path: &str) -> (r: Option<&'a Vec<u8>>)
    ensures
        match r {
            Some(v) => tree@.contains_key(path@) && *v == tree@[path@],
            None => !tree@.contains_key(path@),
        },
{
    tree.get(path)
}

} // verus!

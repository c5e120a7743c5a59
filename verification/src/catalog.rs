//! The catalog: the relational store of installed state. Packages own
//! their file and tag rows, and deleting a package cascades to them.

use vstd::prelude::*;
use crate::pkg::{abs_of, abs_path, clone_meta, Files, Meta, MetaView, Package};
use crate::LpmError;

verus! {

/// A row of the `packages` table.
pub struct PackageRow {
    pub id: u64,
    pub meta: Meta,
}

/// The mathematical value of a `packages` row.
#[verifier::ext_equal]
pub struct PackageRowView {
    pub id: u64,
    pub meta: MetaView,
}

impl View for PackageRow {
    type V = PackageRowView;

    open spec fn view(&self) -> PackageRowView {
        PackageRowView { id: self.id, meta: self.meta@ }
    }
}

/// A row of the `files` table: one installed file owned by a package.
pub struct FileRow {
    pub name: String,
    pub absolute_path: String,
    pub checksum: String,
    pub checksum_algorithm: String,
    pub package_id: u64,
}

/// The mathematical value of a `files` row.
#[verifier::ext_equal]
pub struct FileRowView {
    pub name: Seq<char>,
    pub absolute_path: Seq<char>,
    pub checksum: Seq<char>,
    pub checksum_algorithm: Seq<char>,
    pub package_id: u64,
}

impl View for FileRow {
    type V = FileRowView;

    open spec fn view(&self) -> FileRowView {
        FileRowView {
            name: self.name@,
            absolute_path: self.absolute_path@,
            checksum: self.checksum@,
            checksum_algorithm: self.checksum_algorithm@,
            package_id: self.package_id,
        }
    }
}

/// Copies a `files` row field by field.
pub fn clone_file_row(f: &FileRow) -> (r: FileRow)
    ensures
        r@ == f@,
{
    let r = FileRow {
        name: f.name.clone(),
        absolute_path: f.absolute_path.clone(),
        checksum: f.checksum.clone(),
        checksum_algorithm: f.checksum_algorithm.clone(),
        package_id: f.package_id,
    };
    proof {
        assert(r@ =~= f@);
    }
    r
}

/// A row of the `package_tags` table.
pub struct TagRow {
    pub tag: String,
    pub package_id: u64,
}

/// The mathematical value of a `package_tags` row.
#[verifier::ext_equal]
pub struct TagRowView {
    pub tag: Seq<char>,
    pub package_id: u64,
}

impl View for TagRow {
    type V = TagRowView;

    open spec fn view(&self) -> TagRowView {
        TagRowView { tag: self.tag@, package_id: self.package_id }
    }
}

/// The catalog: the `packages`, `files` and `package_tags` tables, the
/// seeded checksum kinds, and the migration state (the stored schema
/// version and the statements applied so far, in order).
pub struct Catalog {
    pub packages: Vec<PackageRow>,
    pub files: Vec<FileRow>,
    pub package_tags: Vec<TagRow>,
    pub checksum_kinds: Vec<String>,
    pub user_version: i64,
    pub schema_statements: Vec<String>,
    pub next_id: u64,
}

/// The mathematical value of the catalog.
#[verifier::ext_equal]
pub struct CatalogView {
    pub packages: Seq<PackageRowView>,
    pub files: Seq<FileRowView>,
    pub package_tags: Seq<TagRowView>,
    pub checksum_kinds: Seq<Seq<char>>,
    pub user_version: i64,
    pub schema_statements: Seq<Seq<char>>,
    pub next_id: u64,
}

impl View for Catalog {
    type V = CatalogView;

    open spec fn view(&self) -> CatalogView {
        CatalogView {
            packages: self.packages@.map_values(|r: PackageRow| r@),
            files: self.files@.map_values(|f: FileRow| f@),
            package_tags: self.package_tags@.map_values(|t: TagRow| t@),
            checksum_kinds: self.checksum_kinds.deep_view(),
            user_version: self.user_version,
            schema_statements: self.schema_statements.deep_view(),
            next_id: self.next_id,
        }
    }
}

/// The file rows that recording a package with the given id adds to the
/// `files` table: one per manifest entry, in manifest order, keyed by
/// the absolute install path.
pub open spec fn new_file_rows(files: Seq<crate::pkg::PkgFileView>, id: u64) -> Seq<FileRowView> {
    Seq::new(
        files.len(),
        |i: int|
            FileRowView {
                name: files[i].path,
                absolute_path: abs_of(files[i].path),
                checksum: files[i].checksum,
                checksum_algorithm: files[i].checksum_algorithm,
                package_id: id,
            },
    )
}

/// The tag rows that recording a package with the given id adds.
pub open spec fn new_tag_rows(tags: Seq<Seq<char>>, id: u64) -> Seq<TagRowView> {
    Seq::new(tags.len(), |i: int| TagRowView { tag: tags[i], package_id: id })
}

impl CatalogView {
    /// A package row with this name exists.
    pub open spec fn has_name(self, name: Seq<char>) -> bool {
        exists|i: int| 0 <= i < self.packages.len() && (#[trigger] self.packages[i]).meta.name == name
    }

    /// A file row with this absolute path exists.
    pub open spec fn has_file_path(self, path: Seq<char>) -> bool {
        exists|i: int|
            0 <= i < self.files.len() && (#[trigger] self.files[i]).absolute_path == path
    }

    /// Well-formedness: package ids and names are unique, every id is
    /// below the id counter, and file rows are keyed by unique absolute
    /// paths.
    pub open spec fn wf(self) -> bool {
        &&& forall|i: int, j: int|
            0 <= i < j < self.packages.len() ==> (#[trigger] self.packages[i]).id != (
            #[trigger] self.packages[j]).id
        &&& forall|i: int, j: int|
            0 <= i < j < self.packages.len() ==> (#[trigger] self.packages[i]).meta.name != (
            #[trigger] self.packages[j]).meta.name
        &&& forall|i: int| 0 <= i < self.packages.len() ==> (#[trigger] self.packages[i]).id < self.next_id
        &&& forall|i: int, j: int|
            0 <= i < j < self.files.len() ==> (#[trigger] self.files[i]).absolute_path != (
            #[trigger] self.files[j]).absolute_path
    }

    /// No manifest path of the package would collide with a file row of
    /// another package already in the table.
    pub open spec fn no_path_collision(self, files: Seq<crate::pkg::PkgFileView>) -> bool {
        forall|i: int|
            0 <= i < files.len() ==> !self.has_file_path(abs_of(#[trigger] files[i].path))
    }

    /// A file row with this absolute path exists and is owned by a
    /// package other than the one being rewritten.
    pub open spec fn has_file_path_excluding(self, path: Seq<char>, exclude: u64) -> bool {
        exists|i: int|
            0 <= i < self.files.len() && (#[trigger] self.files[i]).absolute_path == path
                && self.files[i].package_id != exclude
    }

    /// No manifest path of the package would collide with a file row
    /// owned by a different package.
    pub open spec fn no_path_collision_excluding(
        self,
        files: Seq<crate::pkg::PkgFileView>,
        exclude: u64,
    ) -> bool {
        forall|i: int|
            0 <= i < files.len() ==> !self.has_file_path_excluding(
                abs_of(#[trigger] files[i].path),
                exclude,
            )
    }

    /// Every package row carrying this name is the row being rewritten.
    pub open spec fn name_free_excluding(self, name: Seq<char>, exclude: u64) -> bool {
        forall|i: int|
            0 <= i < self.packages.len() && (#[trigger] self.packages[i]).meta.name == name
                ==> self.packages[i].id == exclude
    }
}

impl Catalog {
    /// An empty catalog, before any migration has run.
    pub fn new() -> (r: Catalog)
        ensures
            r@.packages.len() == 0,
            r@.files.len() == 0,
            r@.package_tags.len() == 0,
            r@.checksum_kinds.len() == 0,
            r@.user_version == 0,
            r@.schema_statements.len() == 0,
            r@.next_id == 1,
            r@.wf(),
    {
        Catalog {
            packages: Vec::new(),
            files: Vec::new(),
            package_tags: Vec::new(),
            checksum_kinds: Vec::new(),
            user_version: 0,
            schema_statements: Vec::new(),
            next_id: 1,
        }
    }

    /// Looks an installed package up by name; `Some` exactly when a row
    /// with that name exists, returning its index.
    pub fn load_installed(&self, name: &str) -> (r: Option<usize>)
        ensures
            match r {
                Some(i) => i < self@.packages.len() && self@.packages[i as int].meta.name == name@,
                None => !self@.has_name(name@),
            },
    {
        let wanted = name.to_owned();
        let mut i: usize = 0;
        while i < self.packages.len()
            invariant
                wanted@ == name@,
                i <= self@.packages.len(),
                self@.packages.len() == self.packages@.len(),
                forall|j: int| 0 <= j < i ==> (#[trigger] self@.packages[j]).meta.name != name@,
            decreases self.packages@.len() - i,
        {
            if self.packages[i].meta.name == wanted {
                proof {
                    assert(self@.packages[i as int] == self.packages@[i as int]@);
                }
                return Some(i);
            }
            i = i + 1;
        }
        None
    }

    /// Whether a file row with this absolute path exists.
    fn has_file_at(&self, path: &String) -> (r: bool)
        ensures
            r == self@.has_file_path(path@),
    {
        let mut i: usize = 0;
        while i < self.files.len()
            invariant
                i <= self@.files.len(),
                self@.files.len() == self.files@.len(),
                forall|j: int| 0 <= j < i ==> (#[trigger] self@.files[j]).absolute_path != path@,
            decreases self.files@.len() - i,
        {
            if self.files[i].absolute_path == *path {
                proof {
                    assert(self@.files[i as int] == self.files@[i as int]@);
                    assert((#[trigger] self@.files[i as int]).absolute_path == path@);
                }
                return true;
            }
            i = i + 1;
        }
        false
    }

    /// The file rows owned by the package with the given id, in table
    /// order.
    pub fn files_of(&self, id: u64) -> (r: Vec<FileRow>)
        ensures
            r@.map_values(|f: FileRow| f@) == self@.files.filter(|f: FileRowView| f.package_id == id),
    {
        let mut out: Vec<FileRow> = Vec::new();
        let mut i: usize = 0;
        while i < self.files.len()
            invariant
                i <= self.files@.len(),
                out@.map_values(|f: FileRow| f@) == self@.files.take(i as int).filter(
                    |f: FileRowView| f.package_id == id,
                ),
            decreases self.files@.len() - i,
        {
            proof {
                reveal(Seq::filter);
                assert(self@.files.take(i + 1).drop_last() =~= self@.files.take(i as int));
                assert(self@.files.take(i + 1).last() == self@.files[i as int]);
                assert(self@.files[i as int] == self.files@[i as int]@);
            }
            if self.files[i].package_id == id {
                out.push(clone_file_row(&self.files[i]));
                proof {
                    reveal(Seq::filter);
                    assert(out@.map_values(|f: FileRow| f@) =~~= self@.files.take(i + 1).filter(
                        |f: FileRowView| f.package_id == id,
                    ));
                }
            } else {
                proof {
                    reveal(Seq::filter);
                    assert(out@.map_values(|f: FileRow| f@) =~~= self@.files.take(i + 1).filter(
                        |f: FileRowView| f.package_id == id,
                    ));
                }
            }
            i = i + 1;
        }
        proof {
            assert(self@.files.take(self.files@.len() as int) =~= self@.files);
        }
        out
    }

    /// Records a package and its file and tag rows, atomically: either
    /// every row is added and the fresh id returned, or the store
    /// reports an integrity violation (duplicate name or file path) and
    /// nothing changes.
    #[verifier::loop_isolation(false)]
    pub fn insert_package(&mut self, pkg: &Package) -> (r: Result<u64, LpmError>)
        requires
            old(self)@.wf(),
            old(self)@.next_id < u64::MAX,
            pkg.files.paths_unique(),
        ensures
            final(self)@.wf(),
            r matches Ok(id) <==> (!old(self)@.has_name(pkg.meta.name@) && old(
                self,
            )@.no_path_collision(pkg.files@)),
            r matches Err(e) ==> (e matches LpmError::CatalogIntegrity && *final(self) == *old(
                self,
            )),
            r matches Ok(id) ==> {
                &&& id == old(self)@.next_id
                &&& final(self)@.packages == old(self)@.packages.push(
                    (PackageRowView { id, meta: pkg.meta@ }),
                )
                &&& final(self)@.files == old(self)@.files + new_file_rows(pkg.files@, id)
                &&& final(self)@.package_tags == old(self)@.package_tags + new_tag_rows(
                    pkg.meta@.tags,
                    id,
                )
                &&& final(self)@.checksum_kinds == old(self)@.checksum_kinds
                &&& final(self)@.user_version == old(self)@.user_version
                &&& final(self)@.schema_statements == old(self)@.schema_statements
                &&& final(self)@.next_id == old(self)@.next_id + 1
            },
    {
        if self.load_installed(pkg.meta.name.as_str()).is_some() {
            return Err(LpmError::CatalogIntegrity);
        }
        let mut i: usize = 0;
        while i < pkg.files.0.len()
            invariant
                i <= pkg.files@.len(),
                pkg.files@.len() == pkg.files.0@.len(),
                *self == *old(self),
                forall|j: int|
                    0 <= j < i ==> !self@.has_file_path(abs_of(#[trigger] pkg.files@[j].path)),
            decreases pkg.files.0@.len() - i,
        {
            let abs = abs_path(&pkg.files.0[i].path);
            proof {
                assert(pkg.files@[i as int] == pkg.files.0@[i as int]@);
            }
            if self.has_file_at(&abs) {
                proof {
                    assert(self@.has_file_path(abs_of(pkg.files@[i as int].path)));
                    assert(!self@.no_path_collision(pkg.files@));
                }
                return Err(LpmError::CatalogIntegrity);
            }
            i = i + 1;
        }
        let id = self.next_id;
        let ghost pre = self@;
        self.packages.push(PackageRow { id, meta: clone_meta(&pkg.meta) });
        proof {
            assert(self@.packages =~~= pre.packages.push(
                (PackageRowView { id, meta: pkg.meta@ }),
            ));
        }
        let mut k: usize = 0;
        while k < pkg.files.0.len()
            invariant
                k <= pkg.files@.len(),
                pkg.files@.len() == pkg.files.0@.len(),
                self@.files == pre.files + new_file_rows(pkg.files@, id).take(k as int),
                self@.packages == pre.packages.push((PackageRowView { id, meta: pkg.meta@ })),
                self@.package_tags == pre.package_tags,
                self@.checksum_kinds == pre.checksum_kinds,
                self@.user_version == pre.user_version,
                self@.schema_statements == pre.schema_statements,
                self@.next_id == pre.next_id,
            decreases pkg.files.0@.len() - k,
        {
            let e = &pkg.files.0[k];
            let row = FileRow {
                name: e.path.clone(),
                absolute_path: abs_path(&e.path),
                checksum: e.checksum.clone(),
                checksum_algorithm: e.checksum_algorithm.clone(),
                package_id: id,
            };
            let ghost prev_files = self@.files;
            self.files.push(row);
            proof {
                let nr = new_file_rows(pkg.files@, id);
                assert(pkg.files@[k as int] == pkg.files.0@[k as int]@);
                assert(row@ =~~= nr[k as int]);
                assert(self@.files.len() == prev_files.len() + 1);
                assert forall|m: int| 0 <= m < self@.files.len() implies #[trigger] self@.files[m]
                    == (pre.files + nr.take(k + 1))[m] by {
                    if m < prev_files.len() {
                        assert(self@.files[m] == prev_files[m]);
                        assert(prev_files[m] == (pre.files + nr.take(k as int))[m]);
                    } else {
                        assert(self@.files[m] == row@);
                    }
                }
                assert(self@.files =~= pre.files + nr.take(k + 1));
            }
            k = k + 1;
        }
        proof {
            assert(new_file_rows(pkg.files@, id).take(pkg.files@.len() as int) =~= new_file_rows(
                pkg.files@,
                id,
            ));
        }
        let mut t: usize = 0;
        while t < pkg.meta.tags.len()
            invariant
                t <= pkg.meta.tags@.len(),
                self@.package_tags == pre.package_tags + new_tag_rows(pkg.meta@.tags, id).take(
                    t as int,
                ),
                self@.files == pre.files + new_file_rows(pkg.files@, id),
                self@.packages == pre.packages.push((PackageRowView { id, meta: pkg.meta@ })),
                self@.checksum_kinds == pre.checksum_kinds,
                self@.user_version == pre.user_version,
                self@.schema_statements == pre.schema_statements,
                self@.next_id == pre.next_id,
            decreases pkg.meta.tags@.len() - t,
        {
            let ghost prev_tags = self@.package_tags;
            self.package_tags.push(TagRow { tag: pkg.meta.tags[t].clone(), package_id: id });
            proof {
                let nt = new_tag_rows(pkg.meta@.tags, id);
                assert(self@.package_tags.len() == prev_tags.len() + 1);
                assert forall|m: int| 0 <= m < self@.package_tags.len() implies (
                #[trigger] self@.package_tags[m]) == (pre.package_tags + nt.take(t + 1))[m] by {
                    if m < prev_tags.len() {
                        assert(self@.package_tags[m] == prev_tags[m]);
                        assert(prev_tags[m] == (pre.package_tags + nt.take(t as int))[m]);
                    } else {
                        assert(self@.package_tags[m] =~~= nt[t as int]);
                    }
                }
                assert(self@.package_tags =~= pre.package_tags + nt.take(t + 1));
            }
            t = t + 1;
        }
        proof {
            assert(new_tag_rows(pkg.meta@.tags, id).take(pkg.meta@.tags.len() as int)
                =~= new_tag_rows(pkg.meta@.tags, id));
        }
        self.next_id = id + 1;
        proof {
            lemma_insert_preserves_wf(pre, self@, pkg.files@, pkg.meta@, id);
        }
        Ok(id)
    }

    /// Deletes the package row with the given id; its file and tag rows
    /// go with it (the cascade of the store's foreign keys).
    pub fn delete_package(&mut self, id: u64)
        ensures
            final(self)@.packages == old(self)@.packages.filter(|r: PackageRowView| r.id != id),
            final(self)@.files == old(self)@.files.filter(|f: FileRowView| f.package_id != id),
            final(self)@.package_tags == old(self)@.package_tags.filter(
                (|t: TagRowView| t.package_id != id),
            ),
            final(self)@.checksum_kinds == old(self)@.checksum_kinds,
            final(self)@.user_version == old(self)@.user_version,
            final(self)@.schema_statements == old(self)@.schema_statements,
            final(self)@.next_id == old(self)@.next_id,
            old(self)@.wf() ==> final(self)@.wf(),
    {
        let ghost pre = self@;
        let mut kept_pkgs: Vec<PackageRow> = Vec::new();
        let n = self.packages.len();
        let mut i: usize = 0;
        while i < n
            invariant
                n == self.packages@.len(),
                i <= n,
                kept_pkgs@.map_values(|r: PackageRow| r@) == self@.packages.take(i as int).filter(
                    |r: PackageRowView| r.id != id,
                ),
                self@ == pre,
            decreases n - i,
        {
            proof {
                reveal(Seq::filter);
                assert(self@.packages.take(i + 1).drop_last() =~= self@.packages.take(i as int));
                assert(self@.packages.take(i + 1).last() == self@.packages[i as int]);
                assert(self@.packages[i as int] == self.packages@[i as int]@);
            }
            if self.packages[i].id != id {
                let row = PackageRow { id: self.packages[i].id, meta: clone_meta(&self.packages[i].meta) };
                kept_pkgs.push(row);
            }
            proof {
                reveal(Seq::filter);
                assert(kept_pkgs@.map_values(|r: PackageRow| r@) =~~= self@.packages.take(i + 1)
                    .filter(|r: PackageRowView| r.id != id));
            }
            i = i + 1;
        }
        proof {
            assert(self@.packages.take(n as int) =~= self@.packages);
        }
        self.packages = kept_pkgs;

        let mut kept_files: Vec<FileRow> = Vec::new();
        let m = self.files.len();
        let mut j: usize = 0;
        while j < m
            invariant
                m == self.files@.len(),
                j <= m,
                kept_files@.map_values(|f: FileRow| f@) == self@.files.take(j as int).filter(
                    |f: FileRowView| f.package_id != id,
                ),
                self@.files == pre.files,
            decreases m - j,
        {
            proof {
                reveal(Seq::filter);
                assert(self@.files.take(j + 1).drop_last() =~= self@.files.take(j as int));
                assert(self@.files.take(j + 1).last() == self@.files[j as int]);
                assert(self@.files[j as int] == self.files@[j as int]@);
            }
            if self.files[j].package_id != id {
                kept_files.push(clone_file_row(&self.files[j]));
            }
            proof {
                reveal(Seq::filter);
                assert(kept_files@.map_values(|f: FileRow| f@) =~~= self@.files.take(j + 1).filter(
                    |f: FileRowView| f.package_id != id,
                ));
            }
            j = j + 1;
        }
        proof {
            assert(self@.files.take(m as int) =~= self@.files);
        }
        self.files = kept_files;

        let mut kept_tags: Vec<TagRow> = Vec::new();
        let p = self.package_tags.len();
        let mut k: usize = 0;
        while k < p
            invariant
                p == self.package_tags@.len(),
                k <= p,
                kept_tags@.map_values(|t: TagRow| t@) == self@.package_tags.take(k as int).filter(
                    |t: TagRowView| t.package_id != id,
                ),
                self@.package_tags == pre.package_tags,
            decreases p - k,
        {
            proof {
                reveal(Seq::filter);
                assert(self@.package_tags.take(k + 1).drop_last() =~= self@.package_tags.take(
                    k as int,
                ));
                assert(self@.package_tags.take(k + 1).last() == self@.package_tags[k as int]);
                assert(self@.package_tags[k as int] == self.package_tags@[k as int]@);
            }
            if self.package_tags[k].package_id != id {
                kept_tags.push(TagRow { tag: self.package_tags[k].tag.clone(), package_id: self.package_tags[k].package_id });
            }
            proof {
                reveal(Seq::filter);
                assert(kept_tags@.map_values(|t: TagRow| t@) =~~= self@.package_tags.take(k + 1)
                    .filter(|t: TagRowView| t.package_id != id));
            }
            k = k + 1;
        }
        proof {
            assert(self@.package_tags.take(p as int) =~= self@.package_tags);
        }
        self.package_tags = kept_tags;
        proof {
            if pre.wf() {
                lemma_delete_preserves_wf(pre, self@, id);
            }
        }
    }
}

impl Catalog {
    /// Whether some manifest path of the package collides with a file
    /// row already in the table.
    pub fn has_collision(&self, files: &Files) -> (r: bool)
        ensures
            r == !self@.no_path_collision(files@),
    {
        let mut i: usize = 0;
        while i < files.0.len()
            invariant
                i <= files@.len(),
                files@.len() == files.0@.len(),
                forall|j: int|
                    0 <= j < i ==> !self@.has_file_path(abs_of(#[trigger] files@[j].path)),
            decreases files.0@.len() - i,
        {
            let abs = abs_path(&files.0[i].path);
            proof {
                assert(files@[i as int] == files.0@[i as int]@);
            }
            if self.has_file_at(&abs) {
                proof {
                    assert(self@.has_file_path(abs_of(files@[i as int].path)));
                }
                return true;
            }
            i = i + 1;
        }
        false
    }

    /// Whether some manifest path of the package collides with a file
    /// row owned by a different package.
    pub fn has_collision_excluding(&self, files: &Files, exclude: u64) -> (r: bool)
        ensures
            r == !self@.no_path_collision_excluding(files@, exclude),
    {
        let mut i: usize = 0;
        while i < files.0.len()
            invariant
                i <= files@.len(),
                files@.len() == files.0@.len(),
                forall|j: int|
                    0 <= j < i ==> !self@.has_file_path_excluding(
                        abs_of(#[trigger] files@[j].path),
                        exclude,
                    ),
            decreases files.0@.len() - i,
        {
            let abs = abs_path(&files.0[i].path);
            proof {
                assert(files@[i as int] == files.0@[i as int]@);
            }
            if self.has_file_at_excluding(&abs, exclude) {
                proof {
                    assert(self@.has_file_path_excluding(abs_of(files@[i as int].path), exclude));
                }
                return true;
            }
            i = i + 1;
        }
        false
    }

    /// Whether any package row other than the one with the given id
    /// carries this name.
    pub fn name_taken_by_other(&self, name: &String, exclude: u64) -> (r: bool)
        ensures
            r == !self@.name_free_excluding(name@, exclude),
    {
        let mut i: usize = 0;
        while i < self.packages.len()
            invariant
                i <= self.packages@.len(),
                forall|j: int|
                    0 <= j < i && (#[trigger] self@.packages[j]).meta.name == name@
                        ==> self@.packages[j].id == exclude,
            decreases self.packages@.len() - i,
        {
            if self.packages[i].meta.name == *name && self.packages[i].id != exclude {
                proof {
                    assert(self@.packages[i as int] == self.packages@[i as int]@);
                    assert(!self@.name_free_excluding(name@, exclude));
                }
                return true;
            }
            proof {
                assert(self@.packages[i as int] == self.packages@[i as int]@);
            }
            i = i + 1;
        }
        false
    }

    /// Whether a file row owned by another package sits at this path.
    fn has_file_at_excluding(&self, path: &String, exclude: u64) -> (r: bool)
        ensures
            r == self@.has_file_path_excluding(path@, exclude),
    {
        let mut i: usize = 0;
        while i < self.files.len()
            invariant
                i <= self.files@.len(),
                forall|j: int|
                    0 <= j < i ==> !((#[trigger] self@.files[j]).absolute_path == path@
                        && self@.files[j].package_id != exclude),
            decreases self.files@.len() - i,
        {
            if self.files[i].absolute_path == *path && self.files[i].package_id != exclude {
                proof {
                    assert(self@.files[i as int] == self.files@[i as int]@);
                }
                return true;
            }
            proof {
                assert(self@.files[i as int] == self.files@[i as int]@);
            }
            i = i + 1;
        }
        false
    }

    /// Rewrites the row of an installed package in place: its scalar
    /// columns take the new metadata, and its file and tag rows are
    /// replaced by those of the new package. The store reports an
    /// integrity violation (a name or path owned by another package)
    /// before anything changes.
    #[verifier::loop_isolation(false)]
    pub fn update_existing(&mut self, id: u64, pkg: &Package) -> (r: Result<(), LpmError>)
        requires
            old(self)@.wf(),
            pkg.files.paths_unique(),
            exists|i: int|
                0 <= i < old(self)@.packages.len() && (#[trigger] old(self)@.packages[i]).id == id,
        ensures
            final(self)@.wf(),
            r matches Ok(()) <==> (old(self)@.name_free_excluding(pkg.meta.name@, id) && old(
                self,
            )@.no_path_collision_excluding(pkg.files@, id)),
            r matches Err(e) ==> (e matches LpmError::CatalogIntegrity && *final(self) == *old(
                self,
            )),
            r matches Ok(()) ==> {
                &&& final(self)@.packages == old(self)@.packages.filter(
                    (|p: PackageRowView| p.id != id),
                ).push((PackageRowView { id, meta: pkg.meta@ }))
                &&& final(self)@.files == old(self)@.files.filter(
                    (|f: FileRowView| f.package_id != id),
                ) + new_file_rows(pkg.files@, id)
                &&& final(self)@.package_tags == old(self)@.package_tags.filter(
                    (|t: TagRowView| t.package_id != id),
                ) + new_tag_rows(pkg.meta@.tags, id)
                &&& final(self)@.checksum_kinds == old(self)@.checksum_kinds
                &&& final(self)@.user_version == old(self)@.user_version
                &&& final(self)@.schema_statements == old(self)@.schema_statements
                &&& final(self)@.next_id == old(self)@.next_id
            },
    {
        if self.name_taken_by_other(&pkg.meta.name, id) {
            return Err(LpmError::CatalogIntegrity);
        }
        let mut c: usize = 0;
        while c < pkg.files.0.len()
            invariant
                c <= pkg.files@.len(),
                *self == *old(self),
                forall|j: int|
                    0 <= j < c ==> !self@.has_file_path_excluding(
                        abs_of(#[trigger] pkg.files@[j].path),
                        id,
                    ),
            decreases pkg.files.0@.len() - c,
        {
            let abs = abs_path(&pkg.files.0[c].path);
            proof {
                assert(pkg.files@[c as int] == pkg.files.0@[c as int]@);
            }
            if self.has_file_at_excluding(&abs, id) {
                proof {
                    assert(self@.has_file_path_excluding(abs_of(pkg.files@[c as int].path), id));
                    assert(!self@.no_path_collision_excluding(pkg.files@, id));
                }
                return Err(LpmError::CatalogIntegrity);
            }
            c = c + 1;
        }
        self.delete_package(id);
        let ghost mid = self@;
        proof {
            lemma_excluding_carries_to_filtered(old(self)@, mid, pkg.files@, pkg.meta@.name, id);
        }
        self.packages.push(PackageRow { id, meta: clone_meta(&pkg.meta) });
        proof {
            assert(self@.packages =~~= mid.packages.push((PackageRowView { id, meta: pkg.meta@ })));
        }
        let mut k: usize = 0;
        while k < pkg.files.0.len()
            invariant
                k <= pkg.files@.len(),
                self@.files == mid.files + new_file_rows(pkg.files@, id).take(k as int),
                self@.packages == mid.packages.push((PackageRowView { id, meta: pkg.meta@ })),
                self@.package_tags == mid.package_tags,
                self@.checksum_kinds == mid.checksum_kinds,
                self@.user_version == mid.user_version,
                self@.schema_statements == mid.schema_statements,
                self@.next_id == mid.next_id,
            decreases pkg.files.0@.len() - k,
        {
            let e = &pkg.files.0[k];
            let row = FileRow {
                name: e.path.clone(),
                absolute_path: abs_path(&e.path),
                checksum: e.checksum.clone(),
                checksum_algorithm: e.checksum_algorithm.clone(),
                package_id: id,
            };
            let ghost prev_files = self@.files;
            self.files.push(row);
            proof {
                let nr = new_file_rows(pkg.files@, id);
                assert(pkg.files@[k as int] == pkg.files.0@[k as int]@);
                assert(row@ =~~= nr[k as int]);
                assert forall|m: int| 0 <= m < self@.files.len() implies #[trigger] self@.files[m]
                    == (mid.files + nr.take(k + 1))[m] by {
                    if m < prev_files.len() {
                        assert(self@.files[m] == prev_files[m]);
                        assert(prev_files[m] == (mid.files + nr.take(k as int))[m]);
                    } else {
                        assert(self@.files[m] == row@);
                    }
                }
                assert(self@.files =~= mid.files + nr.take(k + 1));
            }
            k = k + 1;
        }
        proof {
            assert(new_file_rows(pkg.files@, id).take(pkg.files@.len() as int) =~= new_file_rows(
                pkg.files@,
                id,
            ));
        }
        let mut t: usize = 0;
        while t < pkg.meta.tags.len()
            invariant
                t <= pkg.meta.tags@.len(),
                self@.package_tags == mid.package_tags + new_tag_rows(pkg.meta@.tags, id).take(
                    t as int,
                ),
                self@.files == mid.files + new_file_rows(pkg.files@, id),
                self@.packages == mid.packages.push((PackageRowView { id, meta: pkg.meta@ })),
                self@.checksum_kinds == mid.checksum_kinds,
                self@.user_version == mid.user_version,
                self@.schema_statements == mid.schema_statements,
                self@.next_id == mid.next_id,
            decreases pkg.meta.tags@.len() - t,
        {
            let ghost prev_tags = self@.package_tags;
            self.package_tags.push(TagRow { tag: pkg.meta.tags[t].clone(), package_id: id });
            proof {
                let nt = new_tag_rows(pkg.meta@.tags, id);
                assert forall|m: int| 0 <= m < self@.package_tags.len() implies (
                #[trigger] self@.package_tags[m]) == (mid.package_tags + nt.take(t + 1))[m] by {
                    if m < prev_tags.len() {
                        assert(self@.package_tags[m] == prev_tags[m]);
                        assert(prev_tags[m] == (mid.package_tags + nt.take(t as int))[m]);
                    } else {
                        assert(self@.package_tags[m] =~~= nt[t as int]);
                    }
                }
                assert(self@.package_tags =~= mid.package_tags + nt.take(t + 1));
            }
            t = t + 1;
        }
        proof {
            assert(new_tag_rows(pkg.meta@.tags, id).take(pkg.meta@.tags.len() as int)
                =~= new_tag_rows(pkg.meta@.tags, id));
            lemma_insert_preserves_wf_at(mid, self@, pkg.files@, pkg.meta@, id, old(self)@.next_id);
        }
        Ok(())
    }
}

/// The collision checks made on the whole table, excluding the rewritten
/// package, carry over to the table with that package's rows removed.
proof fn lemma_excluding_carries_to_filtered(
    pre: CatalogView,
    mid: CatalogView,
    files: Seq<crate::pkg::PkgFileView>,
    name: Seq<char>,
    id: u64,
)
    requires
        pre.name_free_excluding(name, id),
        pre.no_path_collision_excluding(files, id),
        mid.packages == pre.packages.filter(|r: PackageRowView| r.id != id),
        mid.files == pre.files.filter(|f: FileRowView| f.package_id != id),
    ensures
        !mid.has_name(name),
        mid.no_path_collision(files),
{
    let ppred = |r: PackageRowView| r.id != id;
    let fpred = |f: FileRowView| f.package_id != id;
    assert forall|k: int| 0 <= k < mid.packages.len() implies (
    #[trigger] mid.packages[k]).meta.name != name by {
        lemma_filter_element_of(pre.packages, ppred, k);
        pre.packages.lemma_filter_pred(ppred, k);
        let m = choose|m: int|
            0 <= m < pre.packages.len() && #[trigger] pre.packages[m] == mid.packages[k];
        if pre.packages[m].meta.name == name {
            assert(pre.packages[m].id == id);
        }
    }
    assert forall|i: int| 0 <= i < files.len() implies !mid.has_file_path(
        abs_of(#[trigger] files[i].path),
    ) by {
        if mid.has_file_path(abs_of(files[i].path)) {
            let k = choose|k: int|
                0 <= k < mid.files.len() && (#[trigger] mid.files[k]).absolute_path == abs_of(
                    files[i].path,
                );
            lemma_filter_element_of(pre.files, fpred, k);
            pre.files.lemma_filter_pred(fpred, k);
            let m = choose|m: int|
                0 <= m < pre.files.len() && #[trigger] pre.files[m] == mid.files[k];
            assert(pre.has_file_path_excluding(abs_of(files[i].path), id));
        }
    }
}

/// Inserting fresh rows for an id that no row carries, below the id
/// counter, keeps the catalog well formed.
proof fn lemma_insert_preserves_wf_at(
    pre: CatalogView,
    post: CatalogView,
    files: Seq<crate::pkg::PkgFileView>,
    meta: MetaView,
    id: u64,
    bound: u64,
)
    requires
        pre.wf(),
        id < pre.next_id,
        forall|i: int| 0 <= i < pre.packages.len() ==> (#[trigger] pre.packages[i]).id != id,
        !pre.has_name(meta.name),
        pre.no_path_collision(files),
        forall|i: int, j: int|
            0 <= i < j < files.len() ==> #[trigger] files[i].path != #[trigger] files[j].path,
        post.packages == pre.packages.push((PackageRowView { id, meta })),
        post.files == pre.files + new_file_rows(files, id),
        post.next_id == pre.next_id,
    ensures
        post.wf(),
{
    assert forall|i: int, j: int| 0 <= i < j < post.files.len() implies (
    #[trigger] post.files[i]).absolute_path != (#[trigger] post.files[j]).absolute_path by {
        if i >= pre.files.len() && j >= pre.files.len() {
            let a = i - pre.files.len();
            let b = j - pre.files.len();
            if abs_of(files[a].path) == abs_of(files[b].path) {
                crate::pkg::lemma_abs_of_injective(files[a].path, files[b].path);
            }
        } else if i < pre.files.len() && j >= pre.files.len() {
            let b = j - pre.files.len();
            assert(!pre.has_file_path(abs_of(files[b].path)));
        }
    }
}

/// Inserting fresh rows under a fresh id keeps the catalog well formed.
proof fn lemma_insert_preserves_wf(
    pre: CatalogView,
    post: CatalogView,
    files: Seq<crate::pkg::PkgFileView>,
    meta: MetaView,
    id: u64,
)
    requires
        pre.wf(),
        id == pre.next_id,
        pre.next_id < u64::MAX,
        !pre.has_name(meta.name),
        pre.no_path_collision(files),
        forall|i: int, j: int|
            0 <= i < j < files.len() ==> #[trigger] files[i].path != #[trigger] files[j].path,
        post.packages == pre.packages.push((PackageRowView { id, meta })),
        post.files == pre.files + new_file_rows(files, id),
        post.next_id == id + 1,
    ensures
        post.wf(),
{
    assert forall|i: int, j: int| 0 <= i < j < post.files.len() implies (
    #[trigger] post.files[i]).absolute_path != (#[trigger] post.files[j]).absolute_path by {
        if i >= pre.files.len() && j >= pre.files.len() {
            let a = i - pre.files.len();
            let b = j - pre.files.len();
            if abs_of(files[a].path) == abs_of(files[b].path) {
                crate::pkg::lemma_abs_of_injective(files[a].path, files[b].path);
            }
        } else if i < pre.files.len() && j >= pre.files.len() {
            let b = j - pre.files.len();
            assert(!pre.has_file_path(abs_of(files[b].path)));
        }
    }
}

/// Removing rows keeps the catalog well formed.
proof fn lemma_delete_preserves_wf(pre: CatalogView, post: CatalogView, id: u64)
    requires
        pre.wf(),
        post.packages == pre.packages.filter(|r: PackageRowView| r.id != id),
        post.files == pre.files.filter(|f: FileRowView| f.package_id != id),
        post.next_id == pre.next_id,
    ensures
        post.wf(),
{
    lemma_filter_packages_distinct(pre.packages, |r: PackageRowView| r.id != id, pre.next_id);
    lemma_filter_files_distinct(pre.files, |f: FileRowView| f.package_id != id);
}

/// Every element of a filtered slice is an element of the slice.
proof fn lemma_filter_element_of<A>(s: Seq<A>, pred: spec_fn(A) -> bool, k: int)
    requires
        0 <= k < s.filter(pred).len(),
    ensures
        exists|m: int| 0 <= m < s.len() && #[trigger] s[m] == s.filter(pred)[k],
    decreases s.len(),
{
    reveal(Seq::filter);
    if s.len() > 0 {
        if pred(s.last()) && k == s.filter(pred).len() - 1 {
            assert(s[s.len() - 1] == s.filter(pred)[k]);
        } else {
            lemma_filter_element_of(s.drop_last(), pred, k);
            let m = choose|m: int|
                0 <= m < s.drop_last().len() && #[trigger] s.drop_last()[m] == s.drop_last().filter(
                    pred,
                )[k];
            assert(s[m] == s.filter(pred)[k]);
        }
    }
}

/// A filtered slice of distinct package rows stays distinct, and its
/// ids stay below the counter.
proof fn lemma_filter_packages_distinct(
    s: Seq<PackageRowView>,
    pred: spec_fn(PackageRowView) -> bool,
    bound: u64,
)
    requires
        forall|i: int, j: int|
            0 <= i < j < s.len() ==> (#[trigger] s[i]).id != (#[trigger] s[j]).id,
        forall|i: int, j: int|
            0 <= i < j < s.len() ==> (#[trigger] s[i]).meta.name != (#[trigger] s[j]).meta.name,
        forall|i: int| 0 <= i < s.len() ==> (#[trigger] s[i]).id < bound,
    ensures
        forall|i: int, j: int|
            0 <= i < j < s.filter(pred).len() ==> (#[trigger] s.filter(pred)[i]).id != (
            #[trigger] s.filter(pred)[j]).id,
        forall|i: int, j: int|
            0 <= i < j < s.filter(pred).len() ==> (#[trigger] s.filter(pred)[i]).meta.name != (
            #[trigger] s.filter(pred)[j]).meta.name,
        forall|i: int| 0 <= i < s.filter(pred).len() ==> (#[trigger] s.filter(pred)[i]).id < bound,
    decreases s.len(),
{
    reveal(Seq::filter);
    if s.len() > 0 {
        lemma_filter_packages_distinct(s.drop_last(), pred, bound);
        let f = s.filter(pred);
        let fd = s.drop_last().filter(pred);
        if pred(s.last()) {
            assert(f == fd.push(s.last()));
            assert forall|k: int| 0 <= k < fd.len() implies (#[trigger] fd[k]).id != s.last().id
                && fd[k].meta.name != s.last().meta.name by {
                lemma_filter_element_of(s.drop_last(), pred, k);
                let m = choose|m: int|
                    0 <= m < s.drop_last().len() && #[trigger] s.drop_last()[m] == fd[k];
                assert(s[m] == fd[k]);
                assert(s[m].id != s[s.len() - 1].id);
            }
            assert forall|i: int, j: int| 0 <= i < j < f.len() implies (#[trigger] f[i]).id != (
            #[trigger] f[j]).id && f[i].meta.name != f[j].meta.name by {
                if j < fd.len() {
                    assert(f[i] == fd[i] && f[j] == fd[j]);
                } else {
                    assert(f[j] == s.last());
                    assert(f[i] == fd[i]);
                }
            }
            assert forall|i: int| 0 <= i < f.len() implies (#[trigger] f[i]).id < bound by {
                lemma_filter_element_of(s, pred, i);
            }
        }
    }
}

/// A filtered slice of file rows with distinct paths keeps its paths
/// distinct.
pub(crate) proof fn lemma_filter_files_distinct(s: Seq<FileRowView>, pred: spec_fn(FileRowView) -> bool)
    requires
        forall|i: int, j: int|
            0 <= i < j < s.len() ==> (#[trigger] s[i]).absolute_path != (
            #[trigger] s[j]).absolute_path,
    ensures
        forall|i: int, j: int|
            0 <= i < j < s.filter(pred).len() ==> (#[trigger] s.filter(pred)[i]).absolute_path
                != (#[trigger] s.filter(pred)[j]).absolute_path,
    decreases s.len(),
{
    reveal(Seq::filter);
    if s.len() > 0 {
        lemma_filter_files_distinct(s.drop_last(), pred);
        let f = s.filter(pred);
        let fd = s.drop_last().filter(pred);
        if pred(s.last()) {
            assert(f == fd.push(s.last()));
            assert forall|k: int| 0 <= k < fd.len() implies (#[trigger] fd[k]).absolute_path
                != s.last().absolute_path by {
                lemma_filter_element_of(s.drop_last(), pred, k);
                let m = choose|m: int|
                    0 <= m < s.drop_last().len() && #[trigger] s.drop_last()[m] == fd[k];
                assert(s[m] == fd[k]);
                assert(s[m].absolute_path != s[s.len() - 1].absolute_path);
            }
            assert forall|i: int, j: int| 0 <= i < j < f.len() implies (
            #[trigger] f[i]).absolute_path != (#[trigger] f[j]).absolute_path by {
                if j < fd.len() {
                    assert(f[i] == fd[i] && f[j] == fd[j]);
                } else {
                    assert(f[j] == s.last());
                    assert(f[i] == fd[i]);
                }
            }
        }
    }
}

} // verus!

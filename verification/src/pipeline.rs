//! The transaction coordinator: install, update and delete, each of
//! which leaves the catalog and the filesystem either exactly as they
//! were (on any failure) or exactly in the post-operation state.
//!
//! The filesystem under the system root is modelled as a map from
//! absolute paths to file contents; the caller performs the real copies
//! and removals and the real script runs, and hands the script exit
//! codes in. A phase whose script is absent is reported as exit 0.

use vstd::prelude::*;
use vstd::hash_map::StringHashMap;
use core::cmp::Ordering;
use crate::catalog::{new_file_rows, new_tag_rows, Catalog, FileRowView, PackageRowView};
use crate::diff::{action_path, compute_diff, plan_ok, FileAction};
use crate::pkg::{abs_of, abs_path, Package, PkgFileView};
use crate::validate::{all_entries_valid, arch_ok, entry_error, start_validate_task};
use crate::{LpmError, ScriptPhase};

verus! {

/// The contents of a file tree, path by path: the model forgets which
/// vector holds the bytes and keeps the bytes.
pub open spec fn contents_of(m: Map<Seq<char>, Vec<u8>>) -> Map<Seq<char>, Seq<u8>> {
    Map::new(|k: Seq<char>| m.dom().contains(k), |k: Seq<char>| m[k]@)
}

/// The filesystem after installing a package: every manifest entry's
/// install path holds the bytes of the program tree, in manifest order.
pub open spec fn fs_after_install(
    fs0: Map<Seq<char>, Seq<u8>>,
    prog: Map<Seq<char>, Seq<u8>>,
    n: Seq<PkgFileView>,
) -> Map<Seq<char>, Seq<u8>>
    decreases n.len(),
{
    if n.len() == 0 {
        fs0
    } else {
        fs_after_install(fs0, prog, n.drop_last()).insert(
            abs_of(n.last().path),
            prog[n.last().path],
        )
    }
}

/// The filesystem after removing the given absolute paths, in order.
pub open spec fn fs_after_remove(
    fs0: Map<Seq<char>, Seq<u8>>,
    paths: Seq<Seq<char>>,
) -> Map<Seq<char>, Seq<u8>>
    decreases paths.len(),
{
    if paths.len() == 0 {
        fs0
    } else {
        fs_after_remove(fs0, paths.drop_last()).remove(paths.last())
    }
}

/// The filesystem after applying a diff plan: replaces and adds write
/// the program tree's bytes at the entry's install path, removes drop
/// the old row's path.
pub open spec fn fs_after_plan(
    fs0: Map<Seq<char>, Seq<u8>>,
    o: Seq<FileRowView>,
    n: Seq<PkgFileView>,
    prog: Map<Seq<char>, Seq<u8>>,
    plan: Seq<FileAction>,
) -> Map<Seq<char>, Seq<u8>>
    decreases plan.len(),
{
    if plan.len() == 0 {
        fs0
    } else {
        let m = fs_after_plan(fs0, o, n, prog, plan.drop_last());
        match plan.last() {
            FileAction::Replace { new_index } => m.insert(
                abs_of(n[new_index as int].path),
                prog[n[new_index as int].path],
            ),
            FileAction::Add { new_index } => m.insert(
                abs_of(n[new_index as int].path),
                prog[n[new_index as int].path],
            ),
            FileAction::Remove { old_index } => m.remove(o[old_index as int].absolute_path),
        }
    }
}

/// The absolute paths of a run of file rows, in row order.
pub open spec fn row_paths(rows: Seq<FileRowView>) -> Seq<Seq<char>> {
    rows.map_values(|f: FileRowView| f.absolute_path)
}

/// Copies a byte vector.
fn clone_bytes(v: &Vec<u8>) -> (r: Vec<u8>)
    ensures
        r@ == v@,
{
    let mut r: Vec<u8> = Vec::new();
    let mut i: usize = 0;
    while i < v.len()
        invariant
            i <= v@.len(),
            r@ == v@.take(i as int),
        decreases v@.len() - i,
    {
        r.push(v[i]);
        proof {
            assert(r@ =~= v@.take(i + 1));
        }
        i = i + 1;
    }
    proof {
        assert(v@.take(v@.len() as int) =~= v@);
    }
    r
}

/// Everything an install demands: the name free, the architecture and
/// every digest accepted, no file path owned by any installed package,
/// and both lifecycle scripts succeeding.
pub open spec fn install_allowed(
    cat: crate::catalog::CatalogView,
    pkg: Package,
    host_arch: Seq<char>,
    pre_exit: i32,
    post_exit: i32,
) -> bool {
    &&& !cat.has_name(pkg.meta.name@)
    &&& arch_ok(pkg.meta.arch@, host_arch)
    &&& all_entries_valid(pkg)
    &&& pkg.script_ok(ScriptPhase::PreInstall, pre_exit)
    &&& cat.no_path_collision(pkg.files@)
    &&& pkg.script_ok(ScriptPhase::PostInstall, post_exit)
}

/// Installs a staged package: validates it, runs the install phases,
/// copies every manifest file under the system root and records the
/// package in the catalog — or fails with the first error in stage
/// order and changes nothing.
#[verifier::loop_isolation(false)]
pub fn install(
    cat: &mut Catalog,
    fs: &mut StringHashMap<Vec<u8>>,
    pkg: &Package,
    host_arch: &str,
    pre_exit: i32,
    post_exit: i32,
) -> (r: Result<u64, LpmError>)
    requires
        old(cat)@.wf(),
        old(cat)@.next_id < u64::MAX,
        pkg.files.paths_unique(),
    ensures
        final(cat)@.wf(),
        r matches Ok(id) <==> install_allowed(old(cat)@, *pkg, host_arch@, pre_exit, post_exit),
        r matches Err(e) ==> {
            &&& *final(cat) == *old(cat)
            &&& *final(fs) == *old(fs)
            &&& (old(cat)@.has_name(pkg.meta.name@) <==> e is AlreadyInstalled)
            &&& !old(cat)@.has_name(pkg.meta.name@) && !arch_ok(pkg.meta.arch@, host_arch@)
                ==> e is UnsupportedArchitecture
            &&& !old(cat)@.has_name(pkg.meta.name@) && arch_ok(pkg.meta.arch@, host_arch@)
                && !all_entries_valid(*pkg) ==> exists|i: int|
                {
                    &&& 0 <= i < pkg.files.0@.len()
                    &&& entry_error(pkg.program@, #[trigger] pkg.files.0@[i]) == Some(e)
                    &&& forall|j: int|
                        0 <= j < i ==> entry_error(pkg.program@, #[trigger] pkg.files.0@[j])
                            is None
                }
            &&& !old(cat)@.has_name(pkg.meta.name@) && arch_ok(pkg.meta.arch@, host_arch@)
                && all_entries_valid(*pkg) && !pkg.script_ok(ScriptPhase::PreInstall, pre_exit)
                ==> e == (LpmError::ScriptFailed { phase: ScriptPhase::PreInstall, code: pre_exit })
            &&& !old(cat)@.has_name(pkg.meta.name@) && arch_ok(pkg.meta.arch@, host_arch@)
                && all_entries_valid(*pkg) && pkg.script_ok(ScriptPhase::PreInstall, pre_exit)
                && !old(cat)@.no_path_collision(pkg.files@) ==> e is CatalogIntegrity
            &&& !old(cat)@.has_name(pkg.meta.name@) && arch_ok(pkg.meta.arch@, host_arch@)
                && all_entries_valid(*pkg) && pkg.script_ok(ScriptPhase::PreInstall, pre_exit)
                && old(cat)@.no_path_collision(pkg.files@) && !pkg.script_ok(
                ScriptPhase::PostInstall,
                post_exit,
            ) ==> e == (LpmError::ScriptFailed {
                phase: ScriptPhase::PostInstall,
                code: post_exit,
            })
        },
        r matches Ok(id) ==> {
            &&& id == old(cat)@.next_id
            &&& final(cat)@.packages == old(cat)@.packages.push(
                (PackageRowView { id, meta: pkg.meta@ }),
            )
            &&& final(cat)@.files == old(cat)@.files + new_file_rows(pkg.files@, id)
            &&& final(cat)@.package_tags == old(cat)@.package_tags + new_tag_rows(
                pkg.meta@.tags,
                id,
            )
            &&& final(cat)@.checksum_kinds == old(cat)@.checksum_kinds
            &&& final(cat)@.user_version == old(cat)@.user_version
            &&& final(cat)@.schema_statements == old(cat)@.schema_statements
            &&& final(cat)@.next_id == old(cat)@.next_id + 1
            &&& contents_of(final(fs)@) == fs_after_install(
                contents_of(old(fs)@),
                contents_of(pkg.program@),
                pkg.files@,
            )
        },
{
    if cat.load_installed(pkg.meta.name.as_str()).is_some() {
        return Err(LpmError::AlreadyInstalled);
    }
    match start_validate_task(pkg, host_arch) {
        Err(e) => {
            return Err(e);
        },
        Ok(()) => {},
    }
    if pkg.has_script(ScriptPhase::PreInstall) && pre_exit != 0 {
        return Err(LpmError::ScriptFailed { phase: ScriptPhase::PreInstall, code: pre_exit });
    }
    if cat.has_collision(&pkg.files) {
        return Err(LpmError::CatalogIntegrity);
    }
    if pkg.has_script(ScriptPhase::PostInstall) && post_exit != 0 {
        return Err(LpmError::ScriptFailed { phase: ScriptPhase::PostInstall, code: post_exit });
    }
    let id = match cat.insert_package(pkg) {
        Ok(id) => id,
        Err(_) => {
            return Err(LpmError::CatalogIntegrity);
        },
    };
    let ghost fs0 = contents_of(fs@);
    let ghost prog = contents_of(pkg.program@);
    let ghost n = pkg.files@;
    let mut i: usize = 0;
    while i < pkg.files.0.len()
        invariant
            i <= n.len(),
            contents_of(fs@) == fs_after_install(fs0, prog, n.take(i as int)),
        decreases pkg.files.0@.len() - i,
    {
        let entry = &pkg.files.0[i];
        proof {
            assert(n[i as int] == pkg.files.0@[i as int]@);
            assert(entry_error(pkg.program@, pkg.files.0@[i as int]) is None);
        }
        let abs = abs_path(&entry.path);
        match pkg.program.get(entry.path.as_str()) {
            Some(content) => {
                let bytes = clone_bytes(content);
                let ghost before = contents_of(fs@);
                fs.insert(abs, bytes);
                proof {
                    assert(n.take(i + 1).drop_last() =~= n.take(i as int));
                    assert(contents_of(fs@) =~~= before.insert(abs_of(n[i as int].path), prog[n[i as int].path]));
                    assert(contents_of(fs@) =~~= fs_after_install(fs0, prog, n.take(i + 1)));
                }
            },
            None => {
                return Err(LpmError::Io);
            },
        }
        i = i + 1;
    }
    proof {
        assert(n.take(n.len() as int) =~= n);
    }
    Ok(id)
}

/// Deletes an installed package: runs the delete phases, removes every
/// file the catalog lists for it (a path already gone is tolerated) and
/// drops its catalog rows — or fails with the first error in stage
/// order and changes nothing. Returns the deleted package's id.
#[verifier::loop_isolation(false)]
pub fn delete(
    cat: &mut Catalog,
    fs: &mut StringHashMap<Vec<u8>>,
    pkg_name: &str,
    pre_exit: i32,
    post_exit: i32,
) -> (r: Result<u64, LpmError>)
    requires
        old(cat)@.wf(),
    ensures
        final(cat)@.wf(),
        r matches Ok(id) <==> (old(cat)@.has_name(pkg_name@) && pre_exit == 0 && post_exit == 0),
        r matches Err(e) ==> {
            &&& *final(cat) == *old(cat)
            &&& *final(fs) == *old(fs)
            &&& (!old(cat)@.has_name(pkg_name@) <==> e is NotInstalled)
            &&& old(cat)@.has_name(pkg_name@) && pre_exit != 0 ==> e == (LpmError::ScriptFailed {
                phase: ScriptPhase::PreDelete,
                code: pre_exit,
            })
            &&& old(cat)@.has_name(pkg_name@) && pre_exit == 0 && post_exit != 0 ==> e == (
            LpmError::ScriptFailed { phase: ScriptPhase::PostDelete, code: post_exit })
        },
        r matches Ok(id) ==> {
            &&& exists|x: int|
                0 <= x < old(cat)@.packages.len() && (#[trigger] old(cat)@.packages[x]).id == id
                    && old(cat)@.packages[x].meta.name == pkg_name@
            &&& final(cat)@.packages == old(cat)@.packages.filter(
                (|p: PackageRowView| p.id != id),
            )
            &&& final(cat)@.files == old(cat)@.files.filter((|f: FileRowView| f.package_id != id))
            &&& final(cat)@.package_tags == old(cat)@.package_tags.filter(
                (|t: crate::catalog::TagRowView| t.package_id != id),
            )
            &&& final(cat)@.checksum_kinds == old(cat)@.checksum_kinds
            &&& final(cat)@.user_version == old(cat)@.user_version
            &&& final(cat)@.schema_statements == old(cat)@.schema_statements
            &&& final(cat)@.next_id == old(cat)@.next_id
            &&& contents_of(final(fs)@) == fs_after_remove(
                contents_of(old(fs)@),
                row_paths(old(cat)@.files.filter((|f: FileRowView| f.package_id == id))),
            )
        },
{
    let idx = match cat.load_installed(pkg_name) {
        None => {
            return Err(LpmError::NotInstalled);
        },
        Some(i) => i,
    };
    let id = cat.packages[idx].id;
    proof {
        assert(cat@.packages[idx as int] == cat.packages@[idx as int]@);
    }
    if pre_exit != 0 {
        return Err(LpmError::ScriptFailed { phase: ScriptPhase::PreDelete, code: pre_exit });
    }
    if post_exit != 0 {
        return Err(LpmError::ScriptFailed { phase: ScriptPhase::PostDelete, code: post_exit });
    }
    let rows = cat.files_of(id);
    let ghost fs0 = contents_of(fs@);
    let ghost paths = row_paths(old(cat)@.files.filter(|f: FileRowView| f.package_id == id));
    proof {
        assert(rows@.map_values(|f: crate::catalog::FileRow| f@).map_values(
            |f: FileRowView| f.absolute_path,
        ) =~= paths);
    }
    let mut i: usize = 0;
    while i < rows.len()
        invariant
            i <= rows@.len(),
            rows@.len() == paths.len(),
            forall|m: int| 0 <= m < rows@.len() ==> (#[trigger] rows@[m]@).absolute_path
                == paths[m],
            contents_of(fs@) == fs_after_remove(fs0, paths.take(i as int)),
        decreases rows@.len() - i,
    {
        let ghost before = contents_of(fs@);
        fs.remove(rows[i].absolute_path.as_str());
        proof {
            assert(paths.take(i + 1).drop_last() =~= paths.take(i as int));
            assert(contents_of(fs@) =~~= before.remove(paths[i as int]));
            assert(contents_of(fs@) =~~= fs_after_remove(fs0, paths.take(i + 1)));
        }
        i = i + 1;
    }
    proof {
        assert(paths.take(paths.len() as int) =~= paths);
    }
    cat.delete_package(id);
    Ok(id)
}

/// The version of the installed row equals the version of the staged
/// replacement: the update is a no-op.
pub open spec fn same_version_as(row: PackageRowView, pkg: Package) -> bool {
    row.meta.version.cmp_spec(pkg.meta@.version) == Ordering::Equal
}

/// The phase pair an update runs: upgrade phases when the installed
/// version is older than the staged one, downgrade phases when newer.
pub open spec fn update_pre_phase(row: PackageRowView, pkg: Package) -> ScriptPhase {
    if row.meta.version.cmp_spec(pkg.meta@.version) == Ordering::Less {
        ScriptPhase::PreUpgrade
    } else {
        ScriptPhase::PreDowngrade
    }
}

/// The post phase matching `update_pre_phase`.
pub open spec fn update_post_phase(row: PackageRowView, pkg: Package) -> ScriptPhase {
    if row.meta.version.cmp_spec(pkg.meta@.version) == Ordering::Less {
        ScriptPhase::PostUpgrade
    } else {
        ScriptPhase::PostDowngrade
    }
}

/// Everything a non-trivial update demands, beyond the package being
/// installed: the staged package validates, both phase scripts succeed,
/// and the new name and paths collide with no other package's rows.
pub open spec fn update_allowed(
    cat: crate::catalog::CatalogView,
    id: u64,
    to_pkg: Package,
    host_arch: Seq<char>,
    pre_exit: i32,
    post_exit: i32,
) -> bool {
    &&& arch_ok(to_pkg.meta.arch@, host_arch)
    &&& all_entries_valid(to_pkg)
    &&& pre_exit == 0
    &&& cat.name_free_excluding(to_pkg.meta.name@, id)
    &&& cat.no_path_collision_excluding(to_pkg.files@, id)
    &&& post_exit == 0
}

/// Which error a failed non-trivial update reports, in stage order.
pub open spec fn update_error_ok(
    cat: crate::catalog::CatalogView,
    row: PackageRowView,
    to_pkg: Package,
    host_arch: Seq<char>,
    pre_exit: i32,
    post_exit: i32,
    e: LpmError,
) -> bool {
    let id = row.id;
    &&& (!arch_ok(to_pkg.meta.arch@, host_arch) ==> e is UnsupportedArchitecture)
    &&& (arch_ok(to_pkg.meta.arch@, host_arch) && all_entries_valid(to_pkg) && pre_exit != 0
        ==> e == (LpmError::ScriptFailed { phase: update_pre_phase(row, to_pkg), code: pre_exit }))
    &&& (arch_ok(to_pkg.meta.arch@, host_arch) && all_entries_valid(to_pkg) && pre_exit == 0
        && !(cat.name_free_excluding(to_pkg.meta.name@, id) && cat.no_path_collision_excluding(
        to_pkg.files@,
        id,
    )) ==> e is CatalogIntegrity)
    &&& (arch_ok(to_pkg.meta.arch@, host_arch) && all_entries_valid(to_pkg) && pre_exit == 0
        && cat.name_free_excluding(to_pkg.meta.name@, id) && cat.no_path_collision_excluding(
        to_pkg.files@,
        id,
    ) && post_exit != 0 ==> e == (LpmError::ScriptFailed {
        phase: update_post_phase(row, to_pkg),
        code: post_exit,
    }))
}

/// What a successful non-trivial update leaves behind: the plan is a
/// correct diff, the catalog row is rewritten in place with its file and
/// tag rows replaced, and the filesystem is the old one with the plan
/// applied.
pub open spec fn update_success_post(
    pre_cat: crate::catalog::CatalogView,
    post_cat: crate::catalog::CatalogView,
    pre_fs: Map<Seq<char>, Vec<u8>>,
    post_fs: Map<Seq<char>, Vec<u8>>,
    id: u64,
    to_pkg: Package,
    plan: Seq<FileAction>,
) -> bool {
    let o_rows = pre_cat.files.filter(|f: FileRowView| f.package_id == id);
    &&& plan_ok(o_rows, to_pkg.files@, plan)
    &&& post_cat.packages == pre_cat.packages.filter((|p: PackageRowView| p.id != id)).push(
        (PackageRowView { id, meta: to_pkg.meta@ }),
    )
    &&& post_cat.files == pre_cat.files.filter((|f: FileRowView| f.package_id != id))
        + new_file_rows(to_pkg.files@, id)
    &&& post_cat.package_tags == pre_cat.package_tags.filter(
        (|t: crate::catalog::TagRowView| t.package_id != id),
    ) + new_tag_rows(to_pkg.meta@.tags, id)
    &&& post_cat.checksum_kinds == pre_cat.checksum_kinds
    &&& post_cat.user_version == pre_cat.user_version
    &&& post_cat.schema_statements == pre_cat.schema_statements
    &&& post_cat.next_id == pre_cat.next_id
    &&& contents_of(post_fs) == fs_after_plan(
        contents_of(pre_fs),
        o_rows,
        to_pkg.files@,
        contents_of(to_pkg.program@),
        plan,
    )
}

/// The full postcondition of `update` against the installed row it
/// found.
pub open spec fn update_post(
    pre_cat: crate::catalog::CatalogView,
    post_cat: crate::catalog::CatalogView,
    pre_fs: Map<Seq<char>, Vec<u8>>,
    post_fs: Map<Seq<char>, Vec<u8>>,
    row: PackageRowView,
    to_pkg: Package,
    host_arch: Seq<char>,
    pre_exit: i32,
    post_exit: i32,
    r: Result<Vec<FileAction>, LpmError>,
) -> bool {
    &&& (r is Ok <==> (same_version_as(row, to_pkg) || update_allowed(
        pre_cat,
        row.id,
        to_pkg,
        host_arch,
        pre_exit,
        post_exit,
    )))
    &&& (same_version_as(row, to_pkg) ==> post_cat == pre_cat && post_fs == pre_fs && (
    r matches Ok(p) ==> p.len() == 0))
    &&& (r matches Err(e) ==> post_cat == pre_cat && post_fs == pre_fs && update_error_ok(
        pre_cat,
        row,
        to_pkg,
        host_arch,
        pre_exit,
        post_exit,
        e,
    ))
    &&& (!same_version_as(row, to_pkg) ==> (r matches Ok(plan) ==> update_success_post(
        pre_cat,
        post_cat,
        pre_fs,
        post_fs,
        row.id,
        to_pkg,
        plan@,
    )))
}

/// Updates an installed package from a staged replacement. An equal
/// version is a no-op success with an empty plan. Otherwise the staged
/// package is validated, the upgrade or downgrade phases run around the
/// filesystem diff, the diff is applied (files whose checksum is
/// unchanged are not rewritten), and the catalog row is rewritten — or
/// the first failure in stage order is returned and nothing changes.
#[verifier::loop_isolation(false)]
pub fn update(
    cat: &mut Catalog,
    fs: &mut StringHashMap<Vec<u8>>,
    pkg_name: &str,
    to_pkg: &Package,
    host_arch: &str,
    pre_exit: i32,
    post_exit: i32,
) -> (r: Result<Vec<FileAction>, LpmError>)
    requires
        old(cat)@.wf(),
        to_pkg.files.paths_unique(),
    ensures
        final(cat)@.wf(),
        !old(cat)@.has_name(pkg_name@) ==> (r matches Err(e) && e is NotInstalled && *final(cat)
            == *old(cat) && *final(fs) == *old(fs)),
        forall|x: int|
            0 <= x < old(cat)@.packages.len() && (#[trigger] old(cat)@.packages[x]).meta.name
                == pkg_name@ ==> update_post(
                old(cat)@,
                final(cat)@,
                old(fs)@,
                final(fs)@,
                old(cat)@.packages[x],
                *to_pkg,
                host_arch@,
                pre_exit,
                post_exit,
                r,
            ),
{
    let idx = match cat.load_installed(pkg_name) {
        None => {
            return Err(LpmError::NotInstalled);
        },
        Some(i) => i,
    };
    let id = cat.packages[idx].id;
    proof {
        assert(cat@.packages[idx as int] == cat.packages@[idx as int]@);
        assert forall|x: int|
            0 <= x < cat@.packages.len() && (#[trigger] cat@.packages[x]).meta.name == pkg_name@
            implies x == idx as int by {
            if x != idx as int {
                assert(cat@.packages[x].meta.name != cat@.packages[idx as int].meta.name);
            }
        }
    }
    let ord = cat.packages[idx].meta.version.compare(&to_pkg.meta.version);
    if matches!(ord, Ordering::Equal) {
        return Ok(Vec::new());
    }
    match start_validate_task(to_pkg, host_arch) {
        Err(e) => {
            return Err(e);
        },
        Ok(()) => {},
    }
    let pre_phase = if matches!(ord, Ordering::Less) {
        ScriptPhase::PreUpgrade
    } else {
        ScriptPhase::PreDowngrade
    };
    let post_phase = if matches!(ord, Ordering::Less) {
        ScriptPhase::PostUpgrade
    } else {
        ScriptPhase::PostDowngrade
    };
    if pre_exit != 0 {
        return Err(LpmError::ScriptFailed { phase: pre_phase, code: pre_exit });
    }
    if cat.name_taken_by_other(&to_pkg.meta.name, id) {
        return Err(LpmError::CatalogIntegrity);
    }
    if cat.has_collision_excluding(&to_pkg.files, id) {
        return Err(LpmError::CatalogIntegrity);
    }
    if post_exit != 0 {
        return Err(LpmError::ScriptFailed { phase: post_phase, code: post_exit });
    }
    let old_rows = cat.files_of(id);
    let ghost o = old(cat)@.files.filter(|f: FileRowView| f.package_id == id);
    proof {
        crate::catalog::lemma_filter_files_distinct(
            old(cat)@.files,
            |f: FileRowView| f.package_id == id,
        );
        assert(old_rows@.map_values(|f: crate::catalog::FileRow| f@) == o);
    }
    let plan = compute_diff(&old_rows, &to_pkg.files);
    match cat.update_existing(id, to_pkg) {
        Err(_) => {
            return Err(LpmError::CatalogIntegrity);
        },
        Ok(()) => {},
    }
    let ghost fs0 = contents_of(fs@);
    let ghost n = to_pkg.files@;
    let ghost prog = contents_of(to_pkg.program@);
    let mut k: usize = 0;
    while k < plan.len()
        invariant
            k <= plan@.len(),
            contents_of(fs@) == fs_after_plan(fs0, o, n, prog, plan@.take(k as int)),
        decreases plan@.len() - k,
    {
        proof {
            assert(plan@.take(k + 1).drop_last() =~= plan@.take(k as int));
            assert(plan@.take(k + 1).last() == plan@[k as int]);
        }
        let ghost before = contents_of(fs@);
        match plan[k] {
            FileAction::Replace { new_index } => {
                write_manifest_entry(fs, to_pkg, new_index);
                proof {
                    assert(contents_of(fs@) =~~= fs_after_plan(fs0, o, n, prog, plan@.take(k + 1)));
                }
            },
            FileAction::Add { new_index } => {
                write_manifest_entry(fs, to_pkg, new_index);
                proof {
                    assert(contents_of(fs@) =~~= fs_after_plan(fs0, o, n, prog, plan@.take(k + 1)));
                }
            },
            FileAction::Remove { old_index } => {
                fs.remove(old_rows[old_index].absolute_path.as_str());
                proof {
                    assert(old_rows@[old_index as int]@ == o[old_index as int]);
                    assert(contents_of(fs@) =~~= before.remove(o[old_index as int].absolute_path));
                    assert(contents_of(fs@) =~~= fs_after_plan(fs0, o, n, prog, plan@.take(k + 1)));
                }
            },
        }
        k = k + 1;
    }
    proof {
        assert(plan@.take(plan@.len() as int) =~= plan@);
    }
    Ok(plan)
}

/// Writes one manifest entry's bytes from the program tree to its
/// install path.
fn write_manifest_entry(fs: &mut StringHashMap<Vec<u8>>, pkg: &Package, i: usize)
    requires
        i < pkg.files@.len(),
        all_entries_valid(*pkg),
    ensures
        contents_of(final(fs)@) == contents_of(old(fs)@).insert(
            abs_of(pkg.files@[i as int].path),
            contents_of(pkg.program@)[pkg.files@[i as int].path],
        ),
{
    let entry = &pkg.files.0[i];
    proof {
        assert(pkg.files@[i as int] == pkg.files.0@[i as int]@);
        assert(entry_error(pkg.program@, pkg.files.0@[i as int]) is None);
    }
    let abs = abs_path(&entry.path);
    match pkg.program.get(entry.path.as_str()) {
        Some(content) => {
            let bytes = clone_bytes(content);
            let ghost before = contents_of(fs@);
            fs.insert(abs, bytes);
            proof {
                assert(contents_of(fs@) =~~= before.insert(
                    abs_of(pkg.files@[i as int].path),
                    contents_of(pkg.program@)[pkg.files@[i as int].path],
                ));
            }
        },
        None => {},
    }
}

/// Looking an installed manifest path up in the installed filesystem
/// finds the program tree's bytes for that path.
proof fn lemma_install_fold_lookup(
    fs0: Map<Seq<char>, Seq<u8>>,
    prog: Map<Seq<char>, Seq<u8>>,
    n: Seq<PkgFileView>,
    i: int,
)
    requires
        0 <= i < n.len(),
    ensures
        fs_after_install(fs0, prog, n).contains_key(abs_of(n[i].path)),
        fs_after_install(fs0, prog, n)[abs_of(n[i].path)] == prog[n[i].path],
    decreases n.len(),
{
    if i == n.len() - 1 {
    } else {
        assert(n.drop_last()[i] == n[i]);
        lemma_install_fold_lookup(fs0, prog, n.drop_last(), i);
        if abs_of(n.last().path) == abs_of(n[i].path) {
            crate::pkg::lemma_abs_of_injective(n.last().path, n[i].path);
        }
    }
}

/// A path no manifest entry installs at is untouched by an install.
proof fn lemma_install_fold_frame(
    fs0: Map<Seq<char>, Seq<u8>>,
    prog: Map<Seq<char>, Seq<u8>>,
    n: Seq<PkgFileView>,
    p: Seq<char>,
)
    requires
        forall|i: int| 0 <= i < n.len() ==> abs_of((#[trigger] n[i]).path) != p,
    ensures
        fs_after_install(fs0, prog, n).contains_key(p) == fs0.contains_key(p),
        fs0.contains_key(p) ==> fs_after_install(fs0, prog, n)[p] == fs0[p],
    decreases n.len(),
{
    if n.len() > 0 {
        assert(forall|i: int|
            0 <= i < n.drop_last().len() ==> (#[trigger] n.drop_last()[i]) == n[i]);
        lemma_install_fold_frame(fs0, prog, n.drop_last(), p);
        assert(abs_of(n[n.len() - 1].path) != p);
    }
}

/// Removing a list of paths drops exactly those paths and keeps every
/// other entry.
proof fn lemma_remove_fold(fs0: Map<Seq<char>, Seq<u8>>, paths: Seq<Seq<char>>, p: Seq<char>)
    ensures
        paths.contains(p) ==> !fs_after_remove(fs0, paths).contains_key(p),
        !paths.contains(p) ==> fs_after_remove(fs0, paths).contains_key(p) == fs0.contains_key(p)
            && (fs0.contains_key(p) ==> fs_after_remove(fs0, paths)[p] == fs0[p]),
    decreases paths.len(),
{
    if paths.len() > 0 {
        lemma_remove_fold(fs0, paths.drop_last(), p);
        if paths.contains(p) {
            if p != paths.last() {
                let j = choose|j: int| 0 <= j < paths.len() && paths[j] == p;
                assert(paths.drop_last()[j] == p);
                assert(paths.drop_last().contains(p));
            }
        } else {
            assert(!paths.drop_last().contains(p)) by {
                if paths.drop_last().contains(p) {
                    let j = choose|j: int|
                        0 <= j < paths.drop_last().len() && paths.drop_last()[j] == p;
                    assert(paths[j] == p);
                }
            }
            assert(p != paths.last());
        }
    }
}

/// Every file a successful install records exists under the system root
/// with bytes whose digest, under the manifest's algorithm, matches the
/// manifest checksum.
pub proof fn lemma_installed_files_match_manifest(
    fs0: Map<Seq<char>, Seq<u8>>,
    pkg: Package,
    m: Map<Seq<char>, Seq<u8>>,
)
    requires
        all_entries_valid(pkg),
        m == fs_after_install(fs0, contents_of(pkg.program@), pkg.files@),
    ensures
        forall|i: int|
            0 <= i < pkg.files@.len() ==> {
                let e = #[trigger] pkg.files@[i];
                &&& m.contains_key(abs_of(e.path))
                &&& crate::validate::algo_of(e.checksum_algorithm) is Some
                &&& crate::checksum::hex_eq_ci(
                    e.checksum,
                    crate::checksum::hex_of(
                        crate::checksum::digest_of(
                            crate::validate::algo_of(e.checksum_algorithm)->0,
                            m[abs_of(e.path)],
                        ),
                    ),
                )
            },
{
    let prog = contents_of(pkg.program@);
    assert forall|i: int| 0 <= i < pkg.files@.len() implies {
        let e = #[trigger] pkg.files@[i];
        &&& m.contains_key(abs_of(e.path))
        &&& crate::validate::algo_of(e.checksum_algorithm) is Some
        &&& crate::checksum::hex_eq_ci(
            e.checksum,
            crate::checksum::hex_of(
                crate::checksum::digest_of(
                    crate::validate::algo_of(e.checksum_algorithm)->0,
                    m[abs_of(e.path)],
                ),
            ),
        )
    } by {
        lemma_install_fold_lookup(fs0, prog, pkg.files@, i);
        assert(pkg.files@[i] == pkg.files.0@[i]@);
        assert(crate::validate::entry_error(pkg.program@, pkg.files.0@[i]) is None);
        assert(prog[pkg.files@[i].path] == pkg.program@[pkg.files@[i].path]@);
    }
}

/// The absolute install paths of a package's manifest.
pub open spec fn install_paths(n: Seq<PkgFileView>) -> Set<Seq<char>> {
    Set::new(|p: Seq<char>| exists|i: int| 0 <= i < n.len() && abs_of((#[trigger] n[i]).path) == p)
}

/// Installing a package and then deleting it leaves the filesystem
/// byte-identical to the pre-install state on every path the package
/// did not claim, and removes every path it did claim — also those that
/// existed before the install.
pub proof fn lemma_install_then_delete(
    fs0: Map<Seq<char>, Seq<u8>>,
    prog: Map<Seq<char>, Seq<u8>>,
    n: Seq<PkgFileView>,
    id: u64,
    m2: Map<Seq<char>, Seq<u8>>,
)
    requires
        m2 == fs_after_remove(
            fs_after_install(fs0, prog, n),
            row_paths(new_file_rows(n, id)),
        ),
    ensures
        m2 == fs0.remove_keys(install_paths(n)),
{
    let m1 = fs_after_install(fs0, prog, n);
    let paths = row_paths(new_file_rows(n, id));
    assert(paths.len() == n.len());
    assert(forall|i: int| 0 <= i < n.len() ==> #[trigger] paths[i] == abs_of(n[i].path));
    let rhs = fs0.remove_keys(install_paths(n));
    assert forall|p: Seq<char>| #[trigger] m2.dom().contains(p) implies rhs.dom().contains(p)
        && m2[p] == rhs[p] by {
        lemma_remove_fold(m1, paths, p);
        if install_paths(n).contains(p) {
            let i = choose|i: int| 0 <= i < n.len() && abs_of((#[trigger] n[i]).path) == p;
            assert(paths[i] == p);
            assert(paths.contains(p));
        } else {
            assert forall|i: int| 0 <= i < n.len() implies abs_of((#[trigger] n[i]).path) != p by {
                if abs_of(n[i].path) == p {
                    assert(install_paths(n).contains(p));
                }
            }
            assert(!paths.contains(p)) by {
                if paths.contains(p) {
                    let j = choose|j: int| 0 <= j < paths.len() && paths[j] == p;
                    assert(abs_of(n[j].path) == p);
                    assert(install_paths(n).contains(p));
                }
            }
            lemma_install_fold_frame(fs0, prog, n, p);
        }
    }
    assert forall|p: Seq<char>| #[trigger] rhs.dom().contains(p) implies m2.dom().contains(p) by {
        assert(fs0.contains_key(p) && !install_paths(n).contains(p));
        assert forall|i: int| 0 <= i < n.len() implies abs_of((#[trigger] n[i]).path) != p by {
            if abs_of(n[i].path) == p {
                assert(install_paths(n).contains(p));
            }
        }
        assert(!paths.contains(p)) by {
            if paths.contains(p) {
                let j = choose|j: int| 0 <= j < paths.len() && paths[j] == p;
                assert(abs_of(n[j].path) == p);
                assert(install_paths(n).contains(p));
            }
        }
        lemma_install_fold_frame(fs0, prog, n, p);
        lemma_remove_fold(m1, paths, p);
    }
    assert(m2 =~= fs0.remove_keys(install_paths(n)));
}

/// A path no action of a plan touches is untouched by applying it.
proof fn lemma_plan_frame(
    fs0: Map<Seq<char>, Seq<u8>>,
    o: Seq<FileRowView>,
    n: Seq<PkgFileView>,
    prog: Map<Seq<char>, Seq<u8>>,
    plan: Seq<FileAction>,
    p: Seq<char>,
)
    requires
        forall|k: int| 0 <= k < plan.len() ==> action_path(#[trigger] plan[k], o, n) != p,
    ensures
        fs_after_plan(fs0, o, n, prog, plan).contains_key(p) == fs0.contains_key(p),
        fs0.contains_key(p) ==> fs_after_plan(fs0, o, n, prog, plan)[p] == fs0[p],
    decreases plan.len(),
{
    if plan.len() > 0 {
        assert(forall|k: int|
            0 <= k < plan.drop_last().len() ==> (#[trigger] plan.drop_last()[k]) == plan[k]);
        lemma_plan_frame(fs0, o, n, prog, plan.drop_last(), p);
        assert(action_path(plan[plan.len() - 1], o, n) != p);
    }
}

/// Across a successful update, a file whose manifest entry carries the
/// same checksum as the installed row is not rewritten: its path maps to
/// exactly the bytes it held before.
pub proof fn lemma_update_keeps_identical_files(
    fs0: Map<Seq<char>, Seq<u8>>,
    o: Seq<FileRowView>,
    n: Seq<PkgFileView>,
    prog: Map<Seq<char>, Seq<u8>>,
    plan: Seq<FileAction>,
    i: int,
)
    requires
        plan_ok(o, n, plan),
        0 <= i < n.len(),
        crate::diff::identical_in(o, n[i]),
        forall|i1: int, i2: int|
            0 <= i1 < i2 < n.len() ==> #[trigger] n[i1].path != #[trigger] n[i2].path,
    ensures
        fs_after_plan(fs0, o, n, prog, plan).contains_key(abs_of(n[i].path)) == fs0.contains_key(
            abs_of(n[i].path),
        ),
        fs0.contains_key(abs_of(n[i].path)) ==> fs_after_plan(fs0, o, n, prog, plan)[abs_of(
            n[i].path,
        )] == fs0[abs_of(n[i].path)],
{
    crate::diff::lemma_identical_files_untouched(o, n, plan, i);
    lemma_plan_frame(fs0, o, n, prog, plan, abs_of(n[i].path));
}

} // verus!



use std::cmp::Ordering;
use lpm_core::catalog::Catalog;
use lpm_core::checksum::{digest_to_hex_string, ChecksumKind};
use lpm_core::diff::FileAction;
use lpm_core::migrations::{
    can_migrate, migrate_database_tables, CORE_TABLES_SQL, INSERT_DEFAULTS_SQL,
    UPDATE_TRIGGERS_SQL,
};
use lpm_core::pipeline::{delete, install, update};
use lpm_core::pkg::{empty_tree, tree_get, tree_insert, Files, Meta, Package, PkgFile, Script};
use lpm_core::validate::start_validate_task;
use lpm_core::version::Version;
use lpm_core::{LpmError, ScriptPhase, ValidationTasks};
use sha2::Digest;

fn sha256_hex(bytes: &[u8]) -> String {
    let digest = sha2::Sha256::digest(bytes);
    let mut s = String::new();
    for b in digest.iter() {
        s.push_str(&format!("{:02x}", b));
    }
    s
}

fn md5_hex(bytes: &[u8]) -> String {
    format!("{:x}", md5::compute(bytes))
}

fn ver(major: u32, minor: u32, patch: u32, tag: Option<&str>) -> Version {
    Version {
        major,
        minor,
        patch,
        tag: tag.map(|t| t.to_string()),
        readable: format!("{}.{}.{}", major, minor, patch),
    }
}

fn pkg(
    name: &str,
    arch: &str,
    version: Version,
    files: Vec<(&str, &str, String)>,
    program: Vec<(&str, &[u8])>,
    scripts: Vec<ScriptPhase>,
) -> Package {
    let mut tree = empty_tree();
    for (path, content) in program {
        tree_insert(&mut tree, path.to_string(), content.to_vec());
    }
    Package {
        path: format!("/var/cache/lpm/{}.lod", name),
        meta: Meta {
            name: name.to_string(),
            description: String::new(),
            maintainer: "someone".to_string(),
            homepage: String::new(),
            arch: arch.to_string(),
            kind: "app".to_string(),
            installed_size: 1,
            license: "MIT".to_string(),
            tags: vec!["cli".to_string()],
            version,
        },
        files: Files(
            files
                .into_iter()
                .map(|(p, a, c)| PkgFile {
                    path: p.to_string(),
                    checksum_algorithm: a.to_string(),
                    checksum: c,
                })
                .collect(),
        ),
        scripts: scripts
            .into_iter()
            .map(|phase| Script { phase, body: "#!/bin/sh\nexit 0\n".to_string() })
            .collect(),
        program: tree,
    }
}

#[test]
fn checksum_kind_round_trip() {
    for kind in [ChecksumKind::Md5, ChecksumKind::Sha256, ChecksumKind::Sha512] {
        let name = kind.as_str();
        let back = ChecksumKind::from_str(name).unwrap();
        assert_eq!(back.as_str(), name);
    }
    assert_eq!(ChecksumKind::Md5.as_str(), "md5");
    assert_eq!(ChecksumKind::Sha256.as_str(), "sha256");
    assert_eq!(ChecksumKind::Sha512.as_str(), "sha512");
}

#[test]
fn checksum_kind_rejects_unknown() {
    assert!(matches!(
        ChecksumKind::from_str("crc32"),
        Err(LpmError::UnsupportedChecksumAlgorithm)
    ));
    assert!(matches!(
        ChecksumKind::from_str("MD5"),
        Err(LpmError::UnsupportedChecksumAlgorithm)
    ));
}

#[test]
fn hex_encoding_of_known_bytes() {
    assert_eq!(digest_to_hex_string(&vec![0x00, 0xab, 0xff]), "00abff");
    assert_eq!(digest_to_hex_string(&vec![]), "");
}

#[test]
fn version_ordering() {
    assert_eq!(ver(1, 0, 0, None).compare(&ver(1, 1, 0, None)), Ordering::Less);
    assert_eq!(ver(2, 0, 0, None).compare(&ver(1, 9, 9, None)), Ordering::Greater);
    assert_eq!(ver(1, 2, 3, None).compare(&ver(1, 2, 3, None)), Ordering::Equal);
    // a stable version orders above a pre-release of the same triple
    assert_eq!(ver(1, 0, 0, Some("beta1")).compare(&ver(1, 0, 0, None)), Ordering::Less);
    assert_eq!(ver(1, 0, 0, None).compare(&ver(1, 0, 0, Some("rc1"))), Ordering::Greater);
}

#[test]
fn migration_of_fresh_catalog_builds_full_schema() {
    let mut cat = Catalog::new();
    migrate_database_tables(&mut cat);
    assert_eq!(cat.user_version, 3);
    assert_eq!(cat.schema_statements.len(), 3);
    assert_eq!(cat.schema_statements[0], CORE_TABLES_SQL);
    assert_eq!(cat.schema_statements[1], UPDATE_TRIGGERS_SQL);
    assert_eq!(cat.schema_statements[2], INSERT_DEFAULTS_SQL);
    for table in [
        "checksum_kinds", "package_kinds", "repositories", "packages", "files", "package_tags",
        "modules",
    ] {
        assert!(cat.schema_statements[0].contains(&format!("CREATE TABLE {} (", table)));
    }
    assert!(cat.schema_statements[0].contains("ON DELETE CASCADE"));
    assert!(cat.schema_statements[1].contains("CREATE TRIGGER repositories_update_trigger"));
    assert!(cat.schema_statements[1].contains("CREATE TRIGGER packages_update_trigger"));
    assert_eq!(cat.checksum_kinds, vec!["md5", "sha256", "sha512"]);
}

#[test]
fn migration_twice_is_a_no_op() {
    let mut cat = Catalog::new();
    migrate_database_tables(&mut cat);
    let version = cat.user_version;
    let statements = cat.schema_statements.clone();
    let kinds = cat.checksum_kinds.clone();
    migrate_database_tables(&mut cat);
    assert_eq!(cat.user_version, version);
    assert_eq!(cat.schema_statements, statements);
    assert_eq!(cat.checksum_kinds, kinds);
    assert!(!can_migrate(&cat, 1));
    assert!(!can_migrate(&cat, 2));
    assert!(!can_migrate(&cat, 3));
}

#[test]
fn migration_from_any_version_reaches_the_same_schema() {
    let mut fresh = Catalog::new();
    migrate_database_tables(&mut fresh);
    let mut partial = Catalog::new();
    let mut version: i64 = 0;
    lpm_core::migrations::create_core_tables(&mut partial, &mut version);
    assert_eq!(partial.user_version, 1);
    migrate_database_tables(&mut partial);
    assert_eq!(partial.user_version, fresh.user_version);
    assert_eq!(partial.schema_statements, fresh.schema_statements);
    assert_eq!(partial.checksum_kinds, fresh.checksum_kinds);
}

#[test]
fn fresh_install_records_file_and_catalog_row() {
    let content = b"hello from pkg-a";
    let digest = sha256_hex(content);
    let p = pkg(
        "pkg-a",
        "any",
        ver(1, 0, 0, None),
        vec![("bin/a", "sha256", digest.clone())],
        vec![("bin/a", content)],
        vec![],
    );
    let mut cat = Catalog::new();
    let mut fs = empty_tree();
    let id = install(&mut cat, &mut fs, &p, "x86_64", 0, 0).unwrap();
    assert_eq!(tree_get(&fs, "/bin/a").unwrap().as_slice(), content);
    assert_eq!(sha256_hex(tree_get(&fs, "/bin/a").unwrap()), digest);
    assert_eq!(cat.packages.len(), 1);
    assert_eq!(cat.packages[0].meta.name, "pkg-a");
    assert_eq!(cat.packages[0].id, id);
    assert_eq!(cat.files.len(), 1);
    assert_eq!(cat.files[0].absolute_path, "/bin/a");
    assert_eq!(cat.files[0].checksum, digest);
    assert_eq!(cat.package_tags.len(), 1);
}

#[test]
fn install_accepts_md5_and_uppercase_hex() {
    let content = b"content checked with md5";
    let digest = md5_hex(content).to_uppercase();
    let p = pkg(
        "pkg-md5",
        "any",
        ver(1, 0, 0, None),
        vec![("bin/m", "MD5", digest)],
        vec![("bin/m", content)],
        vec![],
    );
    assert!(start_validate_task(&p, "x86_64").is_ok());
    assert!(p.start_validations("x86_64").is_ok());
}

#[test]
fn install_with_wrong_digest_changes_nothing() {
    let content = b"real bytes";
    let wrong = sha256_hex(b"other bytes");
    let p = pkg(
        "pkg-a",
        "any",
        ver(1, 0, 0, None),
        vec![("bin/a", "sha256", wrong)],
        vec![("bin/a", content)],
        vec![],
    );
    let mut cat = Catalog::new();
    let mut fs = empty_tree();
    let r = install(&mut cat, &mut fs, &p, "x86_64", 0, 0);
    assert!(matches!(r, Err(LpmError::InvalidPackageFiles)));
    assert!(tree_get(&fs, "/bin/a").is_none());
    assert_eq!(cat.packages.len(), 0);
    assert_eq!(cat.files.len(), 0);
}

#[test]
fn install_rejects_foreign_architecture() {
    let content = b"bytes";
    let p = pkg(
        "pkg-a",
        "mips",
        ver(1, 0, 0, None),
        vec![("bin/a", "sha256", sha256_hex(content))],
        vec![("bin/a", content)],
        vec![],
    );
    let mut cat = Catalog::new();
    let mut fs = empty_tree();
    let r = install(&mut cat, &mut fs, &p, "x86_64", 0, 0);
    assert!(matches!(r, Err(LpmError::UnsupportedArchitecture)));
    assert_eq!(cat.packages.len(), 0);
}

#[test]
fn install_rejects_missing_manifest_file() {
    let p = pkg(
        "pkg-a",
        "any",
        ver(1, 0, 0, None),
        vec![("bin/a", "sha256", sha256_hex(b"x"))],
        vec![],
        vec![],
    );
    let r = start_validate_task(&p, "x86_64");
    assert!(matches!(r, Err(LpmError::MalformedPackage)));
}

#[test]
fn install_rejects_unknown_algorithm() {
    let p = pkg(
        "pkg-a",
        "any",
        ver(1, 0, 0, None),
        vec![("bin/a", "crc32", "00".to_string())],
        vec![("bin/a", b"x")],
        vec![],
    );
    let r = start_validate_task(&p, "x86_64");
    assert!(matches!(r, Err(LpmError::UnsupportedChecksumAlgorithm)));
}

#[test]
fn failing_pre_install_script_leaves_no_trace() {
    let content = b"bytes";
    let p = pkg(
        "pkg-a",
        "any",
        ver(1, 0, 0, None),
        vec![("bin/a", "sha256", sha256_hex(content))],
        vec![("bin/a", content)],
        vec![ScriptPhase::PreInstall],
    );
    let mut cat = Catalog::new();
    let mut fs = empty_tree();
    let r = install(&mut cat, &mut fs, &p, "x86_64", 1, 0);
    match r {
        Err(LpmError::ScriptFailed { phase, code }) => {
            assert_eq!(phase, ScriptPhase::PreInstall);
            assert_eq!(code, 1);
        },
        other => panic!("unexpected result: {:?}", other.err()),
    }
    assert!(tree_get(&fs, "/bin/a").is_none());
    assert_eq!(cat.packages.len(), 0);
}

#[test]
fn installing_twice_reports_already_installed() {
    let content = b"bytes";
    let p = pkg(
        "pkg-a",
        "any",
        ver(1, 0, 0, None),
        vec![("bin/a", "sha256", sha256_hex(content))],
        vec![("bin/a", content)],
        vec![],
    );
    let mut cat = Catalog::new();
    let mut fs = empty_tree();
    install(&mut cat, &mut fs, &p, "x86_64", 0, 0).unwrap();
    let r = install(&mut cat, &mut fs, &p, "x86_64", 0, 0);
    assert!(matches!(r, Err(LpmError::AlreadyInstalled)));
}

#[test]
fn update_to_same_version_is_a_no_op() {
    let content = b"bytes";
    let p = pkg(
        "pkg-a",
        "any",
        ver(1, 1, 0, None),
        vec![("bin/a", "sha256", sha256_hex(content))],
        vec![("bin/a", content)],
        vec![],
    );
    let mut cat = Catalog::new();
    let mut fs = empty_tree();
    install(&mut cat, &mut fs, &p, "x86_64", 0, 0).unwrap();
    let rows_before = cat.files.len();
    let plan = update(&mut cat, &mut fs, "pkg-a", &p, "x86_64", 0, 0).unwrap();
    assert!(plan.is_empty());
    assert_eq!(cat.files.len(), rows_before);
    assert_eq!(tree_get(&fs, "/bin/a").unwrap().as_slice(), content);
}

#[test]
fn update_keeps_identical_file_and_adds_new_one() {
    let content_a = b"unchanged";
    let content_b = b"brand new";
    let digest_a = sha256_hex(content_a);
    let v1 = pkg(
        "pkg-a",
        "any",
        ver(1, 0, 0, None),
        vec![("bin/a", "sha256", digest_a.clone())],
        vec![("bin/a", content_a)],
        vec![],
    );
    let v2 = pkg(
        "pkg-a",
        "any",
        ver(1, 1, 0, None),
        vec![
            ("bin/a", "sha256", digest_a.clone()),
            ("bin/b", "sha256", sha256_hex(content_b)),
        ],
        vec![("bin/a", content_a), ("bin/b", content_b)],
        vec![],
    );
    let mut cat = Catalog::new();
    let mut fs = empty_tree();
    install(&mut cat, &mut fs, &v1, "x86_64", 0, 0).unwrap();
    let plan = update(&mut cat, &mut fs, "pkg-a", &v2, "x86_64", 0, 0).unwrap();
    // the unchanged file is not rewritten: the only action adds bin/b
    assert_eq!(plan.len(), 1);
    assert!(matches!(plan[0], FileAction::Add { new_index: 1 }));
    assert_eq!(tree_get(&fs, "/bin/a").unwrap().as_slice(), content_a);
    assert_eq!(tree_get(&fs, "/bin/b").unwrap().as_slice(), content_b);
    assert_eq!(cat.files.len(), 2);
    assert_eq!(cat.packages.len(), 1);
    assert_eq!(cat.packages[0].meta.version.minor, 1);
}

#[test]
fn update_replaces_changed_file_and_removes_dropped_one() {
    let old_a = b"old a";
    let new_a = b"new a";
    let old_b = b"old b";
    let v1 = pkg(
        "pkg-a",
        "any",
        ver(1, 0, 0, None),
        vec![
            ("bin/a", "sha256", sha256_hex(old_a)),
            ("bin/b", "sha256", sha256_hex(old_b)),
        ],
        vec![("bin/a", old_a), ("bin/b", old_b)],
        vec![],
    );
    let v2 = pkg(
        "pkg-a",
        "any",
        ver(2, 0, 0, None),
        vec![("bin/a", "sha256", sha256_hex(new_a))],
        vec![("bin/a", new_a)],
        vec![],
    );
    let mut cat = Catalog::new();
    let mut fs = empty_tree();
    install(&mut cat, &mut fs, &v1, "x86_64", 0, 0).unwrap();
    let plan = update(&mut cat, &mut fs, "pkg-a", &v2, "x86_64", 0, 0).unwrap();
    assert_eq!(plan.len(), 2);
    assert!(matches!(plan[0], FileAction::Replace { new_index: 0 }));
    assert!(matches!(plan[1], FileAction::Remove { old_index: 1 }));
    assert_eq!(tree_get(&fs, "/bin/a").unwrap().as_slice(), new_a);
    assert!(tree_get(&fs, "/bin/b").is_none());
    assert_eq!(cat.files.len(), 1);
}

#[test]
fn update_of_missing_package_reports_not_installed() {
    let p = pkg("pkg-a", "any", ver(1, 0, 0, None), vec![], vec![], vec![]);
    let mut cat = Catalog::new();
    let mut fs = empty_tree();
    let r = update(&mut cat, &mut fs, "pkg-a", &p, "x86_64", 0, 0);
    assert!(matches!(r, Err(LpmError::NotInstalled)));
}

#[test]
fn delete_removes_files_and_cascades_catalog_rows() {
    let content = b"bytes";
    let p = pkg(
        "pkg-a",
        "any",
        ver(1, 0, 0, None),
        vec![("bin/a", "sha256", sha256_hex(content))],
        vec![("bin/a", content)],
        vec![],
    );
    let mut cat = Catalog::new();
    let mut fs = empty_tree();
    // a pre-existing file the package does not claim
    tree_insert(&mut fs, "/etc/keep".to_string(), b"keep me".to_vec());
    install(&mut cat, &mut fs, &p, "x86_64", 0, 0).unwrap();
    let id = delete(&mut cat, &mut fs, "pkg-a", 0, 0).unwrap();
    assert!(tree_get(&fs, "/bin/a").is_none());
    assert_eq!(tree_get(&fs, "/etc/keep").unwrap().as_slice(), b"keep me");
    assert!(cat.packages.iter().all(|r| r.id != id));
    assert_eq!(cat.packages.len(), 0);
    assert_eq!(cat.files.len(), 0);
    assert_eq!(cat.package_tags.len(), 0);
}

#[test]
fn delete_cascade_leaves_other_packages_alone() {
    let ca = b"a bytes";
    let cb = b"b bytes";
    let pa = pkg(
        "pkg-a",
        "any",
        ver(1, 0, 0, None),
        vec![("bin/a", "sha256", sha256_hex(ca))],
        vec![("bin/a", ca)],
        vec![],
    );
    let pb = pkg(
        "pkg-b",
        "any",
        ver(1, 0, 0, None),
        vec![("bin/b", "sha256", sha256_hex(cb))],
        vec![("bin/b", cb)],
        vec![],
    );
    let mut cat = Catalog::new();
    let mut fs = empty_tree();
    install(&mut cat, &mut fs, &pa, "x86_64", 0, 0).unwrap();
    install(&mut cat, &mut fs, &pb, "x86_64", 0, 0).unwrap();
    delete(&mut cat, &mut fs, "pkg-a", 0, 0).unwrap();
    assert_eq!(cat.packages.len(), 1);
    assert_eq!(cat.packages[0].meta.name, "pkg-b");
    assert_eq!(cat.files.len(), 1);
    assert_eq!(cat.files[0].absolute_path, "/bin/b");
    assert_eq!(cat.package_tags.len(), 1);
    assert_eq!(tree_get(&fs, "/bin/b").unwrap().as_slice(), cb);
}

#[test]
fn delete_of_missing_package_reports_not_installed() {
    let mut cat = Catalog::new();
    let mut fs = empty_tree();
    let r = delete(&mut cat, &mut fs, "pkg-a", 0, 0);
    assert!(matches!(r, Err(LpmError::NotInstalled)));
}

#[test]
fn failing_pre_delete_script_changes_nothing() {
    let content = b"bytes";
    let p = pkg(
        "pkg-a",
        "any",
        ver(1, 0, 0, None),
        vec![("bin/a", "sha256", sha256_hex(content))],
        vec![("bin/a", content)],
        vec![],
    );
    let mut cat = Catalog::new();
    let mut fs = empty_tree();
    install(&mut cat, &mut fs, &p, "x86_64", 0, 0).unwrap();
    let r = delete(&mut cat, &mut fs, "pkg-a", 1, 0);
    match r {
        Err(LpmError::ScriptFailed { phase, code }) => {
            assert_eq!(phase, ScriptPhase::PreDelete);
            assert_eq!(code, 1);
        },
        other => panic!("unexpected result: {:?}", other.err()),
    }
    assert_eq!(tree_get(&fs, "/bin/a").unwrap().as_slice(), content);
    assert_eq!(cat.packages.len(), 1);
}

#[test]
fn install_then_delete_restores_the_filesystem() {
    let content = b"bytes";
    let p = pkg(
        "pkg-a",
        "any",
        ver(1, 0, 0, None),
        vec![("bin/a", "sha256", sha256_hex(content))],
        vec![("bin/a", content)],
        vec![],
    );
    let mut cat = Catalog::new();
    let mut fs = empty_tree();
    tree_insert(&mut fs, "/etc/before".to_string(), b"old".to_vec());
    // a pre-existing file that shares a path with the package: the
    // round trip removes it
    tree_insert(&mut fs, "/bin/a".to_string(), b"pre-existing".to_vec());
    install(&mut cat, &mut fs, &p, "x86_64", 0, 0).unwrap();
    delete(&mut cat, &mut fs, "pkg-a", 0, 0).unwrap();
    assert!(tree_get(&fs, "/bin/a").is_none());
    assert_eq!(tree_get(&fs, "/etc/before").unwrap().as_slice(), b"old");
    assert_eq!(cat.packages.len(), 0);
    assert_eq!(cat.files.len(), 0);
}

#[test]
fn install_rejects_path_owned_by_another_package() {
    let ca = b"a bytes";
    let cb = b"b bytes";
    let pa = pkg(
        "pkg-a",
        "any",
        ver(1, 0, 0, None),
        vec![("bin/shared", "sha256", sha256_hex(ca))],
        vec![("bin/shared", ca)],
        vec![],
    );
    let pb = pkg(
        "pkg-b",
        "any",
        ver(1, 0, 0, None),
        vec![("bin/shared", "sha256", sha256_hex(cb))],
        vec![("bin/shared", cb)],
        vec![],
    );
    let mut cat = Catalog::new();
    let mut fs = empty_tree();
    install(&mut cat, &mut fs, &pa, "x86_64", 0, 0).unwrap();
    let r = install(&mut cat, &mut fs, &pb, "x86_64", 0, 0);
    assert!(matches!(r, Err(LpmError::CatalogIntegrity)));
    assert_eq!(cat.packages.len(), 1);
    assert_eq!(tree_get(&fs, "/bin/shared").unwrap().as_slice(), ca);
}

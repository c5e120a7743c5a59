//! Schema migrations: an append-only, ordered list of numbered steps.
//! Each step runs at most once; the stored schema version names the
//! highest step applied so far.

use vstd::prelude::*;
use crate::catalog::{Catalog, CatalogView};

verus! {

/// How many migration steps exist.
pub const MIGRATION_COUNT: i64 = 3;

/// The first migration step: the core tables.
pub const CORE_TABLES_SQL: &'static str = "\
CREATE TABLE checksum_kinds (\
   id            INTEGER    PRIMARY KEY    AUTOINCREMENT,\
   kind          TEXT       NOT NULL       UNIQUE,\
   created_at    TIMESTAMP  NOT NULL       DEFAULT CURRENT_TIMESTAMP\
);\
CREATE TABLE package_kinds (\
   id            INTEGER    PRIMARY KEY    AUTOINCREMENT,\
   kind          TEXT       NOT NULL       UNIQUE,\
   created_at    TIMESTAMP  NOT NULL       DEFAULT CURRENT_TIMESTAMP\
);\
CREATE TABLE repositories (\
   id               INTEGER    PRIMARY KEY    AUTOINCREMENT,\
   name             TEXT       NOT NULL       UNIQUE,\
   address          TEXT       NOT NULL,\
   index_db_path    TEXT       NOT NULL,\
   is_active        BOOLEAN    NOT NULL       CHECK(is_active IN (0, 1)),\
   created_at       TIMESTAMP  NOT NULL       DEFAULT CURRENT_TIMESTAMP,\
   updated_at       TIMESTAMP  NOT NULL       DEFAULT CURRENT_TIMESTAMP\
);\
CREATE TABLE packages (\
   id                       INTEGER    PRIMARY KEY    AUTOINCREMENT,\
   name                     TEXT       NOT NULL       UNIQUE,\
   description              TEXT,\
   maintainer               TEXT       NOT NULL,\
   homepage                 TEXT,\
   src_pkg_package_id       INTEGER,\
   package_kind_id          INTEGER    NOT_NULL,\
   installed_size           INTEGER    NOT_NULL,\
   license                  TEXT,\
   v_major                  INTEGER    NOT NULL,\
   v_minor                  INTEGER    NOT NULL,\
   v_patch                  INTEGER    NOT NULL,\
   v_tag                    TEXT,\
   v_readable               TEXT       NOT NULL,\
   created_at               TIMESTAMP  NOT NULL       DEFAULT CURRENT_TIMESTAMP,\
   updated_at               TIMESTAMP  NOT NULL       DEFAULT CURRENT_TIMESTAMP,\
   FOREIGN KEY(src_pkg_package_id) REFERENCES packages(id),\
   FOREIGN KEY(package_kind_id) REFERENCES package_kinds(id)\
);\
CREATE TABLE files (\
   id                  INTEGER    PRIMARY KEY    AUTOINCREMENT,\
   name                TEXT       NOT NULL,\
   absolute_path       TEXT       NOT NULL       UNIQUE,\
   checksum            TEXT       NOT NULL,\
   checksum_kind_id    INTEGER    NOT NULL,\
   package_id          INTEGER    NOT NULL,\
   created_at          TIMESTAMP  NOT NULL       DEFAULT CURRENT_TIMESTAMP,\
   FOREIGN KEY(package_id) REFERENCES packages(id) ON DELETE CASCADE,\
   FOREIGN KEY(checksum_kind_id) REFERENCES checksum_kinds(id)\
);\
CREATE TABLE package_tags (\
   id                  INTEGER    PRIMARY KEY    AUTOINCREMENT,\
   tag                 TEXT       NOT NULL,\
   package_id          INTEGER    NOT NULL,\
   created_at          TIMESTAMP  NOT NULL       DEFAULT CURRENT_TIMESTAMP,\
   FOREIGN KEY(package_id) REFERENCES packages(id) ON DELETE CASCADE\
);\
CREATE TABLE modules (\
   id                       INTEGER    PRIMARY KEY    AUTOINCREMENT,\
   name                     TEXT       NOT NULL       UNIQUE,\
   dylib_path               TEXT       NOT NULL\
);";

/// The second migration step: `updated_at` maintenance triggers.
pub const UPDATE_TRIGGERS_SQL: &'static str = "\
CREATE TRIGGER repositories_update_trigger\
    AFTER UPDATE ON repositories\
BEGIN\
    UPDATE repositories SET updated_at = CURRENT_TIMESTAMP WHERE id = NEW.id;\
END;\
CREATE TRIGGER packages_update_trigger\
    AFTER UPDATE ON packages\
BEGIN\
    UPDATE packages SET updated_at = CURRENT_TIMESTAMP WHERE id = NEW.id;\
END;";

/// The third migration step: the seeded checksum kinds.
pub const INSERT_DEFAULTS_SQL: &'static str = "\
INSERT INTO checksum_kinds\
    (kind)\
VALUES\
    ('md5'),\
    ('sha256'),\
    ('sha512');";

/// The statement of the migration step with the given index.
pub open spec fn spec_migration_statement(k: int) -> Seq<char> {
    if k == 1 {
        CORE_TABLES_SQL@
    } else if k == 2 {
        UPDATE_TRIGGERS_SQL@
    } else {
        INSERT_DEFAULTS_SQL@
    }
}

/// The full schema: every migration statement, in order.
pub open spec fn full_schema() -> Seq<Seq<char>> {
    seq![spec_migration_statement(1), spec_migration_statement(2), spec_migration_statement(3)]
}

/// The seeded checksum kind rows.
pub open spec fn seeded_checksum_kinds() -> Seq<Seq<char>> {
    seq!["md5"@, "sha256"@, "sha512"@]
}

/// The migration state of a catalog is consistent: the stored version
/// counts the applied steps, the applied statements are exactly the
/// leading migration statements, and the seed rows are present exactly
/// when the seeding step has run.
pub open spec fn schema_consistent(c: CatalogView) -> bool {
    &&& 0 <= c.user_version <= MIGRATION_COUNT
    &&& c.schema_statements.len() == c.user_version
    &&& forall|k: int|
        0 <= k < c.user_version ==> c.schema_statements[k] == spec_migration_statement(k + 1)
    &&& (c.user_version >= 3 ==> c.checksum_kinds == seeded_checksum_kinds())
    &&& (c.user_version < 3 ==> c.checksum_kinds == Seq::<Seq<char>>::empty())
}

/// What running the whole migration list does to a catalog: every
/// pending step is applied, the rest of the catalog is untouched, and a
/// catalog already at the newest version stays exactly as it is.
pub open spec fn migrate_post(pre: CatalogView, post: CatalogView) -> bool {
    &&& post.user_version == MIGRATION_COUNT
    &&& post.schema_statements == full_schema()
    &&& post.checksum_kinds == seeded_checksum_kinds()
    &&& post.packages == pre.packages
    &&& post.files == pre.files
    &&& post.package_tags == pre.package_tags
    &&& post.next_id == pre.next_id
    &&& (pre.user_version == MIGRATION_COUNT ==> post == pre)
}

/// Whether the step numbered `version` still has to run against this
/// catalog: true exactly when it is newer than the stored version.
pub fn can_migrate(cat: &Catalog, version: i64) -> (r: bool)
    ensures
        r == (version > cat@.user_version),
{
    version > cat.user_version
}

/// Stores the given schema version.
pub fn set_migration_version(cat: &mut Catalog, version: i64)
    ensures
        final(cat)@ == (CatalogView { user_version: version, ..old(cat)@ }),
{
    cat.user_version = version;
    proof {
        assert(cat@ =~~= (CatalogView { user_version: version, ..old(cat)@ }));
    }
}

/// Runs one migration step: skips it when the stored version already
/// covers it, else applies the statement and stores the new version.
fn apply_step(cat: &mut Catalog, version: i64, statement: &str)
    requires
        schema_consistent(old(cat)@),
        1 <= version <= MIGRATION_COUNT,
        statement@ == spec_migration_statement(version as int),
        version <= 2,
        version >= 2 ==> old(cat)@.user_version >= version - 1,
    ensures
        old(cat)@.user_version >= version ==> *final(cat) == *old(cat),
        old(cat)@.user_version < version ==> final(cat)@ == (CatalogView {
            user_version: version,
            schema_statements: old(cat)@.schema_statements.push(statement@),
            ..old(cat)@
        }),
        schema_consistent(final(cat)@),
{
    if can_migrate(cat, version) {
        cat.schema_statements.push(statement.to_owned());
        proof {
            assert(cat@.schema_statements =~= old(cat)@.schema_statements.push(statement@));
        }
        set_migration_version(cat, version);
        proof {
            assert(cat@ =~~= (CatalogView {
                user_version: version,
                schema_statements: old(cat)@.schema_statements.push(statement@),
                ..old(cat)@
            }));
        }
    }
}

/// Seeds the checksum kind rows; the third migration step.
fn apply_seed_step(cat: &mut Catalog)
    requires
        schema_consistent(old(cat)@),
        old(cat)@.user_version >= 2,
    ensures
        schema_consistent(final(cat)@),
        old(cat)@.user_version >= 3 ==> *final(cat) == *old(cat),
        old(cat)@.user_version < 3 ==> final(cat)@ == (CatalogView {
            user_version: 3,
            schema_statements: old(cat)@.schema_statements.push(spec_migration_statement(3)),
            checksum_kinds: seeded_checksum_kinds(),
            ..old(cat)@
        }),
{
    if can_migrate(cat, 3) {
        cat.schema_statements.push(String::from_str(INSERT_DEFAULTS_SQL));
        cat.checksum_kinds.push(String::from_str("md5"));
        cat.checksum_kinds.push(String::from_str("sha256"));
        cat.checksum_kinds.push(String::from_str("sha512"));
        proof {
            assert(old(cat)@.checksum_kinds.len() == 0);
            assert(cat@.checksum_kinds =~~= seeded_checksum_kinds());
            assert(cat@.schema_statements =~= old(cat)@.schema_statements.push(
                spec_migration_statement(3),
            ));
        }
        let ghost mid = cat@;
        set_migration_version(cat, 3);
        proof {
            assert(cat@ == (CatalogView { user_version: 3int as i64, ..mid }));
            assert(cat@ =~~= (CatalogView {
                user_version: 3,
                schema_statements: old(cat)@.schema_statements.push(spec_migration_statement(3)),
                checksum_kinds: seeded_checksum_kinds(),
                ..old(cat)@
            }));
        }
    }
}

/// Creates the core tables; the first migration step.
pub fn create_core_tables(cat: &mut Catalog, version: &mut i64)
    requires
        schema_consistent(old(cat)@),
        *old(version) == 0,
    ensures
        *final(version) == 1,
        schema_consistent(final(cat)@),
        old(cat)@.user_version >= 1 ==> *final(cat) == *old(cat),
        old(cat)@.user_version < 1 ==> final(cat)@ == (CatalogView {
            user_version: 1,
            schema_statements: old(cat)@.schema_statements.push(spec_migration_statement(1)),
            ..old(cat)@
        }),
{
    *version = *version + 1;
    apply_step(cat, *version, CORE_TABLES_SQL);
}

/// Creates the `updated_at` triggers; the second migration step.
pub fn create_update_triggers_for_core_tables(cat: &mut Catalog, version: &mut i64)
    requires
        schema_consistent(old(cat)@),
        old(cat)@.user_version >= 1,
        *old(version) == 1,
    ensures
        *final(version) == 2,
        schema_consistent(final(cat)@),
        old(cat)@.user_version >= 2 ==> *final(cat) == *old(cat),
        old(cat)@.user_version < 2 ==> final(cat)@ == (CatalogView {
            user_version: 2,
            schema_statements: old(cat)@.schema_statements.push(spec_migration_statement(2)),
            ..old(cat)@
        }),
{
    *version = *version + 1;
    apply_step(cat, *version, UPDATE_TRIGGERS_SQL);
}

/// Seeds the default checksum kinds; the third migration step.
pub fn insert_defaults(cat: &mut Catalog, version: &mut i64)
    requires
        schema_consistent(old(cat)@),
        old(cat)@.user_version >= 2,
        *old(version) == 2,
    ensures
        *final(version) == 3,
        schema_consistent(final(cat)@),
        old(cat)@.user_version >= 3 ==> *final(cat) == *old(cat),
        old(cat)@.user_version < 3 ==> final(cat)@ == (CatalogView {
            user_version: 3,
            schema_statements: old(cat)@.schema_statements.push(spec_migration_statement(3)),
            checksum_kinds: seeded_checksum_kinds(),
            ..old(cat)@
        }),
{
    *version = *version + 1;
    apply_seed_step(cat);
}

/// Runs every pending migration step, in order. A catalog that is
/// already at the newest version comes back unchanged; any other
/// consistent catalog ends at the newest version with the full schema.
pub fn migrate_database_tables(cat: &mut Catalog)
    requires
        schema_consistent(old(cat)@),
    ensures
        schema_consistent(final(cat)@),
        migrate_post(old(cat)@, final(cat)@),
{
    let mut initial_version: i64 = 0;
    create_core_tables(cat, &mut initial_version);
    create_update_triggers_for_core_tables(cat, &mut initial_version);
    insert_defaults(cat, &mut initial_version);
    proof {
        assert(cat@.schema_statements =~= full_schema());
    }
}

/// After a successful full migration the catalog accepts no further
/// step: `can_migrate` is false for every step in the list, and running
/// the migrations a second time changes nothing.
pub proof fn lemma_migrations_idempotent(c0: CatalogView, c1: CatalogView, c2: CatalogView)
    requires
        migrate_post(c0, c1),
        migrate_post(c1, c2),
    ensures
        c2 == c1,
        c1.user_version == MIGRATION_COUNT,
{
}

/// Migrating any two consistent catalogs — one freshly created, one
/// already part-migrated — ends in the same schema: the same stored
/// version, statements and seed rows.
pub proof fn lemma_migrations_confluent(
    a0: CatalogView,
    a1: CatalogView,
    b0: CatalogView,
    b1: CatalogView,
)
    requires
        migrate_post(a0, a1),
        migrate_post(b0, b1),
    ensures
        a1.user_version == b1.user_version,
        a1.schema_statements == b1.schema_statements,
        a1.checksum_kinds == b1.checksum_kinds,
{
}

} // verus!

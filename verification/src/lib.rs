//! Core of a Linux package manager: transactional install, update and
//! delete of package artifacts, a relational catalog of installed state
//! with versioned schema migrations, and a manifest validator that holds
//! per-file digests against package contents.

use vstd::prelude::*;

pub mod catalog;
pub mod checksum;
pub mod diff;
pub mod migrations;
pub mod pipeline;
pub mod pkg;
pub mod validate;
pub mod version;

verus! {

/// The phases at which a package lifecycle script may run.
#[derive(Clone, Copy, Debug, PartialEq, Eq, Structural)]
pub enum ScriptPhase {
    PreInstall,
    PostInstall,
    PreUpgrade,
    PostUpgrade,
    PreDowngrade,
    PostDowngrade,
    PreDelete,
    PostDelete,
}

/// Every failure the core can report, each with a distinct identity.
#[derive(Clone, Debug)]
pub enum LpmError {
    MalformedPackage,
    UnsupportedArchitecture,
    UnsupportedChecksumAlgorithm,
    InvalidPackageFiles,
    AlreadyInstalled,
    NotInstalled,
    ScriptFailed { phase: ScriptPhase, code: i32 },
    CatalogBusy,
    CatalogIntegrity,
    MigrationError,
    Io,
    PartialFailure,
}

/// The staged-extraction steps a package artifact goes through on its
/// way from an archive on disk to a staging directory; the host binds
/// them to its archive handling.
pub trait ExtractionTasks {
    fn start_extraction(&mut self) -> Result<(), LpmError>;

    fn get_pkg_output_path(&self) -> String;

    fn half_extract(&self) -> Result<(), LpmError>;

    fn extract_meta_and_program(&self) -> Result<(), LpmError>;

    fn read_pkg_data(&mut self);

    fn cleanup(&self) -> Result<(), LpmError>;
}

/// The steps that place a staged package onto the system; the host
/// binds them to its filesystem handling.
pub trait InstallationTasks {
    fn start_installation(&mut self) -> Result<(), LpmError>;

    fn install_program(&self) -> Result<(), LpmError>;
}

/// Validation of a staged package against the host architecture.
pub trait ValidationTasks {
    fn start_validations(&self, host_arch: &str) -> Result<(), LpmError>;
}

} // verus!

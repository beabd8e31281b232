//! Installs WebDriver executables: finds the installed browser and its version,
//! resolves the matching driver release, builds its download address, and takes the
//! driver executable out of the downloaded archive.
//!
//! The network, the file system and child processes stay with the caller: an
//! [`installer::Install`] says step by step what to fetch or write next, and takes
//! back what came of it.
pub mod archive;
pub mod chromedriver;
pub mod error;
pub mod geckodriver;
pub mod installer;
pub mod location;
pub mod platform;
pub mod text;
pub mod urls;
pub mod version;

pub use archive::{extract, ArchiveKind, ExtractedEntry};
pub use chromedriver::Chromedriver;
pub use error::{Error, TargetProblem};
pub use geckodriver::Geckodriver;
pub use installer::{Action, Driver, Install, Stage};
pub use location::Location;
pub use platform::{Os, Platform};
pub use version::Version;

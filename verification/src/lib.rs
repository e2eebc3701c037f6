//! A verified core for a package-manager version manager: specifier parsing
//! and rendering, registry version resolution, artifact integrity and
//! signature checking, and the cache and fetch bookkeeping built on them.
//!
//! The surrounding I/O — HTTP, the filesystem, process spawning — lives
//! outside this crate and talks to it through plain values: the library
//! decides, the caller performs.

pub mod cache;
pub mod errors;
pub mod integrity;
pub mod order;
pub mod package_json;
pub mod pipeline;
pub mod policy;
pub mod range;
pub mod registry;
pub mod signature;
pub mod specifier;
pub mod text;
pub mod urls;
pub mod version;

pub use cache::CacheIndex;
pub use errors::Error;
pub use integrity::SpecVersionIntegrity;
pub use package_json::{DevEngines, DevEnginesPackageManager, PackageJson, PackageJsonBinOnly};
pub use pipeline::{FetchAction, FetchEvent, FetchMachine, FetchState};
pub use registry::{NpmPackage, NpmVersion, NpmVersionDist, NpmVersionSignature};
pub use signature::{npm_registry_public_keys, NpmRegistryPublicKey, RegistryConfig};
pub use specifier::{Spec, SpecBin, SpecName, SpecVersion};
pub use version::SemVer;

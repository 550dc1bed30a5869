//! Author and check Alexandria `.atool` / `.aagent` packages.
//!
//! - [`Manifest`] and its parts in [`manifest`], rendered to JSON through [`json`]
//! - schema rules [`validate`] / [`assert_valid`] in [`schema`]
//! - pack / verify / inspect in [`pack`]
//! - fluent builders ([`Tool`], [`Agent`], [`Skill`], [`Bundle`]) in [`builders`]
//! - manifest migration from v1 to v2 in [`migrate`]
//! - the multipart request of a registry upload in [`publish`]
pub mod builders;
pub mod error;
pub mod json;
pub mod manifest;
pub mod migrate;
pub mod pack;
pub mod publish;
pub mod schema;

pub use builders::{Agent, Bundle, Skill, Tool};
pub use error::Error;
pub use json::{JsonNumber, JsonValue};
pub use manifest::{
    AagentConfig, AtoolConfig, BundleConfig, ComponentItem, CredentialDecl, Dependency, EnvDecl,
    FileEntry, InlineComponent, InlineComponentKind, InlineConfig, InstallBlock, InstallFlatten,
    K8sHints, K8sResourceSpec, K8sResources, Kind, LockEntry, Manifest, McpConfig, McpTransport,
    PackageConfig, PackageDep, Permissions, PromptMode, RefComponent, Rotation, SignatureBlock,
    ToolK8sTransport, WireTransport,
};
pub use migrate::{migrate_manifest, MigrateResult};
pub use pack::{inspect, pack, verify, InspectResult, InspectedFile};
pub use publish::{build_multipart, publish_with, PublishOptions, PublishResult, Transport};
pub use schema::{assert_valid, validate, ValidationError};

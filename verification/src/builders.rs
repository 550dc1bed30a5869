//! Fluent builders for packages.
//!
//! Each builder owns the manifest being written plus the staged source files
//! (`(archive_path, source path)` pairs). All chainable setters take `self`
//! and return `Self`, so that `Agent::new(..).description(..).system_prompt(..)`
//! needs no intermediate bindings; `build` validates and hands back the
//! manifest.
use vstd::prelude::*;

use crate::error::Error;
use crate::manifest::{
    AagentConfig, AtoolConfig, BundleConfig, ComponentItem, CredentialDecl, Dependency, EnvDecl,
    FileEntry, InlineComponent, InlineComponentKind, InlineConfig, InstallBlock, InstallFlatten,
    K8sHints, K8sResources, Kind, LockEntry, Manifest, McpConfig, McpTransport, PackageConfig,
    PackageDep, Permissions, PromptMode, RefComponent, SignatureBlock, ToJson, ToolK8sTransport,
    WireTransport,
};
use crate::json::JsonValue;
use crate::schema::{assert_valid, schema_text, valid_manifest, violations};

verus! {

/// The elements of an optional list (none when absent).
pub open spec fn opt_seq<T>(v: Option<Vec<T>>) -> Seq<T> {
    match v {
        Some(w) => w@,
        None => Seq::empty(),
    }
}

/// An empty permissions block.
pub open spec fn empty_permissions() -> Permissions {
    Permissions { provides_tools: None, needs_tools: None, suggested_role: None }
}

/// The permissions block, or an empty one.
pub open spec fn perms_or_empty(p: Option<Permissions>) -> Permissions {
    match p {
        Some(x) => x,
        None => empty_permissions(),
    }
}

/// The model of the staged source files.
pub open spec fn staged_view(s: Seq<(String, String)>) -> Seq<(Seq<char>, Seq<char>)> {
    Seq::new(s.len(), |i: int| (s[i].0@, s[i].1@))
}

/// Append `x` to an optional list, creating the list when absent.
pub fn push_to<T>(v: Option<Vec<T>>, x: T) -> (r: Option<Vec<T>>)
    ensures
        r matches Some(w) && w@ == opt_seq(v).push(x),
{
    match v {
        Some(mut w) => {
            w.push(x);
            Some(w)
        },
        None => {
            let mut w: Vec<T> = Vec::new();
            w.push(x);
            assert(w@ =~= opt_seq(v).push(x));
            Some(w)
        },
    }
}

fn permissions_or_empty(p: Option<Permissions>) -> (r: Permissions)
    ensures
        r == perms_or_empty(p),
{
    match p {
        Some(x) => x,
        None => Permissions { provides_tools: None, needs_tools: None, suggested_role: None },
    }
}

/// Validate a manifest's JSON form and hand the manifest back when it is valid.
fn checked(m: Manifest) -> (r: Result<Manifest, Error>)
    ensures
        r is Ok <==> valid_manifest(m.json()),
        r matches Ok(x) ==> x == m,
        r matches Err(e) ==> e is Schema && e->Schema_0@ == schema_text(violations(m.json())),
{
    let j = m.to_json();
    match assert_valid(&j) {
        Ok(()) => Ok(m),
        Err(e) => Err(e),
    }
}

/// The manifest fields every builder shares, and the staged files.
struct Inner {
    schema_version: String,
    name: String,
    version: String,
    description: String,
    author: Option<String>,
    license: Option<String>,
    requires_alexandria: Option<String>,
    dependencies: Option<Vec<Dependency>>,
    extends: Option<Vec<PackageDep>>,
    lockfile: Option<Vec<LockEntry>>,
    files: Option<Vec<FileEntry>>,
    permissions: Option<Permissions>,
    components: Option<Vec<ComponentItem>>,
    install: Option<InstallBlock>,
    signature: Option<SignatureBlock>,
    staged: Vec<(String, String)>,
}


/// The manifest made of the shared fields, a kind and a config.
spec fn assemble(i: Inner, kind: Kind, config: PackageConfig) -> Manifest {
    Manifest {
        schema_version: i.schema_version,
        name: i.name,
        version: i.version,
        kind,
        description: i.description,
        author: i.author,
        license: i.license,
        requires_alexandria: i.requires_alexandria,
        dependencies: i.dependencies,
        extends: i.extends,
        lockfile: i.lockfile,
        files: i.files,
        permissions: i.permissions,
        config,
        components: i.components,
        install: i.install,
        signature: i.signature,
    }
}

impl Inner {
    fn new(name: &str, version: &str) -> (r: Inner)
        ensures
            r.schema_version@ == "2"@,
            r.name@ == name@,
            r.version@ == version@,
            r.description@ == Seq::<char>::empty(),
            r.author is None,
            r.license is None,
            r.requires_alexandria is None,
            r.dependencies is None,
            r.extends is None,
            r.lockfile is None,
            r.files is None,
            r.permissions is None,
            r.components is None,
            r.install is None,
            r.signature is None,
            r.staged@.len() == 0,
    {
        Inner {
            schema_version: String::from_str("2"),
            name: String::from_str(name),
            version: String::from_str(version),
            description: String::new(),
            author: None,
            license: None,
            requires_alexandria: None,
            dependencies: None,
            extends: None,
            lockfile: None,
            files: None,
            permissions: None,
            components: None,
            install: None,
            signature: None,
            staged: Vec::new(),
        }
    }

    fn into_manifest(self, kind: Kind, config: PackageConfig) -> (m: Manifest)
        ensures
            m == assemble(self, kind, config),
    {
        Manifest {
            schema_version: self.schema_version,
            name: self.name,
            version: self.version,
            kind,
            description: self.description,
            author: self.author,
            license: self.license,
            requires_alexandria: self.requires_alexandria,
            dependencies: self.dependencies,
            extends: self.extends,
            lockfile: self.lockfile,
            files: self.files,
            permissions: self.permissions,
            config,
            components: self.components,
            install: self.install,
            signature: self.signature,
        }
    }

    fn set_description(self, d: &str) -> (r: Inner)
        ensures
            r.description@ == d@,
            r == (Inner { description: r.description, ..self }),
    {
        Inner { description: String::from_str(d), ..self }
    }

    fn set_author(self, a: &str) -> (r: Inner)
        ensures
            r.author matches Some(s) && s@ == a@,
            r == (Inner { author: r.author, ..self }),
    {
        Inner { author: Some(String::from_str(a)), ..self }
    }

    fn set_license(self, l: &str) -> (r: Inner)
        ensures
            r.license matches Some(s) && s@ == l@,
            r == (Inner { license: r.license, ..self }),
    {
        Inner { license: Some(String::from_str(l)), ..self }
    }

    fn set_requires_alexandria(self, v: &str) -> (r: Inner)
        ensures
            r.requires_alexandria matches Some(s) && s@ == v@,
            r == (Inner { requires_alexandria: r.requires_alexandria, ..self }),
    {
        Inner { requires_alexandria: Some(String::from_str(v)), ..self }
    }

    fn add_dependency(self, d: Dependency) -> (r: Inner)
        ensures
            r.dependencies matches Some(v) && v@ == opt_seq(self.dependencies).push(d),
            r == (Inner { dependencies: r.dependencies, ..self }),
    {
        let ds = push_to(self.dependencies, d);
        Inner { dependencies: ds, ..self }
    }

    fn set_dependencies(self, ds: Vec<Dependency>) -> (r: Inner)
        ensures
            r == (Inner { dependencies: Some(ds), ..self }),
    {
        Inner { dependencies: Some(ds), ..self }
    }

    fn add_file(self, f: FileEntry) -> (r: Inner)
        ensures
            r.files matches Some(v) && v@ == opt_seq(self.files).push(f),
            r == (Inner { files: r.files, ..self }),
    {
        let fs = push_to(self.files, f);
        Inner { files: fs, ..self }
    }

    fn set_files(self, fs: Vec<FileEntry>) -> (r: Inner)
        ensures
            r == (Inner { files: Some(fs), ..self }),
    {
        Inner { files: Some(fs), ..self }
    }

    fn set_provides_tools(self, t: Vec<String>) -> (r: Inner)
        ensures
            r == (Inner {
                permissions: Some((Permissions { provides_tools: Some(t), ..perms_or_empty(self.permissions) })),
                ..self
            }),
    {
        let p = permissions_or_empty(self.permissions);
        Inner { permissions: Some(Permissions { provides_tools: Some(t), ..p }), ..self }
    }

    fn set_needs_tools(self, t: Vec<String>) -> (r: Inner)
        ensures
            r == (Inner {
                permissions: Some((Permissions { needs_tools: Some(t), ..perms_or_empty(self.permissions) })),
                ..self
            }),
    {
        let p = permissions_or_empty(self.permissions);
        Inner { permissions: Some(Permissions { needs_tools: Some(t), ..p }), ..self }
    }

    fn set_suggested_role(self, role: &str) -> (r: Inner)
        ensures
            r.permissions matches Some(p) && p.suggested_role matches Some(s) && s@ == role@,
            r.permissions matches Some(p) && p == (Permissions {
                suggested_role: p.suggested_role,
                ..perms_or_empty(self.permissions)
            }),
            r == (Inner { permissions: r.permissions, ..self }),
    {
        let p = permissions_or_empty(self.permissions);
        Inner {
            permissions: Some(Permissions { suggested_role: Some(String::from_str(role)), ..p }),
            ..self
        }
    }

    fn stage(self, src_path: &str, archive_path: &str, install_path: &str, executable: bool) -> (r: Inner)
        ensures
            r.files matches Some(v) && v@.len() == opt_seq(self.files).len() + 1
                && v@.drop_last() == opt_seq(self.files)
                && v@.last().archive_path@ == archive_path@
                && v@.last().install_path@ == install_path@
                && v@.last().executable == Some(executable)
                && v@.last().sha256 is None,
            r == (Inner { files: r.files, staged: r.staged, ..self }),
            staged_view(r.staged@) == staged_view(self.staged@).push((archive_path@, src_path@)),
    {
        let mut staged = self.staged;
        let ghost st0 = staged@;
        staged.push((String::from_str(archive_path), String::from_str(src_path)));
        assert(staged_view(staged@) =~= staged_view(st0).push((archive_path@, src_path@)));
        let entry = FileEntry {
            archive_path: String::from_str(archive_path),
            install_path: String::from_str(install_path),
            executable: Some(executable),
            sha256: None,
        };
        let fs = push_to(self.files, entry);
        proof {
            let v = fs->Some_0@;
            assert(v.drop_last() =~= opt_seq(self.files));
        }
        Inner { files: fs, staged, ..self }
    }
}

/// A new aagent config with an empty prompt.
fn empty_aagent_config() -> (c: AagentConfig)
    ensures
        c.system_prompt@ == Seq::<char>::empty(),
        c.allowed_tools is None,
        c.model is None,
        c.history_limit is None,
        c.prompt_mode is None,
{
    AagentConfig {
        system_prompt: String::new(),
        allowed_tools: None,
        model: None,
        history_limit: None,
        prompt_mode: None,
    }
}

/// The inline component made of a child manifest's parts.
pub open spec fn inline_from(name: String, id: String, c: AagentConfig, m: Manifest) -> InlineComponent {
    InlineComponent {
        name,
        id,
        kind: InlineComponentKind::Aagent,
        config: InlineConfig::Aagent(c),
        components: m.components,
        files: m.files,
        permissions: m.permissions,
        dependencies: m.dependencies,
    }
}

/// `x` is the inline component `name`, `id` made of `c` and the child's parts.
pub open spec fn is_inline_of(x: ComponentItem, name: Seq<char>, id: Seq<char>, c: AagentConfig, child: Manifest) -> bool {
    match x {
        ComponentItem::Inline(ic) => ic.name@ == name && ic.id@ == id && ic == inline_from(ic.name, ic.id, c, child),
        _ => false,
    }
}

/// `new` is `old` with one more component at its end.
pub open spec fn appended(old: Option<Vec<ComponentItem>>, new: Option<Vec<ComponentItem>>) -> bool {
    match new {
        Some(v) => v@.len() == opt_seq(old).len() + 1 && v@.drop_last() == opt_seq(old),
        None => false,
    }
}

/// The last component of a list.
pub open spec fn last_component(v: Option<Vec<ComponentItem>>) -> ComponentItem {
    v->Some_0@.last()
}

/// `x` is a reference to `target`.
pub open spec fn is_ref_to(x: ComponentItem, target: Seq<char>) -> bool {
    match x {
        ComponentItem::Ref(rc) => rc.ref_target@ == target,
        _ => false,
    }
}

/// Builder for `kind: aagent` packages.
pub struct Agent {
    inner: Inner,
    config: AagentConfig,
}

impl Agent {
    /// The manifest this builder describes.
    pub closed spec fn manifest_spec(&self) -> Manifest {
        assemble(self.inner, Kind::Aagent, PackageConfig::Aagent(self.config))
    }

    /// The aagent config this builder describes.
    pub closed spec fn config_spec(&self) -> AagentConfig {
        self.config
    }

    /// The staged source files.
    pub closed spec fn staged_spec(&self) -> Seq<(Seq<char>, Seq<char>)> {
        staged_view(self.inner.staged@)
    }

    /// The config is the aagent config, under kind aagent.
    pub broadcast proof fn lemma_shape(a: Agent)
        ensures
            #[trigger] a.manifest_spec().kind == Kind::Aagent,
            a.manifest_spec().config == PackageConfig::Aagent(a.config_spec()),
    {
    }

    fn into_manifest(self) -> (m: Manifest)
        ensures
            m == self.manifest_spec(),
    {
        self.inner.into_manifest(Kind::Aagent, PackageConfig::Aagent(self.config))
    }

    /// A new aagent package with an empty description and prompt.
    pub fn new(name: &str, version: &str) -> (r: Agent)
        ensures
            r.manifest_spec().schema_version@ == "2"@,
            r.manifest_spec().name@ == name@,
            r.manifest_spec().version@ == version@,
            r.manifest_spec().kind == Kind::Aagent,
            r.manifest_spec().description@ == Seq::<char>::empty(),
            r.config_spec().system_prompt@ == Seq::<char>::empty(),
            r.config_spec().allowed_tools is None,
            r.config_spec().model is None,
            r.config_spec().history_limit is None,
            r.config_spec().prompt_mode is None,
            r.manifest_spec().config == PackageConfig::Aagent(r.config_spec()),
            r.manifest_spec().author is None && r.manifest_spec().license is None
                && r.manifest_spec().requires_alexandria is None
                && r.manifest_spec().dependencies is None && r.manifest_spec().extends is None
                && r.manifest_spec().lockfile is None && r.manifest_spec().files is None
                && r.manifest_spec().permissions is None && r.manifest_spec().components is None
                && r.manifest_spec().install is None && r.manifest_spec().signature is None,
            r.staged_spec().len() == 0,
    {
        Agent { inner: Inner::new(name, version), config: empty_aagent_config() }
    }

    fn with_config(self, c: AagentConfig) -> (r: Agent)
        ensures
            r.config_spec() == c,
            r.manifest_spec() == (Manifest { config: PackageConfig::Aagent(c), ..self.manifest_spec() }),
            r.staged_spec() == self.staged_spec(),
    {
        Agent { config: c, ..self }
    }

    /// Set the system prompt.
    pub fn system_prompt(self, s: &str) -> (r: Agent)
        ensures
            r.config_spec().system_prompt@ == s@,
            r.config_spec() == (AagentConfig { system_prompt: r.config_spec().system_prompt, ..self.config_spec() }),
            r.manifest_spec() == (Manifest { config: PackageConfig::Aagent(r.config_spec()), ..self.manifest_spec() }),
            r.staged_spec() == self.staged_spec(),
    {
        let c = AagentConfig { system_prompt: String::from_str(s), ..self.config };
        Agent { config: c, ..self }
    }

    /// Set the tools the agent may call.
    pub fn allowed_tools(self, t: Vec<String>) -> (r: Agent)
        ensures
            r.config_spec() == (AagentConfig { allowed_tools: Some(t), ..self.config_spec() }),
            r.manifest_spec() == (Manifest { config: PackageConfig::Aagent(r.config_spec()), ..self.manifest_spec() }),
            r.staged_spec() == self.staged_spec(),
    {
        let c = AagentConfig { allowed_tools: Some(t), ..self.config };
        Agent { config: c, ..self }
    }

    /// Set the preferred model backend id.
    pub fn model(self, m: &str) -> (r: Agent)
        ensures
            r.config_spec().model matches Some(s) && s@ == m@,
            r.config_spec() == (AagentConfig { model: r.config_spec().model, ..self.config_spec() }),
            r.manifest_spec() == (Manifest { config: PackageConfig::Aagent(r.config_spec()), ..self.manifest_spec() }),
            r.staged_spec() == self.staged_spec(),
    {
        let c = AagentConfig { model: Some(String::from_str(m)), ..self.config };
        Agent { config: c, ..self }
    }

    /// Set how many past turns the agent keeps.
    pub fn history_limit(self, n: u32) -> (r: Agent)
        ensures
            r.config_spec() == (AagentConfig { history_limit: Some(n), ..self.config_spec() }),
            r.manifest_spec() == (Manifest { config: PackageConfig::Aagent(r.config_spec()), ..self.manifest_spec() }),
            r.staged_spec() == self.staged_spec(),
    {
        let c = AagentConfig { history_limit: Some(n), ..self.config };
        Agent { config: c, ..self }
    }

    /// Set how the prompt composes with `extends` bases.
    pub fn prompt_mode(self, m: PromptMode) -> (r: Agent)
        ensures
            r.config_spec() == (AagentConfig { prompt_mode: Some(m), ..self.config_spec() }),
            r.manifest_spec() == (Manifest { config: PackageConfig::Aagent(r.config_spec()), ..self.manifest_spec() }),
            r.staged_spec() == self.staged_spec(),
    {
        let c = AagentConfig { prompt_mode: Some(m), ..self.config };
        Agent { config: c, ..self }
    }

    /// Append a base package this aagent extends.
    pub fn extend(self, base: PackageDep) -> (r: Agent)
        ensures
            r.manifest_spec().extends matches Some(v) && v@ == opt_seq(self.manifest_spec().extends).push(base),
            r.manifest_spec() == (Manifest { extends: r.manifest_spec().extends, ..self.manifest_spec() }),
            r.config_spec() == self.config_spec(),
            r.staged_spec() == self.staged_spec(),
    {
        let e = push_to(self.inner.extends, base);
        Agent { inner: Inner { extends: e, ..self.inner }, ..self }
    }

    /// Replace the list of base packages.
    pub fn extends_packages(self, bases: Vec<PackageDep>) -> (r: Agent)
        ensures
            r.manifest_spec() == (Manifest { extends: Some(bases), ..self.manifest_spec() }),
            r.config_spec() == self.config_spec(),
            r.staged_spec() == self.staged_spec(),
    {
        Agent { inner: Inner { extends: Some(bases), ..self.inner }, ..self }
    }

    /// Append a resolved inheritance lockfile entry.
    pub fn lock(self, entry: LockEntry) -> (r: Agent)
        ensures
            r.manifest_spec().lockfile matches Some(v) && v@ == opt_seq(self.manifest_spec().lockfile).push(entry),
            r.manifest_spec() == (Manifest { lockfile: r.manifest_spec().lockfile, ..self.manifest_spec() }),
            r.config_spec() == self.config_spec(),
            r.staged_spec() == self.staged_spec(),
    {
        let l = push_to(self.inner.lockfile, entry);
        Agent { inner: Inner { lockfile: l, ..self.inner }, ..self }
    }

    /// Replace the inheritance lockfile.
    pub fn lockfile(self, entries: Vec<LockEntry>) -> (r: Agent)
        ensures
            r.manifest_spec() == (Manifest { lockfile: Some(entries), ..self.manifest_spec() }),
            r.config_spec() == self.config_spec(),
            r.staged_spec() == self.staged_spec(),
    {
        Agent { inner: Inner { lockfile: Some(entries), ..self.inner }, ..self }
    }

    fn push_inline(self, name: &str, id: &str, c: AagentConfig, child: Manifest) -> (r: Agent)
        ensures
            appended(self.manifest_spec().components, r.manifest_spec().components),
            is_inline_of(last_component(r.manifest_spec().components), name@, id@, c, child),
            r.manifest_spec() == (Manifest { components: r.manifest_spec().components, ..self.manifest_spec() }),
            r.config_spec() == self.config_spec(),
            r.staged_spec() == self.staged_spec(),
    {
        let inline = InlineComponent {
            name: String::from_str(name),
            id: String::from_str(id),
            kind: InlineComponentKind::Aagent,
            config: InlineConfig::Aagent(c),
            components: child.components,
            files: child.files,
            permissions: child.permissions,
            dependencies: child.dependencies,
        };
        let comps = push_to(self.inner.components, ComponentItem::Inline(inline));
        proof {
            let v = comps->Some_0@;
            assert(v.drop_last() =~= opt_seq(self.inner.components));
        }
        Agent { inner: Inner { components: comps, ..self.inner }, ..self }
    }

    /// Append an inline sub-agent to the components; `name` is the local label
    /// and `id` the canonical `ns/name@version`. Fails when the child's
    /// manifest is invalid.
    pub fn component(self, name: &str, id: &str, child: Agent) -> (r: Result<Agent, Error>)
        ensures
            r is Ok <==> valid_manifest(child.manifest_spec().json()),
            r matches Err(e) ==> e is Schema && e->Schema_0@ == schema_text(violations(child.manifest_spec().json())),
            r matches Ok(a) ==> {
                &&& appended(self.manifest_spec().components, a.manifest_spec().components)
                &&& is_inline_of(last_component(a.manifest_spec().components), name@, id@, child.config_spec(), child.manifest_spec())
                &&& a.manifest_spec() == (Manifest { components: a.manifest_spec().components, ..self.manifest_spec() })
                &&& a.config_spec() == self.config_spec()
                &&& a.staged_spec() == self.staged_spec()
            },
    {
        let ghost cc = child.config_spec();
        let m = match child.build() {
            Ok(m) => m,
            Err(e) => return Err(e),
        };
        match m.config {
            PackageConfig::Aagent(c) => {
                let rest = Manifest { config: PackageConfig::Aagent(AagentConfig { system_prompt: String::new(), allowed_tools: None, model: None, history_limit: None, prompt_mode: None }), ..m };
                Ok(self.push_inline(name, id, c, rest))
            },
            _ => {
                proof {
                    assert(false);
                }
                Err(Error::Schema(String::new()))
            },
        }
    }

    /// Append an inline sub-skill to the components (an aagent too).
    pub fn component_skill(self, name: &str, id: &str, child: Skill) -> (r: Result<Agent, Error>)
        ensures
            r is Ok <==> valid_manifest(child.manifest_spec().json()),
            r matches Err(e) ==> e is Schema && e->Schema_0@ == schema_text(violations(child.manifest_spec().json())),
            r matches Ok(a) ==> {
                &&& appended(self.manifest_spec().components, a.manifest_spec().components)
                &&& is_inline_of(last_component(a.manifest_spec().components), name@, id@, child.config_spec(), child.manifest_spec())
                &&& a.manifest_spec() == (Manifest { components: a.manifest_spec().components, ..self.manifest_spec() })
                &&& a.config_spec() == self.config_spec()
                &&& a.staged_spec() == self.staged_spec()
            },
    {
        let m = match child.build() {
            Ok(m) => m,
            Err(e) => return Err(e),
        };
        match m.config {
            PackageConfig::Aagent(c) => {
                let rest = Manifest { config: PackageConfig::Aagent(AagentConfig { system_prompt: String::new(), allowed_tools: None, model: None, history_limit: None, prompt_mode: None }), ..m };
                Ok(self.push_inline(name, id, c, rest))
            },
            _ => {
                proof {
                    assert(false);
                }
                Err(Error::Schema(String::new()))
            },
        }
    }

    /// Append an external reference component (`ns/name@version`, any kind).
    pub fn ref_component(self, ns_name_at_version: &str) -> (r: Agent)
        ensures
            appended(self.manifest_spec().components, r.manifest_spec().components),
            is_ref_to(last_component(r.manifest_spec().components), ns_name_at_version@),
            r.manifest_spec() == (Manifest { components: r.manifest_spec().components, ..self.manifest_spec() }),
            r.config_spec() == self.config_spec(),
            r.staged_spec() == self.staged_spec(),
    {
        let item = ComponentItem::Ref(RefComponent { ref_target: String::from_str(ns_name_at_version) });
        let comps = push_to(self.inner.components, item);
        proof {
            let v = comps->Some_0@;
            assert(v.drop_last() =~= opt_seq(self.inner.components));
        }
        Agent { inner: Inner { components: comps, ..self.inner }, ..self }
    }

    /// Set the install-time flatten rules.
    pub fn flatten(self, f: InstallFlatten) -> (r: Agent)
        ensures
            r.manifest_spec() == (Manifest { install: Some((InstallBlock { flatten: Some(f) })), ..self.manifest_spec() }),
            r.config_spec() == self.config_spec(),
            r.staged_spec() == self.staged_spec(),
    {
        Agent { inner: Inner { install: Some(InstallBlock { flatten: Some(f) }), ..self.inner }, ..self }
    }

    /// Set the package's free-text description (the schema requires it).
    pub fn description(self, d: &str) -> (r: Self)
        ensures
            r.manifest_spec().description@ == d@,
            r.manifest_spec() == (Manifest { description: r.manifest_spec().description, ..self.manifest_spec() }),
            r.staged_spec() == self.staged_spec(),
    {
        Agent { inner: self.inner.set_description(d), ..self }
    }

    /// Set the author.
    pub fn author(self, a: &str) -> (r: Self)
        ensures
            r.manifest_spec().author matches Some(s) && s@ == a@,
            r.manifest_spec() == (Manifest { author: r.manifest_spec().author, ..self.manifest_spec() }),
            r.staged_spec() == self.staged_spec(),
    {
        Agent { inner: self.inner.set_author(a), ..self }
    }

    /// Set the license.
    pub fn license(self, l: &str) -> (r: Self)
        ensures
            r.manifest_spec().license matches Some(s) && s@ == l@,
            r.manifest_spec() == (Manifest { license: r.manifest_spec().license, ..self.manifest_spec() }),
            r.staged_spec() == self.staged_spec(),
    {
        Agent { inner: self.inner.set_license(l), ..self }
    }

    /// Set the Alexandria version requirement.
    pub fn requires_alexandria(self, v: &str) -> (r: Self)
        ensures
            r.manifest_spec().requires_alexandria matches Some(s) && s@ == v@,
            r.manifest_spec() == (Manifest { requires_alexandria: r.manifest_spec().requires_alexandria, ..self.manifest_spec() }),
            r.staged_spec() == self.staged_spec(),
    {
        Agent { inner: self.inner.set_requires_alexandria(v), ..self }
    }

    /// Append a dependency.
    pub fn dependency(self, d: Dependency) -> (r: Self)
        ensures
            r.manifest_spec().dependencies matches Some(v) && v@ == opt_seq(self.manifest_spec().dependencies).push(d),
            r.manifest_spec() == (Manifest { dependencies: r.manifest_spec().dependencies, ..self.manifest_spec() }),
            r.staged_spec() == self.staged_spec(),
    {
        Agent { inner: self.inner.add_dependency(d), ..self }
    }

    /// Replace the dependency list.
    pub fn dependencies(self, ds: Vec<Dependency>) -> (r: Self)
        ensures
            r.manifest_spec() == (Manifest { dependencies: Some(ds), ..self.manifest_spec() }),
            r.staged_spec() == self.staged_spec(),
    {
        Agent { inner: self.inner.set_dependencies(ds), ..self }
    }

    /// Append a file entry.
    pub fn file(self, f: FileEntry) -> (r: Self)
        ensures
            r.manifest_spec().files matches Some(v) && v@ == opt_seq(self.manifest_spec().files).push(f),
            r.manifest_spec() == (Manifest { files: r.manifest_spec().files, ..self.manifest_spec() }),
            r.staged_spec() == self.staged_spec(),
    {
        Agent { inner: self.inner.add_file(f), ..self }
    }

    /// Replace the file list.
    pub fn files(self, fs: Vec<FileEntry>) -> (r: Self)
        ensures
            r.manifest_spec() == (Manifest { files: Some(fs), ..self.manifest_spec() }),
            r.staged_spec() == self.staged_spec(),
    {
        Agent { inner: self.inner.set_files(fs), ..self }
    }

    /// Declare the tools this package provides.
    pub fn provides_tools(self, t: Vec<String>) -> (r: Self)
        ensures
            r.manifest_spec().permissions == Some((Permissions { provides_tools: Some(t), ..perms_or_empty(self.manifest_spec().permissions) })),
            r.manifest_spec() == (Manifest { permissions: r.manifest_spec().permissions, ..self.manifest_spec() }),
            r.staged_spec() == self.staged_spec(),
    {
        Agent { inner: self.inner.set_provides_tools(t), ..self }
    }

    /// Declare the tools this package needs.
    pub fn needs_tools(self, t: Vec<String>) -> (r: Self)
        ensures
            r.manifest_spec().permissions == Some((Permissions { needs_tools: Some(t), ..perms_or_empty(self.manifest_spec().permissions) })),
            r.manifest_spec() == (Manifest { permissions: r.manifest_spec().permissions, ..self.manifest_spec() }),
            r.staged_spec() == self.staged_spec(),
    {
        Agent { inner: self.inner.set_needs_tools(t), ..self }
    }

    /// Suggest a role.
    pub fn suggested_role(self, role: &str) -> (r: Self)
        ensures
            r.manifest_spec().permissions matches Some(p) && p.suggested_role matches Some(s) && s@ == role@,
            r.manifest_spec().permissions matches Some(p) && p == (Permissions { suggested_role: p.suggested_role, ..perms_or_empty(self.manifest_spec().permissions) }),
            r.manifest_spec() == (Manifest { permissions: r.manifest_spec().permissions, ..self.manifest_spec() }),
            r.staged_spec() == self.staged_spec(),
    {
        Agent { inner: self.inner.set_suggested_role(role), ..self }
    }

    /// Stage a source file so that packing includes it under `archive_path`,
    /// and append the matching `files[]` entry.
    pub fn stage_file(self, src_path: &str, archive_path: &str, install_path: &str, executable: bool) -> (r: Self)
        ensures
            r.manifest_spec().files matches Some(v) && v@.len() == opt_seq(self.manifest_spec().files).len() + 1
                && v@.drop_last() == opt_seq(self.manifest_spec().files)
                && v@.last().archive_path@ == archive_path@
                && v@.last().install_path@ == install_path@
                && v@.last().executable == Some(executable)
                && v@.last().sha256 is None,
            r.manifest_spec() == (Manifest { files: r.manifest_spec().files, ..self.manifest_spec() }),
            r.staged_spec() == self.staged_spec().push((archive_path@, src_path@)),
    {
        Agent { inner: self.inner.stage(src_path, archive_path, install_path, executable), ..self }
    }

    /// The staged source files, as `(archive_path, source path)` pairs.
    pub fn staged(&self) -> (r: &Vec<(String, String)>)
        ensures
            staged_view(r@) == self.staged_spec(),
    {
        &self.inner.staged
    }

    /// Validate and return the manifest.
    pub fn build(self) -> (r: Result<Manifest, Error>)
        ensures
            r is Ok <==> valid_manifest(self.manifest_spec().json()),
            r matches Ok(m) ==> m == self.manifest_spec(),
            r matches Err(e) ==> e is Schema && e->Schema_0@ == schema_text(violations(self.manifest_spec().json())),
    {
        let m = self.into_manifest();
        checked(m)
    }

}

/// Builder for reusable-prompt skills: a `kind = aagent` package whose only
/// content is its `system_prompt`.
pub struct Skill {
    inner: Inner,
    config: AagentConfig,
}

impl Skill {
    /// The manifest this builder describes.
    pub closed spec fn manifest_spec(&self) -> Manifest {
        assemble(self.inner, Kind::Aagent, PackageConfig::Aagent(self.config))
    }

    /// The aagent config this builder describes.
    pub closed spec fn config_spec(&self) -> AagentConfig {
        self.config
    }

    /// The staged source files.
    pub closed spec fn staged_spec(&self) -> Seq<(Seq<char>, Seq<char>)> {
        staged_view(self.inner.staged@)
    }

    /// The config is the aagent config, under kind aagent.
    pub broadcast proof fn lemma_shape(s: Skill)
        ensures
            #[trigger] s.manifest_spec().kind == Kind::Aagent,
            s.manifest_spec().config == PackageConfig::Aagent(s.config_spec()),
    {
    }

    fn into_manifest(self) -> (m: Manifest)
        ensures
            m == self.manifest_spec(),
    {
        self.inner.into_manifest(Kind::Aagent, PackageConfig::Aagent(self.config))
    }

    /// A new skill with an empty description and prompt.
    pub fn new(name: &str, version: &str) -> (r: Skill)
        ensures
            r.manifest_spec().schema_version@ == "2"@,
            r.manifest_spec().name@ == name@,
            r.manifest_spec().version@ == version@,
            r.manifest_spec().kind == Kind::Aagent,
            r.manifest_spec().description@ == Seq::<char>::empty(),
            r.config_spec().system_prompt@ == Seq::<char>::empty(),
            r.config_spec().allowed_tools is None,
            r.config_spec().model is None,
            r.config_spec().history_limit is None,
            r.config_spec().prompt_mode is None,
            r.manifest_spec().config == PackageConfig::Aagent(r.config_spec()),
            r.manifest_spec().author is None && r.manifest_spec().license is None
                && r.manifest_spec().requires_alexandria is None
                && r.manifest_spec().dependencies is None && r.manifest_spec().extends is None
                && r.manifest_spec().lockfile is None && r.manifest_spec().files is None
                && r.manifest_spec().permissions is None && r.manifest_spec().components is None
                && r.manifest_spec().install is None && r.manifest_spec().signature is None,
            r.staged_spec().len() == 0,
    {
        Skill { inner: Inner::new(name, version), config: empty_aagent_config() }
    }

    /// Set the system prompt.
    pub fn system_prompt(self, s: &str) -> (r: Skill)
        ensures
            r.config_spec().system_prompt@ == s@,
            r.config_spec() == (AagentConfig { system_prompt: r.config_spec().system_prompt, ..self.config_spec() }),
            r.manifest_spec() == (Manifest { config: PackageConfig::Aagent(r.config_spec()), ..self.manifest_spec() }),
            r.staged_spec() == self.staged_spec(),
    {
        let c = AagentConfig { system_prompt: String::from_str(s), ..self.config };
        Skill { config: c, ..self }
    }

    /// Set the tools the skill may call.
    pub fn allowed_tools(self, t: Vec<String>) -> (r: Skill)
        ensures
            r.config_spec() == (AagentConfig { allowed_tools: Some(t), ..self.config_spec() }),
            r.manifest_spec() == (Manifest { config: PackageConfig::Aagent(r.config_spec()), ..self.manifest_spec() }),
            r.staged_spec() == self.staged_spec(),
    {
        let c = AagentConfig { allowed_tools: Some(t), ..self.config };
        Skill { config: c, ..self }
    }

    /// Set the preferred model backend id.
    pub fn model(self, m: &str) -> (r: Skill)
        ensures
            r.config_spec().model matches Some(s) && s@ == m@,
            r.config_spec() == (AagentConfig { model: r.config_spec().model, ..self.config_spec() }),
            r.manifest_spec() == (Manifest { config: PackageConfig::Aagent(r.config_spec()), ..self.manifest_spec() }),
            r.staged_spec() == self.staged_spec(),
    {
        let c = AagentConfig { model: Some(String::from_str(m)), ..self.config };
        Skill { config: c, ..self }
    }

    /// Set the package's free-text description (the schema requires it).
    pub fn description(self, d: &str) -> (r: Self)
        ensures
            r.manifest_spec().description@ == d@,
            r.manifest_spec() == (Manifest { description: r.manifest_spec().description, ..self.manifest_spec() }),
            r.staged_spec() == self.staged_spec(),
    {
        Skill { inner: self.inner.set_description(d), ..self }
    }

    /// Set the author.
    pub fn author(self, a: &str) -> (r: Self)
        ensures
            r.manifest_spec().author matches Some(s) && s@ == a@,
            r.manifest_spec() == (Manifest { author: r.manifest_spec().author, ..self.manifest_spec() }),
            r.staged_spec() == self.staged_spec(),
    {
        Skill { inner: self.inner.set_author(a), ..self }
    }

    /// Set the license.
    pub fn license(self, l: &str) -> (r: Self)
        ensures
            r.manifest_spec().license matches Some(s) && s@ == l@,
            r.manifest_spec() == (Manifest { license: r.manifest_spec().license, ..self.manifest_spec() }),
            r.staged_spec() == self.staged_spec(),
    {
        Skill { inner: self.inner.set_license(l), ..self }
    }

    /// Set the Alexandria version requirement.
    pub fn requires_alexandria(self, v: &str) -> (r: Self)
        ensures
            r.manifest_spec().requires_alexandria matches Some(s) && s@ == v@,
            r.manifest_spec() == (Manifest { requires_alexandria: r.manifest_spec().requires_alexandria, ..self.manifest_spec() }),
            r.staged_spec() == self.staged_spec(),
    {
        Skill { inner: self.inner.set_requires_alexandria(v), ..self }
    }

    /// Append a dependency.
    pub fn dependency(self, d: Dependency) -> (r: Self)
        ensures
            r.manifest_spec().dependencies matches Some(v) && v@ == opt_seq(self.manifest_spec().dependencies).push(d),
            r.manifest_spec() == (Manifest { dependencies: r.manifest_spec().dependencies, ..self.manifest_spec() }),
            r.staged_spec() == self.staged_spec(),
    {
        Skill { inner: self.inner.add_dependency(d), ..self }
    }

    /// Replace the dependency list.
    pub fn dependencies(self, ds: Vec<Dependency>) -> (r: Self)
        ensures
            r.manifest_spec() == (Manifest { dependencies: Some(ds), ..self.manifest_spec() }),
            r.staged_spec() == self.staged_spec(),
    {
        Skill { inner: self.inner.set_dependencies(ds), ..self }
    }

    /// Append a file entry.
    pub fn file(self, f: FileEntry) -> (r: Self)
        ensures
            r.manifest_spec().files matches Some(v) && v@ == opt_seq(self.manifest_spec().files).push(f),
            r.manifest_spec() == (Manifest { files: r.manifest_spec().files, ..self.manifest_spec() }),
            r.staged_spec() == self.staged_spec(),
    {
        Skill { inner: self.inner.add_file(f), ..self }
    }

    /// Replace the file list.
    pub fn files(self, fs: Vec<FileEntry>) -> (r: Self)
        ensures
            r.manifest_spec() == (Manifest { files: Some(fs), ..self.manifest_spec() }),
            r.staged_spec() == self.staged_spec(),
    {
        Skill { inner: self.inner.set_files(fs), ..self }
    }

    /// Declare the tools this package provides.
    pub fn provides_tools(self, t: Vec<String>) -> (r: Self)
        ensures
            r.manifest_spec().permissions == Some((Permissions { provides_tools: Some(t), ..perms_or_empty(self.manifest_spec().permissions) })),
            r.manifest_spec() == (Manifest { permissions: r.manifest_spec().permissions, ..self.manifest_spec() }),
            r.staged_spec() == self.staged_spec(),
    {
        Skill { inner: self.inner.set_provides_tools(t), ..self }
    }

    /// Declare the tools this package needs.
    pub fn needs_tools(self, t: Vec<String>) -> (r: Self)
        ensures
            r.manifest_spec().permissions == Some((Permissions { needs_tools: Some(t), ..perms_or_empty(self.manifest_spec().permissions) })),
            r.manifest_spec() == (Manifest { permissions: r.manifest_spec().permissions, ..self.manifest_spec() }),
            r.staged_spec() == self.staged_spec(),
    {
        Skill { inner: self.inner.set_needs_tools(t), ..self }
    }

    /// Suggest a role.
    pub fn suggested_role(self, role: &str) -> (r: Self)
        ensures
            r.manifest_spec().permissions matches Some(p) && p.suggested_role matches Some(s) && s@ == role@,
            r.manifest_spec().permissions matches Some(p) && p == (Permissions { suggested_role: p.suggested_role, ..perms_or_empty(self.manifest_spec().permissions) }),
            r.manifest_spec() == (Manifest { permissions: r.manifest_spec().permissions, ..self.manifest_spec() }),
            r.staged_spec() == self.staged_spec(),
    {
        Skill { inner: self.inner.set_suggested_role(role), ..self }
    }

    /// Stage a source file so that packing includes it under `archive_path`,
    /// and append the matching `files[]` entry.
    pub fn stage_file(self, src_path: &str, archive_path: &str, install_path: &str, executable: bool) -> (r: Self)
        ensures
            r.manifest_spec().files matches Some(v) && v@.len() == opt_seq(self.manifest_spec().files).len() + 1
                && v@.drop_last() == opt_seq(self.manifest_spec().files)
                && v@.last().archive_path@ == archive_path@
                && v@.last().install_path@ == install_path@
                && v@.last().executable == Some(executable)
                && v@.last().sha256 is None,
            r.manifest_spec() == (Manifest { files: r.manifest_spec().files, ..self.manifest_spec() }),
            r.staged_spec() == self.staged_spec().push((archive_path@, src_path@)),
    {
        Skill { inner: self.inner.stage(src_path, archive_path, install_path, executable), ..self }
    }

    /// The staged source files, as `(archive_path, source path)` pairs.
    pub fn staged(&self) -> (r: &Vec<(String, String)>)
        ensures
            staged_view(r@) == self.staged_spec(),
    {
        &self.inner.staged
    }

    /// Validate and return the manifest.
    pub fn build(self) -> (r: Result<Manifest, Error>)
        ensures
            r is Ok <==> valid_manifest(self.manifest_spec().json()),
            r matches Ok(m) ==> m == self.manifest_spec(),
            r matches Err(e) ==> e is Schema && e->Schema_0@ == schema_text(violations(self.manifest_spec().json())),
    {
        let m = self.into_manifest();
        checked(m)
    }

}

/// Builder for `kind = bundle` packages: a named group of tools.
pub struct Bundle {
    inner: Inner,
    config: BundleConfig,
}

impl Bundle {
    /// The manifest this builder describes.
    pub closed spec fn manifest_spec(&self) -> Manifest {
        assemble(self.inner, Kind::Bundle, PackageConfig::Bundle(self.config))
    }

    /// The staged source files.
    pub closed spec fn staged_spec(&self) -> Seq<(Seq<char>, Seq<char>)> {
        staged_view(self.inner.staged@)
    }

    fn into_manifest(self) -> (m: Manifest)
        ensures
            m == self.manifest_spec(),
    {
        self.inner.into_manifest(Kind::Bundle, PackageConfig::Bundle(self.config))
    }

    /// A new bundle grouping no tool yet.
    pub fn new(name: &str, version: &str) -> (r: Bundle)
        ensures
            r.manifest_spec().schema_version@ == "2"@,
            r.manifest_spec().name@ == name@,
            r.manifest_spec().version@ == version@,
            r.manifest_spec().kind == Kind::Bundle,
            r.manifest_spec().description@ == Seq::<char>::empty(),
            r.manifest_spec().config matches PackageConfig::Bundle(c) && c.tools@.len() == 0,
            r.manifest_spec().author is None && r.manifest_spec().license is None
                && r.manifest_spec().requires_alexandria is None
                && r.manifest_spec().dependencies is None && r.manifest_spec().extends is None
                && r.manifest_spec().lockfile is None && r.manifest_spec().files is None
                && r.manifest_spec().permissions is None && r.manifest_spec().components is None
                && r.manifest_spec().install is None && r.manifest_spec().signature is None,
            r.staged_spec().len() == 0,
    {
        Bundle { inner: Inner::new(name, version), config: BundleConfig { tools: Vec::new() } }
    }

    /// Append a tool (`ns/name`) to the group.
    pub fn tool(self, name: &str) -> (r: Bundle)
        ensures
            r.manifest_spec().config matches PackageConfig::Bundle(c)
                && self.manifest_spec().config matches PackageConfig::Bundle(c0)
                && c.tools@.len() == c0.tools@.len() + 1 && c.tools@.drop_last() == c0.tools@
                && c.tools@.last()@ == name@,
            r.manifest_spec() == (Manifest { config: r.manifest_spec().config, ..self.manifest_spec() }),
            r.staged_spec() == self.staged_spec(),
    {
        let mut tools = self.config.tools;
        let ghost t0 = tools@;
        tools.push(String::from_str(name));
        assert(tools@.drop_last() =~= t0);
        Bundle { config: BundleConfig { tools }, ..self }
    }

    /// Set the package's free-text description (the schema requires it).
    pub fn description(self, d: &str) -> (r: Self)
        ensures
            r.manifest_spec().description@ == d@,
            r.manifest_spec() == (Manifest { description: r.manifest_spec().description, ..self.manifest_spec() }),
            r.staged_spec() == self.staged_spec(),
    {
        Bundle { inner: self.inner.set_description(d), ..self }
    }

    /// Set the author.
    pub fn author(self, a: &str) -> (r: Self)
        ensures
            r.manifest_spec().author matches Some(s) && s@ == a@,
            r.manifest_spec() == (Manifest { author: r.manifest_spec().author, ..self.manifest_spec() }),
            r.staged_spec() == self.staged_spec(),
    {
        Bundle { inner: self.inner.set_author(a), ..self }
    }

    /// Set the license.
    pub fn license(self, l: &str) -> (r: Self)
        ensures
            r.manifest_spec().license matches Some(s) && s@ == l@,
            r.manifest_spec() == (Manifest { license: r.manifest_spec().license, ..self.manifest_spec() }),
            r.staged_spec() == self.staged_spec(),
    {
        Bundle { inner: self.inner.set_license(l), ..self }
    }

    /// Set the Alexandria version requirement.
    pub fn requires_alexandria(self, v: &str) -> (r: Self)
        ensures
            r.manifest_spec().requires_alexandria matches Some(s) && s@ == v@,
            r.manifest_spec() == (Manifest { requires_alexandria: r.manifest_spec().requires_alexandria, ..self.manifest_spec() }),
            r.staged_spec() == self.staged_spec(),
    {
        Bundle { inner: self.inner.set_requires_alexandria(v), ..self }
    }

    /// Append a dependency.
    pub fn dependency(self, d: Dependency) -> (r: Self)
        ensures
            r.manifest_spec().dependencies matches Some(v) && v@ == opt_seq(self.manifest_spec().dependencies).push(d),
            r.manifest_spec() == (Manifest { dependencies: r.manifest_spec().dependencies, ..self.manifest_spec() }),
            r.staged_spec() == self.staged_spec(),
    {
        Bundle { inner: self.inner.add_dependency(d), ..self }
    }

    /// Replace the dependency list.
    pub fn dependencies(self, ds: Vec<Dependency>) -> (r: Self)
        ensures
            r.manifest_spec() == (Manifest { dependencies: Some(ds), ..self.manifest_spec() }),
            r.staged_spec() == self.staged_spec(),
    {
        Bundle { inner: self.inner.set_dependencies(ds), ..self }
    }

    /// Append a file entry.
    pub fn file(self, f: FileEntry) -> (r: Self)
        ensures
            r.manifest_spec().files matches Some(v) && v@ == opt_seq(self.manifest_spec().files).push(f),
            r.manifest_spec() == (Manifest { files: r.manifest_spec().files, ..self.manifest_spec() }),
            r.staged_spec() == self.staged_spec(),
    {
        Bundle { inner: self.inner.add_file(f), ..self }
    }

    /// Replace the file list.
    pub fn files(self, fs: Vec<FileEntry>) -> (r: Self)
        ensures
            r.manifest_spec() == (Manifest { files: Some(fs), ..self.manifest_spec() }),
            r.staged_spec() == self.staged_spec(),
    {
        Bundle { inner: self.inner.set_files(fs), ..self }
    }

    /// Declare the tools this package provides.
    pub fn provides_tools(self, t: Vec<String>) -> (r: Self)
        ensures
            r.manifest_spec().permissions == Some((Permissions { provides_tools: Some(t), ..perms_or_empty(self.manifest_spec().permissions) })),
            r.manifest_spec() == (Manifest { permissions: r.manifest_spec().permissions, ..self.manifest_spec() }),
            r.staged_spec() == self.staged_spec(),
    {
        Bundle { inner: self.inner.set_provides_tools(t), ..self }
    }

    /// Declare the tools this package needs.
    pub fn needs_tools(self, t: Vec<String>) -> (r: Self)
        ensures
            r.manifest_spec().permissions == Some((Permissions { needs_tools: Some(t), ..perms_or_empty(self.manifest_spec().permissions) })),
            r.manifest_spec() == (Manifest { permissions: r.manifest_spec().permissions, ..self.manifest_spec() }),
            r.staged_spec() == self.staged_spec(),
    {
        Bundle { inner: self.inner.set_needs_tools(t), ..self }
    }

    /// Suggest a role.
    pub fn suggested_role(self, role: &str) -> (r: Self)
        ensures
            r.manifest_spec().permissions matches Some(p) && p.suggested_role matches Some(s) && s@ == role@,
            r.manifest_spec().permissions matches Some(p) && p == (Permissions { suggested_role: p.suggested_role, ..perms_or_empty(self.manifest_spec().permissions) }),
            r.manifest_spec() == (Manifest { permissions: r.manifest_spec().permissions, ..self.manifest_spec() }),
            r.staged_spec() == self.staged_spec(),
    {
        Bundle { inner: self.inner.set_suggested_role(role), ..self }
    }

    /// Stage a source file so that packing includes it under `archive_path`,
    /// and append the matching `files[]` entry.
    pub fn stage_file(self, src_path: &str, archive_path: &str, install_path: &str, executable: bool) -> (r: Self)
        ensures
            r.manifest_spec().files matches Some(v) && v@.len() == opt_seq(self.manifest_spec().files).len() + 1
                && v@.drop_last() == opt_seq(self.manifest_spec().files)
                && v@.last().archive_path@ == archive_path@
                && v@.last().install_path@ == install_path@
                && v@.last().executable == Some(executable)
                && v@.last().sha256 is None,
            r.manifest_spec() == (Manifest { files: r.manifest_spec().files, ..self.manifest_spec() }),
            r.staged_spec() == self.staged_spec().push((archive_path@, src_path@)),
    {
        Bundle { inner: self.inner.stage(src_path, archive_path, install_path, executable), ..self }
    }

    /// The staged source files, as `(archive_path, source path)` pairs.
    pub fn staged(&self) -> (r: &Vec<(String, String)>)
        ensures
            staged_view(r@) == self.staged_spec(),
    {
        &self.inner.staged
    }

    /// Validate and return the manifest.
    pub fn build(self) -> (r: Result<Manifest, Error>)
        ensures
            r is Ok <==> valid_manifest(self.manifest_spec().json()),
            r matches Ok(m) ==> m == self.manifest_spec(),
            r matches Err(e) ==> e is Schema && e->Schema_0@ == schema_text(violations(self.manifest_spec().json())),
    {
        let m = self.into_manifest();
        checked(m)
    }

}

/// The settings of a binary tool, kept apart from the config so that the
/// package kind can follow the transport.
pub struct ToolFields {
    pub binary: String,
    pub native_handler: String,
    pub input_schema: Option<JsonValue>,
    pub default_port: Option<u16>,
    pub transport: Option<WireTransport>,
    pub args: Option<Vec<String>>,
    pub interface_major: Option<u32>,
    pub credentials: Option<Vec<CredentialDecl>>,
    pub env: Option<Vec<EnvDecl>>,
    pub k8s: K8sHints,
}

/// The MCP transport a wire transport stands for.
pub open spec fn mcp_transport(t: Option<WireTransport>) -> Option<McpTransport> {
    match t {
        Some(WireTransport::Http) => Some(McpTransport::Http),
        Some(WireTransport::Sse) => Some(McpTransport::Sse),
        _ => None,
    }
}

/// Whether a tool speaking `t` is an MCP tool: `http` and `sse` are.
pub open spec fn speaks_mcp(t: Option<WireTransport>) -> bool {
    t == Some(WireTransport::Http) || t == Some(WireTransport::Sse)
}

/// The kind and config of a tool: an mcp tool over `http`/`sse`, else an atool.
pub open spec fn materialise(f: ToolFields) -> (Kind, PackageConfig) {
    if speaks_mcp(f.transport) {
        (
            Kind::Mcp,
            PackageConfig::Mcp(
                McpConfig {
                    binary: f.binary,
                    default_port: f.default_port,
                    transport: mcp_transport(f.transport),
                    args: f.args,
                    interface_major: f.interface_major,
                    k8s: f.k8s,
                },
            ),
        )
    } else {
        (
            Kind::Atool,
            PackageConfig::Atool(
                AtoolConfig {
                    binary: f.binary,
                    native_handler: f.native_handler,
                    input_schema: f.input_schema,
                    default_port: f.default_port,
                    transport: f.transport,
                    args: f.args,
                    interface_major: f.interface_major,
                    credentials: f.credentials,
                    env: f.env,
                    k8s: f.k8s,
                },
            ),
        )
    }
}

fn materialise_fields(f: ToolFields) -> (r: (Kind, PackageConfig))
    ensures
        r == materialise(f),
{
    let ToolFields {
        binary,
        native_handler,
        input_schema,
        default_port,
        transport,
        args,
        interface_major,
        credentials,
        env,
        k8s,
    } = f;
    match transport {
        Some(WireTransport::Http) | Some(WireTransport::Sse) => {
            let t = match transport {
                Some(WireTransport::Http) => Some(McpTransport::Http),
                Some(WireTransport::Sse) => Some(McpTransport::Sse),
                _ => None,
            };
            let cfg = McpConfig { binary, default_port, transport: t, args, interface_major, k8s };
            (Kind::Mcp, PackageConfig::Mcp(cfg))
        },
        _ => {
            let cfg = AtoolConfig {
                binary,
                native_handler,
                input_schema,
                default_port,
                transport,
                args,
                interface_major,
                credentials,
                env,
                k8s,
            };
            (Kind::Atool, PackageConfig::Atool(cfg))
        },
    }
}

fn empty_k8s_hints() -> (h: K8sHints)
    ensures
        h == empty_hints(),
{
    K8sHints {
        k8s_image: None,
        k8s_capabilities: None,
        k8s_port: None,
        k8s_transport: None,
        k8s_resources: None,
        k8s_min_warm: None,
        k8s_idle_timeout_seconds: None,
    }
}

/// Kubernetes hints with nothing set.
pub open spec fn empty_hints() -> K8sHints {
    K8sHints {
        k8s_image: None,
        k8s_capabilities: None,
        k8s_port: None,
        k8s_transport: None,
        k8s_resources: None,
        k8s_min_warm: None,
        k8s_idle_timeout_seconds: None,
    }
}

/// Builder for binary-tool packages: `kind = atool` by default; a transport of
/// `http` or `sse` makes it `kind = mcp`, `grpc` keeps it an atool.
pub struct Tool {
    inner: Inner,
    fields: ToolFields,
}

impl Tool {
    /// The tool settings.
    pub closed spec fn fields_spec(&self) -> ToolFields {
        self.fields
    }

    /// The manifest this builder describes.
    pub closed spec fn manifest_spec(&self) -> Manifest {
        assemble(self.inner, materialise(self.fields).0, materialise(self.fields).1)
    }

    /// The staged source files.
    pub closed spec fn staged_spec(&self) -> Seq<(Seq<char>, Seq<char>)> {
        staged_view(self.inner.staged@)
    }

    /// The kind and config of the manifest are those the settings make.
    pub broadcast proof fn lemma_shape(t: Tool)
        ensures
            #[trigger] t.manifest_spec().kind == materialise(t.fields_spec()).0,
            t.manifest_spec().config == materialise(t.fields_spec()).1,
    {
    }

    /// The config of a tool names the protocol that was chosen for it: `http`
    /// gives an mcp config with transport `http`, `sse` one with transport
    /// `sse`, and `grpc` an atool config with transport `grpc`; the binary,
    /// port, arguments, interface major and Kubernetes hints go with it.
    pub proof fn law_tool_config_names_chosen_transport(t: Tool)
        ensures
            t.fields_spec().transport == Some(WireTransport::Http) ==> (
            t.manifest_spec().config matches PackageConfig::Mcp(c) && c.transport == Some(
                McpTransport::Http,
            ) && c.binary == t.fields_spec().binary && c.default_port == t.fields_spec().default_port
                && c.args == t.fields_spec().args && c.interface_major
                == t.fields_spec().interface_major && c.k8s == t.fields_spec().k8s),
            t.fields_spec().transport == Some(WireTransport::Sse) ==> (
            t.manifest_spec().config matches PackageConfig::Mcp(c) && c.transport == Some(
                McpTransport::Sse,
            ) && c.binary == t.fields_spec().binary && c.default_port == t.fields_spec().default_port
                && c.args == t.fields_spec().args && c.interface_major
                == t.fields_spec().interface_major && c.k8s == t.fields_spec().k8s),
            t.fields_spec().transport == Some(WireTransport::Grpc) ==> (
            t.manifest_spec().config matches PackageConfig::Atool(c) && c.transport == Some(
                WireTransport::Grpc,
            ) && c.binary == t.fields_spec().binary && c.default_port == t.fields_spec().default_port
                && c.args == t.fields_spec().args && c.interface_major
                == t.fields_spec().interface_major && c.k8s == t.fields_spec().k8s),
            t.manifest_spec().config matches PackageConfig::Mcp(c) ==> (c.transport matches Some(
                m,
            ) && m.wire_name() == t.fields_spec().transport->Some_0.wire_name()),
    {
    }

    /// A tool's package kind follows its transport: `http` and `sse` make an
    /// mcp tool, `grpc` or no transport an atool; and the config is of that
    /// kind.
    pub proof fn law_tool_kind_follows_transport(t: Tool)
        ensures
            (t.manifest_spec().kind == Kind::Mcp) == speaks_mcp(t.fields_spec().transport),
            (t.manifest_spec().kind == Kind::Atool) == !speaks_mcp(t.fields_spec().transport),
            t.manifest_spec().config.config_kind() == t.manifest_spec().kind,
    {
    }

    fn into_manifest(self) -> (m: Manifest)
        ensures
            m == self.manifest_spec(),
    {
        let (kind, config) = materialise_fields(self.fields);
        self.inner.into_manifest(kind, config)
    }

    /// A new tool package (an atool until a transport says otherwise).
    pub fn new(name: &str, version: &str) -> (r: Tool)
        ensures
            r.manifest_spec().schema_version@ == "2"@,
            r.manifest_spec().name@ == name@,
            r.manifest_spec().version@ == version@,
            r.manifest_spec().kind == Kind::Atool,
            r.manifest_spec().description@ == Seq::<char>::empty(),
            r.fields_spec().binary@ == Seq::<char>::empty(),
            r.fields_spec().native_handler@ == Seq::<char>::empty(),
            r.fields_spec().input_schema is None,
            r.fields_spec().default_port is None,
            r.fields_spec().transport is None,
            r.fields_spec().args is None,
            r.fields_spec().interface_major is None,
            r.fields_spec().credentials is None,
            r.fields_spec().env is None,
            r.fields_spec().k8s == empty_hints(),
            r.manifest_spec().author is None && r.manifest_spec().license is None
                && r.manifest_spec().requires_alexandria is None
                && r.manifest_spec().dependencies is None && r.manifest_spec().extends is None
                && r.manifest_spec().lockfile is None && r.manifest_spec().files is None
                && r.manifest_spec().permissions is None && r.manifest_spec().components is None
                && r.manifest_spec().install is None && r.manifest_spec().signature is None,
            r.staged_spec().len() == 0,
    {
        let fields = ToolFields {
            binary: String::new(),
            native_handler: String::new(),
            input_schema: None,
            default_port: None,
            transport: None,
            args: None,
            interface_major: None,
            credentials: None,
            env: None,
            k8s: empty_k8s_hints(),
        };
        Tool { inner: Inner::new(name, version), fields }
    }

    /// Set the binary the tool runs.
    pub fn binary(self, p: &str) -> (r: Tool)
        ensures
            r.fields_spec().binary@ == p@,
            r.fields_spec() == (ToolFields { binary: r.fields_spec().binary, ..self.fields_spec() }),
            r.manifest_spec() == (Manifest {
                kind: r.manifest_spec().kind,
                config: r.manifest_spec().config,
                ..self.manifest_spec()
            }),
            r.staged_spec() == self.staged_spec(),
    {
        Tool { fields: ToolFields { binary: String::from_str(p), ..self.fields }, ..self }
    }

    /// Set the default port.
    pub fn port(self, p: u16) -> (r: Tool)
        ensures
            r.fields_spec() == (ToolFields { default_port: Some(p), ..self.fields_spec() }),
            r.manifest_spec() == (Manifest {
                kind: r.manifest_spec().kind,
                config: r.manifest_spec().config,
                ..self.manifest_spec()
            }),
            r.staged_spec() == self.staged_spec(),
    {
        Tool { fields: ToolFields { default_port: Some(p), ..self.fields }, ..self }
    }

    /// Pick the wire protocol, and thereby the package kind: `grpc` makes an atool, `http`/`sse` an mcp tool.
    pub fn transport(self, t: WireTransport) -> (r: Tool)
        ensures
            r.fields_spec() == (ToolFields { transport: Some(t), ..self.fields_spec() }),
            (r.manifest_spec().kind == Kind::Mcp) == (t == WireTransport::Http || t == WireTransport::Sse),
            r.manifest_spec() == (Manifest {
                kind: r.manifest_spec().kind,
                config: r.manifest_spec().config,
                ..self.manifest_spec()
            }),
            r.staged_spec() == self.staged_spec(),
    {
        Tool { fields: ToolFields { transport: Some(t), ..self.fields }, ..self }
    }

    /// Set the command-line arguments.
    pub fn args(self, a: Vec<String>) -> (r: Tool)
        ensures
            r.fields_spec() == (ToolFields { args: Some(a), ..self.fields_spec() }),
            r.manifest_spec() == (Manifest {
                kind: r.manifest_spec().kind,
                config: r.manifest_spec().config,
                ..self.manifest_spec()
            }),
            r.staged_spec() == self.staged_spec(),
    {
        Tool { fields: ToolFields { args: Some(a), ..self.fields }, ..self }
    }

    /// Set the contract/ABI major the tool exposes.
    pub fn interface_major(self, n: u32) -> (r: Tool)
        ensures
            r.fields_spec() == (ToolFields { interface_major: Some(n), ..self.fields_spec() }),
            r.manifest_spec() == (Manifest {
                kind: r.manifest_spec().kind,
                config: r.manifest_spec().config,
                ..self.manifest_spec()
            }),
            r.staged_spec() == self.staged_spec(),
    {
        Tool { fields: ToolFields { interface_major: Some(n), ..self.fields }, ..self }
    }

    /// Serve the tool with a native handler instead of a binary (a code-less tool).
    pub fn native_handler(self, h: &str) -> (r: Tool)
        ensures
            r.fields_spec().native_handler@ == h@,
            r.fields_spec() == (ToolFields { native_handler: r.fields_spec().native_handler, ..self.fields_spec() }),
            r.manifest_spec() == (Manifest {
                kind: r.manifest_spec().kind,
                config: r.manifest_spec().config,
                ..self.manifest_spec()
            }),
            r.staged_spec() == self.staged_spec(),
    {
        Tool { fields: ToolFields { native_handler: String::from_str(h), ..self.fields }, ..self }
    }

    /// Set the JSON schema of the tool's input.
    pub fn input_schema(self, s: JsonValue) -> (r: Tool)
        ensures
            r.fields_spec() == (ToolFields { input_schema: Some(s), ..self.fields_spec() }),
            r.manifest_spec() == (Manifest {
                kind: r.manifest_spec().kind,
                config: r.manifest_spec().config,
                ..self.manifest_spec()
            }),
            r.staged_spec() == self.staged_spec(),
    {
        Tool { fields: ToolFields { input_schema: Some(s), ..self.fields }, ..self }
    }

    /// Set the Kubernetes image.
    pub fn k8s_image(self, img: &str) -> (r: Tool)
        ensures
            r.fields_spec().k8s.k8s_image matches Some(s) && s@ == img@,
            r.fields_spec() == (ToolFields { k8s: (K8sHints { k8s_image: r.fields_spec().k8s.k8s_image, ..self.fields_spec().k8s }), ..self.fields_spec() }),
            r.manifest_spec() == (Manifest {
                kind: r.manifest_spec().kind,
                config: r.manifest_spec().config,
                ..self.manifest_spec()
            }),
            r.staged_spec() == self.staged_spec(),
    {
        let k = K8sHints { k8s_image: Some(String::from_str(img)), ..self.fields.k8s };
        Tool { fields: ToolFields { k8s: k, ..self.fields }, ..self }
    }

    /// Set the Kubernetes capabilities.
    pub fn k8s_capabilities(self, c: Vec<String>) -> (r: Tool)
        ensures
            r.fields_spec() == (ToolFields { k8s: (K8sHints { k8s_capabilities: Some(c), ..self.fields_spec().k8s }), ..self.fields_spec() }),
            r.manifest_spec() == (Manifest {
                kind: r.manifest_spec().kind,
                config: r.manifest_spec().config,
                ..self.manifest_spec()
            }),
            r.staged_spec() == self.staged_spec(),
    {
        let k = K8sHints { k8s_capabilities: Some(c), ..self.fields.k8s };
        Tool { fields: ToolFields { k8s: k, ..self.fields }, ..self }
    }

    /// Set the Kubernetes port.
    pub fn k8s_port(self, p: u16) -> (r: Tool)
        ensures
            r.fields_spec() == (ToolFields { k8s: (K8sHints { k8s_port: Some(p), ..self.fields_spec().k8s }), ..self.fields_spec() }),
            r.manifest_spec() == (Manifest {
                kind: r.manifest_spec().kind,
                config: r.manifest_spec().config,
                ..self.manifest_spec()
            }),
            r.staged_spec() == self.staged_spec(),
    {
        let k = K8sHints { k8s_port: Some(p), ..self.fields.k8s };
        Tool { fields: ToolFields { k8s: k, ..self.fields }, ..self }
    }

    /// Set the Kubernetes transport.
    pub fn k8s_transport(self, t: ToolK8sTransport) -> (r: Tool)
        ensures
            r.fields_spec() == (ToolFields { k8s: (K8sHints { k8s_transport: Some(t), ..self.fields_spec().k8s }), ..self.fields_spec() }),
            r.manifest_spec() == (Manifest {
                kind: r.manifest_spec().kind,
                config: r.manifest_spec().config,
                ..self.manifest_spec()
            }),
            r.staged_spec() == self.staged_spec(),
    {
        let k = K8sHints { k8s_transport: Some(t), ..self.fields.k8s };
        Tool { fields: ToolFields { k8s: k, ..self.fields }, ..self }
    }

    /// Set the Kubernetes resource requests and limits.
    pub fn k8s_resources(self, r0: K8sResources) -> (r: Tool)
        ensures
            r.fields_spec() == (ToolFields { k8s: (K8sHints { k8s_resources: Some(r0), ..self.fields_spec().k8s }), ..self.fields_spec() }),
            r.manifest_spec() == (Manifest {
                kind: r.manifest_spec().kind,
                config: r.manifest_spec().config,
                ..self.manifest_spec()
            }),
            r.staged_spec() == self.staged_spec(),
    {
        let k = K8sHints { k8s_resources: Some(r0), ..self.fields.k8s };
        Tool { fields: ToolFields { k8s: k, ..self.fields }, ..self }
    }

    /// Set how many instances stay warm.
    pub fn k8s_min_warm(self, n: u32) -> (r: Tool)
        ensures
            r.fields_spec() == (ToolFields { k8s: (K8sHints { k8s_min_warm: Some(n), ..self.fields_spec().k8s }), ..self.fields_spec() }),
            r.manifest_spec() == (Manifest {
                kind: r.manifest_spec().kind,
                config: r.manifest_spec().config,
                ..self.manifest_spec()
            }),
            r.staged_spec() == self.staged_spec(),
    {
        let k = K8sHints { k8s_min_warm: Some(n), ..self.fields.k8s };
        Tool { fields: ToolFields { k8s: k, ..self.fields }, ..self }
    }

    /// Set the idle timeout in seconds.
    pub fn k8s_idle_timeout(self, seconds: u32) -> (r: Tool)
        ensures
            r.fields_spec() == (ToolFields { k8s: (K8sHints { k8s_idle_timeout_seconds: Some(seconds), ..self.fields_spec().k8s }), ..self.fields_spec() }),
            r.manifest_spec() == (Manifest {
                kind: r.manifest_spec().kind,
                config: r.manifest_spec().config,
                ..self.manifest_spec()
            }),
            r.staged_spec() == self.staged_spec(),
    {
        let k = K8sHints { k8s_idle_timeout_seconds: Some(seconds), ..self.fields.k8s };
        Tool { fields: ToolFields { k8s: k, ..self.fields }, ..self }
    }

    /// Declare a credential the tool reads.
    pub fn credential(self, c: CredentialDecl) -> (r: Tool)
        ensures
            r.fields_spec().credentials matches Some(v) && v@ == opt_seq(self.fields_spec().credentials).push(c),
            r.fields_spec() == (ToolFields { credentials: r.fields_spec().credentials, ..self.fields_spec() }),
            r.manifest_spec() == (Manifest {
                kind: r.manifest_spec().kind,
                config: r.manifest_spec().config,
                ..self.manifest_spec()
            }),
            r.staged_spec() == self.staged_spec(),
    {
        let v = push_to(self.fields.credentials, c);
        Tool { fields: ToolFields { credentials: v, ..self.fields }, ..self }
    }

    /// Declare an environment variable the tool reads.
    pub fn env_var(self, e: EnvDecl) -> (r: Tool)
        ensures
            r.fields_spec().env matches Some(v) && v@ == opt_seq(self.fields_spec().env).push(e),
            r.fields_spec() == (ToolFields { env: r.fields_spec().env, ..self.fields_spec() }),
            r.manifest_spec() == (Manifest {
                kind: r.manifest_spec().kind,
                config: r.manifest_spec().config,
                ..self.manifest_spec()
            }),
            r.staged_spec() == self.staged_spec(),
    {
        let v = push_to(self.fields.env, e);
        Tool { fields: ToolFields { env: v, ..self.fields }, ..self }
    }

    /// Set the package's free-text description (the schema requires it).
    pub fn description(self, d: &str) -> (r: Self)
        ensures
            r.manifest_spec().description@ == d@,
            r.manifest_spec() == (Manifest { description: r.manifest_spec().description, ..self.manifest_spec() }),
            r.staged_spec() == self.staged_spec(),
    {
        Tool { inner: self.inner.set_description(d), ..self }
    }

    /// Set the author.
    pub fn author(self, a: &str) -> (r: Self)
        ensures
            r.manifest_spec().author matches Some(s) && s@ == a@,
            r.manifest_spec() == (Manifest { author: r.manifest_spec().author, ..self.manifest_spec() }),
            r.staged_spec() == self.staged_spec(),
    {
        Tool { inner: self.inner.set_author(a), ..self }
    }

    /// Set the license.
    pub fn license(self, l: &str) -> (r: Self)
        ensures
            r.manifest_spec().license matches Some(s) && s@ == l@,
            r.manifest_spec() == (Manifest { license: r.manifest_spec().license, ..self.manifest_spec() }),
            r.staged_spec() == self.staged_spec(),
    {
        Tool { inner: self.inner.set_license(l), ..self }
    }

    /// Set the Alexandria version requirement.
    pub fn requires_alexandria(self, v: &str) -> (r: Self)
        ensures
            r.manifest_spec().requires_alexandria matches Some(s) && s@ == v@,
            r.manifest_spec() == (Manifest { requires_alexandria: r.manifest_spec().requires_alexandria, ..self.manifest_spec() }),
            r.staged_spec() == self.staged_spec(),
    {
        Tool { inner: self.inner.set_requires_alexandria(v), ..self }
    }

    /// Append a dependency.
    pub fn dependency(self, d: Dependency) -> (r: Self)
        ensures
            r.manifest_spec().dependencies matches Some(v) && v@ == opt_seq(self.manifest_spec().dependencies).push(d),
            r.manifest_spec() == (Manifest { dependencies: r.manifest_spec().dependencies, ..self.manifest_spec() }),
            r.staged_spec() == self.staged_spec(),
    {
        Tool { inner: self.inner.add_dependency(d), ..self }
    }

    /// Replace the dependency list.
    pub fn dependencies(self, ds: Vec<Dependency>) -> (r: Self)
        ensures
            r.manifest_spec() == (Manifest { dependencies: Some(ds), ..self.manifest_spec() }),
            r.staged_spec() == self.staged_spec(),
    {
        Tool { inner: self.inner.set_dependencies(ds), ..self }
    }

    /// Append a file entry.
    pub fn file(self, f: FileEntry) -> (r: Self)
        ensures
            r.manifest_spec().files matches Some(v) && v@ == opt_seq(self.manifest_spec().files).push(f),
            r.manifest_spec() == (Manifest { files: r.manifest_spec().files, ..self.manifest_spec() }),
            r.staged_spec() == self.staged_spec(),
    {
        Tool { inner: self.inner.add_file(f), ..self }
    }

    /// Replace the file list.
    pub fn files(self, fs: Vec<FileEntry>) -> (r: Self)
        ensures
            r.manifest_spec() == (Manifest { files: Some(fs), ..self.manifest_spec() }),
            r.staged_spec() == self.staged_spec(),
    {
        Tool { inner: self.inner.set_files(fs), ..self }
    }

    /// Declare the tools this package provides.
    pub fn provides_tools(self, t: Vec<String>) -> (r: Self)
        ensures
            r.manifest_spec().permissions == Some((Permissions { provides_tools: Some(t), ..perms_or_empty(self.manifest_spec().permissions) })),
            r.manifest_spec() == (Manifest { permissions: r.manifest_spec().permissions, ..self.manifest_spec() }),
            r.staged_spec() == self.staged_spec(),
    {
        Tool { inner: self.inner.set_provides_tools(t), ..self }
    }

    /// Declare the tools this package needs.
    pub fn needs_tools(self, t: Vec<String>) -> (r: Self)
        ensures
            r.manifest_spec().permissions == Some((Permissions { needs_tools: Some(t), ..perms_or_empty(self.manifest_spec().permissions) })),
            r.manifest_spec() == (Manifest { permissions: r.manifest_spec().permissions, ..self.manifest_spec() }),
            r.staged_spec() == self.staged_spec(),
    {
        Tool { inner: self.inner.set_needs_tools(t), ..self }
    }

    /// Suggest a role.
    pub fn suggested_role(self, role: &str) -> (r: Self)
        ensures
            r.manifest_spec().permissions matches Some(p) && p.suggested_role matches Some(s) && s@ == role@,
            r.manifest_spec().permissions matches Some(p) && p == (Permissions { suggested_role: p.suggested_role, ..perms_or_empty(self.manifest_spec().permissions) }),
            r.manifest_spec() == (Manifest { permissions: r.manifest_spec().permissions, ..self.manifest_spec() }),
            r.staged_spec() == self.staged_spec(),
    {
        Tool { inner: self.inner.set_suggested_role(role), ..self }
    }

    /// Stage a source file so that packing includes it under `archive_path`,
    /// and append the matching `files[]` entry.
    pub fn stage_file(self, src_path: &str, archive_path: &str, install_path: &str, executable: bool) -> (r: Self)
        ensures
            r.manifest_spec().files matches Some(v) && v@.len() == opt_seq(self.manifest_spec().files).len() + 1
                && v@.drop_last() == opt_seq(self.manifest_spec().files)
                && v@.last().archive_path@ == archive_path@
                && v@.last().install_path@ == install_path@
                && v@.last().executable == Some(executable)
                && v@.last().sha256 is None,
            r.manifest_spec() == (Manifest { files: r.manifest_spec().files, ..self.manifest_spec() }),
            r.staged_spec() == self.staged_spec().push((archive_path@, src_path@)),
    {
        Tool { inner: self.inner.stage(src_path, archive_path, install_path, executable), ..self }
    }

    /// The staged source files, as `(archive_path, source path)` pairs.
    pub fn staged(&self) -> (r: &Vec<(String, String)>)
        ensures
            staged_view(r@) == self.staged_spec(),
    {
        &self.inner.staged
    }

    /// Validate and return the manifest.
    pub fn build(self) -> (r: Result<Manifest, Error>)
        ensures
            r is Ok <==> valid_manifest(self.manifest_spec().json()),
            r matches Ok(m) ==> m == self.manifest_spec(),
            r matches Err(e) ==> e is Schema && e->Schema_0@ == schema_text(violations(self.manifest_spec().json())),
    {
        let m = self.into_manifest();
        checked(m)
    }

}

} // verus!

//! The package manifest (`atool.json`, schema version 2) and its JSON form.
//!
//! Kinds:
//!   `mcp`    - binary tool daemon over the MCP protocol (JSON-RPC/SSE)
//!   `atool`  - binary tool daemon over the native gRPC `ToolService`, or a
//!              code-less tool served by a native handler
//!   `aagent` - orchestrator-managed agent; a "skill" is an aagent whose content
//!              is its `system_prompt`
//!   `bundle` - pure composition: a named group of tools
//!
//! Member names match the on-disk JSON exactly (snake_case); absent optional
//! fields are left out of the JSON form.
use vstd::prelude::*;

use crate::json::{members_view, Json, JsonValue, NumModel, lemma_object_view};

verus! {

/// A value with a JSON form.
pub trait ToJson {
    /// The JSON form.
    spec fn json(&self) -> Json;

    /// Build the JSON form.
    fn to_json(&self) -> (r: JsonValue)
        ensures
            r.view() == self.json(),
    ;
}

/// The member `(k, x)` when `x` is present, else nothing.
pub open spec fn opt_member<T: ToJson>(k: Seq<char>, x: Option<T>) -> Seq<(Seq<char>, Json)> {
    match x {
        Some(v) => seq![(k, v.json())],
        None => Seq::empty(),
    }
}

/// The member `(k, s)` when `s` is not empty, else nothing.
pub open spec fn nonempty_member(k: Seq<char>, s: String) -> Seq<(Seq<char>, Json)> {
    if s@.len() > 0 {
        seq![(k, Json::Str(s@))]
    } else {
        Seq::empty()
    }
}

/// Append the member `(key, v)`.
pub fn push_member<T: ToJson>(m: &mut Vec<(String, JsonValue)>, key: &str, v: &T)
    ensures
        members_view(final(m)@) == members_view(old(m)@) + seq![(key@, v.json())],
{
    let j = v.to_json();
    m.push((String::from_str(key), j));
    assert(members_view(m@) =~= members_view(old(m)@) + seq![(key@, v.json())]);
}

/// Append the member `(key, v)` when `v` is present.
pub fn push_opt<T: ToJson>(m: &mut Vec<(String, JsonValue)>, key: &str, v: &Option<T>)
    ensures
        members_view(final(m)@) == members_view(old(m)@) + opt_member(key@, *v),
{
    match v {
        Some(x) => push_member(m, key, x),
        None => {
            assert(members_view(m@) =~= members_view(old(m)@) + opt_member(key@, *v));
        },
    }
}

/// Append the member `(key, s)` when `s` is not empty.
pub fn push_nonempty(m: &mut Vec<(String, JsonValue)>, key: &str, s: &String)
    ensures
        members_view(final(m)@) == members_view(old(m)@) + nonempty_member(key@, *s),
{
    if s.as_str().unicode_len() > 0 {
        push_member(m, key, s);
    } else {
        assert(members_view(m@) =~= members_view(old(m)@) + nonempty_member(key@, *s));
    }
}

/// An object made of the members `m`.
pub fn object(m: Vec<(String, JsonValue)>) -> (r: JsonValue)
    ensures
        r.view() == Json::Obj(members_view(m@)),
{
    proof {
        lemma_object_view(m);
    }
    JsonValue::Object(m)
}

impl ToJson for String {
    open spec fn json(&self) -> Json {
        Json::Str(self@)
    }

    fn to_json(&self) -> (r: JsonValue) {
        JsonValue::Str(self.clone())
    }
}

impl ToJson for bool {
    open spec fn json(&self) -> Json {
        Json::Bool(*self)
    }

    fn to_json(&self) -> (r: JsonValue) {
        JsonValue::Bool(*self)
    }
}

impl ToJson for u16 {
    open spec fn json(&self) -> Json {
        Json::Num(NumModel::UInt(*self as u64))
    }

    fn to_json(&self) -> (r: JsonValue) {
        JsonValue::Number(crate::json::JsonNumber::UInt(*self as u64))
    }
}

impl ToJson for u32 {
    open spec fn json(&self) -> Json {
        Json::Num(NumModel::UInt(*self as u64))
    }

    fn to_json(&self) -> (r: JsonValue) {
        JsonValue::Number(crate::json::JsonNumber::UInt(*self as u64))
    }
}

impl ToJson for JsonValue {
    open spec fn json(&self) -> Json {
        self.view()
    }

    fn to_json(&self) -> (r: JsonValue) {
        self.deep_clone()
    }
}

impl<T: ToJson> ToJson for Vec<T> {
    open spec fn json(&self) -> Json {
        Json::Arr(Seq::new(self@.len(), |i: int| self@[i].json()))
    }

    fn to_json(&self) -> (r: JsonValue) {
        let mut out: Vec<JsonValue> = Vec::new();
        let mut i: usize = 0;
        while i < self.len()
            invariant
                i <= self@.len(),
                out@.len() == i,
                forall|j: int| 0 <= j < i ==> #[trigger] out@[j].view() == self@[j].json(),
            decreases self@.len() - i,
        {
            let x = self[i].to_json();
            out.push(x);
            i = i + 1;
        }
        proof {
            crate::json::lemma_array_view(out);
            assert(crate::json::items_view(out@) =~= Seq::new(self@.len(), |i: int| self@[i].json()));
        }
        JsonValue::Array(out)
    }
}

/// Package kind (lowercase on the wire).
#[derive(Debug, Clone, Copy, PartialEq, Eq, Structural)]
pub enum Kind {
    Mcp,
    Atool,
    Aagent,
    Bundle,
}

impl Kind {
    /// The name on the wire.
    pub open spec fn wire_name(&self) -> Seq<char> {
        match self {
            Kind::Mcp => "mcp"@,
            Kind::Atool => "atool"@,
            Kind::Aagent => "aagent"@,
            Kind::Bundle => "bundle"@,
        }
    }

    /// The name on the wire.
    pub fn as_str(&self) -> (r: &'static str)
        ensures
            r@ == self.wire_name(),
    {
        match self {
            Kind::Mcp => "mcp",
            Kind::Atool => "atool",
            Kind::Aagent => "aagent",
            Kind::Bundle => "bundle",
        }
    }
}

impl ToJson for Kind {
    open spec fn json(&self) -> Json {
        Json::Str(self.wire_name())
    }

    fn to_json(&self) -> (r: JsonValue) {
        JsonValue::Str(String::from_str(self.as_str()))
    }
}

/// The wire protocol a binary tool speaks. `grpc` makes an atool; `http`/`sse` make an mcp tool.
#[derive(Debug, Clone, Copy, PartialEq, Eq, Structural)]
pub enum WireTransport {
    Grpc,
    Http,
    Sse,
}

impl WireTransport {
    /// The name on the wire.
    pub open spec fn wire_name(&self) -> Seq<char> {
        match self {
            WireTransport::Grpc => "grpc"@,
            WireTransport::Http => "http"@,
            WireTransport::Sse => "sse"@,
        }
    }

    /// The name on the wire.
    pub fn as_str(&self) -> (r: &'static str)
        ensures
            r@ == self.wire_name(),
    {
        match self {
            WireTransport::Grpc => "grpc",
            WireTransport::Http => "http",
            WireTransport::Sse => "sse",
        }
    }
}

impl ToJson for WireTransport {
    open spec fn json(&self) -> Json {
        Json::Str(self.wire_name())
    }

    fn to_json(&self) -> (r: JsonValue) {
        JsonValue::Str(String::from_str(self.as_str()))
    }
}

/// Transports a tool can speak when run under Kubernetes.
#[derive(Debug, Clone, Copy, PartialEq, Eq, Structural)]
pub enum ToolK8sTransport {
    Grpc,
    Http,
    Sse,
}

impl ToolK8sTransport {
    /// The name on the wire.
    pub open spec fn wire_name(&self) -> Seq<char> {
        match self {
            ToolK8sTransport::Grpc => "grpc"@,
            ToolK8sTransport::Http => "http"@,
            ToolK8sTransport::Sse => "sse"@,
        }
    }

    /// The name on the wire.
    pub fn as_str(&self) -> (r: &'static str)
        ensures
            r@ == self.wire_name(),
    {
        match self {
            ToolK8sTransport::Grpc => "grpc",
            ToolK8sTransport::Http => "http",
            ToolK8sTransport::Sse => "sse",
        }
    }
}

impl ToJson for ToolK8sTransport {
    open spec fn json(&self) -> Json {
        Json::Str(self.wire_name())
    }

    fn to_json(&self) -> (r: JsonValue) {
        JsonValue::Str(String::from_str(self.as_str()))
    }
}

/// MCP wire transports.
#[derive(Debug, Clone, Copy, PartialEq, Eq, Structural)]
pub enum McpTransport {
    Http,
    Sse,
}

impl McpTransport {
    /// The name on the wire.
    pub open spec fn wire_name(&self) -> Seq<char> {
        match self {
            McpTransport::Http => "http"@,
            McpTransport::Sse => "sse"@,
        }
    }

    /// The name on the wire.
    pub fn as_str(&self) -> (r: &'static str)
        ensures
            r@ == self.wire_name(),
    {
        match self {
            McpTransport::Http => "http",
            McpTransport::Sse => "sse",
        }
    }
}

impl ToJson for McpTransport {
    open spec fn json(&self) -> Json {
        Json::Str(self.wire_name())
    }

    fn to_json(&self) -> (r: JsonValue) {
        JsonValue::Str(String::from_str(self.as_str()))
    }
}

/// Prompt composition mode against `extends` bases.
#[derive(Debug, Clone, Copy, PartialEq, Eq, Structural)]
pub enum PromptMode {
    Append,
    Replace,
}

impl PromptMode {
    /// The name on the wire.
    pub open spec fn wire_name(&self) -> Seq<char> {
        match self {
            PromptMode::Append => "append"@,
            PromptMode::Replace => "replace"@,
        }
    }

    /// The name on the wire.
    pub fn as_str(&self) -> (r: &'static str)
        ensures
            r@ == self.wire_name(),
    {
        match self {
            PromptMode::Append => "append",
            PromptMode::Replace => "replace",
        }
    }
}

impl ToJson for PromptMode {
    open spec fn json(&self) -> Json {
        Json::Str(self.wire_name())
    }

    fn to_json(&self) -> (r: JsonValue) {
        JsonValue::Str(String::from_str(self.as_str()))
    }
}

/// Only aagent may appear inline; binary tools are refs only.
#[derive(Debug, Clone, Copy, PartialEq, Eq, Structural)]
pub enum InlineComponentKind {
    Aagent,
}

impl InlineComponentKind {
    /// The name on the wire.
    pub open spec fn wire_name(&self) -> Seq<char> {
        match self {
            InlineComponentKind::Aagent => "aagent"@,
        }
    }

    /// The name on the wire.
    pub fn as_str(&self) -> (r: &'static str)
        ensures
            r@ == self.wire_name(),
    {
        match self {
            InlineComponentKind::Aagent => "aagent",
        }
    }
}

impl ToJson for InlineComponentKind {
    open spec fn json(&self) -> Json {
        Json::Str(self.wire_name())
    }

    fn to_json(&self) -> (r: JsonValue) {
        JsonValue::Str(String::from_str(self.as_str()))
    }
}

/// What happens to the tool process when a credential rotates.
#[derive(Debug, Clone, Copy, PartialEq, Eq, Structural)]
pub enum Rotation {
    Respawn,
}

impl Rotation {
    /// The name on the wire.
    pub open spec fn wire_name(&self) -> Seq<char> {
        match self {
            Rotation::Respawn => "respawn"@,
        }
    }

    /// The name on the wire.
    pub fn as_str(&self) -> (r: &'static str)
        ensures
            r@ == self.wire_name(),
    {
        match self {
            Rotation::Respawn => "respawn",
        }
    }
}

impl ToJson for Rotation {
    open spec fn json(&self) -> Json {
        Json::Str(self.wire_name())
    }

    fn to_json(&self) -> (r: JsonValue) {
        JsonValue::Str(String::from_str(self.as_str()))
    }
}

/// A single file declared in `files[]`.
#[derive(Debug, Clone, PartialEq)]
pub struct FileEntry {
    pub archive_path: String,
    pub install_path: String,
    pub executable: Option<bool>,
    pub sha256: Option<String>,
}

impl FileEntry {
    /// The members of the JSON form.
    pub open spec fn members(&self) -> Seq<(Seq<char>, Json)> {
        Seq::empty()
            + seq![("archive_path"@, self.archive_path.json())]
            + seq![("install_path"@, self.install_path.json())]
            + opt_member("executable"@, self.executable)
            + opt_member("sha256"@, self.sha256)
    }

    /// Append the members of the JSON form to `m`.
    pub fn push_members(&self, m: &mut Vec<(String, JsonValue)>)
        ensures
            members_view(final(m)@) == members_view(old(m)@) + self.members(),
    {
        let ghost m0 = members_view(m@);
        push_member(m, "archive_path", &self.archive_path);
        push_member(m, "install_path", &self.install_path);
        push_opt(m, "executable", &self.executable);
        push_opt(m, "sha256", &self.sha256);
        assert(members_view(m@) =~= m0 + self.members());
    }
}

impl ToJson for FileEntry {
    open spec fn json(&self) -> Json {
        Json::Obj(self.members())
    }

    fn to_json(&self) -> (r: JsonValue) {
        let mut m: Vec<(String, JsonValue)> = Vec::new();
        self.push_members(&mut m);
        assert(members_view(m@) =~= self.members());
        object(m)
    }
}

/// Optional declarative permissions block.
#[derive(Debug, Clone, PartialEq)]
pub struct Permissions {
    pub provides_tools: Option<Vec<String>>,
    pub needs_tools: Option<Vec<String>>,
    pub suggested_role: Option<String>,
}

impl Permissions {
    /// The members of the JSON form.
    pub open spec fn members(&self) -> Seq<(Seq<char>, Json)> {
        Seq::empty()
            + opt_member("provides_tools"@, self.provides_tools)
            + opt_member("needs_tools"@, self.needs_tools)
            + opt_member("suggested_role"@, self.suggested_role)
    }

    /// Append the members of the JSON form to `m`.
    pub fn push_members(&self, m: &mut Vec<(String, JsonValue)>)
        ensures
            members_view(final(m)@) == members_view(old(m)@) + self.members(),
    {
        let ghost m0 = members_view(m@);
        push_opt(m, "provides_tools", &self.provides_tools);
        push_opt(m, "needs_tools", &self.needs_tools);
        push_opt(m, "suggested_role", &self.suggested_role);
        assert(members_view(m@) =~= m0 + self.members());
    }
}

impl ToJson for Permissions {
    open spec fn json(&self) -> Json {
        Json::Obj(self.members())
    }

    fn to_json(&self) -> (r: JsonValue) {
        let mut m: Vec<(String, JsonValue)> = Vec::new();
        self.push_members(&mut m);
        assert(members_view(m@) =~= self.members());
        object(m)
    }
}

/// A single declared dependency; `version` is required.
#[derive(Debug, Clone, PartialEq)]
pub struct Dependency {
    pub name: String,
    pub version: String,
}

impl Dependency {
    /// The members of the JSON form.
    pub open spec fn members(&self) -> Seq<(Seq<char>, Json)> {
        Seq::empty()
            + seq![("name"@, self.name.json())]
            + seq![("version"@, self.version.json())]
    }

    /// Append the members of the JSON form to `m`.
    pub fn push_members(&self, m: &mut Vec<(String, JsonValue)>)
        ensures
            members_view(final(m)@) == members_view(old(m)@) + self.members(),
    {
        let ghost m0 = members_view(m@);
        push_member(m, "name", &self.name);
        push_member(m, "version", &self.version);
        assert(members_view(m@) =~= m0 + self.members());
    }
}

impl ToJson for Dependency {
    open spec fn json(&self) -> Json {
        Json::Obj(self.members())
    }

    fn to_json(&self) -> (r: JsonValue) {
        let mut m: Vec<(String, JsonValue)> = Vec::new();
        self.push_members(&mut m);
        assert(members_view(m@) =~= self.members());
        object(m)
    }
}

/// Base-package reference used by aagent `extends`.
#[derive(Debug, Clone, PartialEq)]
pub struct PackageDep {
    pub name: String,
    pub version: Option<String>,
}

impl PackageDep {
    /// The members of the JSON form.
    pub open spec fn members(&self) -> Seq<(Seq<char>, Json)> {
        Seq::empty()
            + seq![("name"@, self.name.json())]
            + opt_member("version"@, self.version)
    }

    /// Append the members of the JSON form to `m`.
    pub fn push_members(&self, m: &mut Vec<(String, JsonValue)>)
        ensures
            members_view(final(m)@) == members_view(old(m)@) + self.members(),
    {
        let ghost m0 = members_view(m@);
        push_member(m, "name", &self.name);
        push_opt(m, "version", &self.version);
        assert(members_view(m@) =~= m0 + self.members());
    }
}

impl ToJson for PackageDep {
    open spec fn json(&self) -> Json {
        Json::Obj(self.members())
    }

    fn to_json(&self) -> (r: JsonValue) {
        let mut m: Vec<(String, JsonValue)> = Vec::new();
        self.push_members(&mut m);
        assert(members_view(m@) =~= self.members());
        object(m)
    }
}

/// One resolved entry in an aagent's inheritance `lockfile`.
#[derive(Debug, Clone, PartialEq)]
pub struct LockEntry {
    pub name: String,
    pub interface_major: u32,
    pub contract_hash: Option<String>,
}

impl LockEntry {
    /// The members of the JSON form.
    pub open spec fn members(&self) -> Seq<(Seq<char>, Json)> {
        Seq::empty()
            + seq![("name"@, self.name.json())]
            + seq![("interface_major"@, self.interface_major.json())]
            + opt_member("contract_hash"@, self.contract_hash)
    }

    /// Append the members of the JSON form to `m`.
    pub fn push_members(&self, m: &mut Vec<(String, JsonValue)>)
        ensures
            members_view(final(m)@) == members_view(old(m)@) + self.members(),
    {
        let ghost m0 = members_view(m@);
        push_member(m, "name", &self.name);
        push_member(m, "interface_major", &self.interface_major);
        push_opt(m, "contract_hash", &self.contract_hash);
        assert(members_view(m@) =~= m0 + self.members());
    }
}

impl ToJson for LockEntry {
    open spec fn json(&self) -> Json {
        Json::Obj(self.members())
    }

    fn to_json(&self) -> (r: JsonValue) {
        let mut m: Vec<(String, JsonValue)> = Vec::new();
        self.push_members(&mut m);
        assert(members_view(m@) =~= self.members());
        object(m)
    }
}

/// CPU/memory spec for the optional `k8s_resources` block.
#[derive(Debug, Clone, PartialEq)]
pub struct K8sResourceSpec {
    pub cpu: Option<String>,
    pub memory: Option<String>,
}

impl K8sResourceSpec {
    /// The members of the JSON form.
    pub open spec fn members(&self) -> Seq<(Seq<char>, Json)> {
        Seq::empty()
            + opt_member("cpu"@, self.cpu)
            + opt_member("memory"@, self.memory)
    }

    /// Append the members of the JSON form to `m`.
    pub fn push_members(&self, m: &mut Vec<(String, JsonValue)>)
        ensures
            members_view(final(m)@) == members_view(old(m)@) + self.members(),
    {
        let ghost m0 = members_view(m@);
        push_opt(m, "cpu", &self.cpu);
        push_opt(m, "memory", &self.memory);
        assert(members_view(m@) =~= m0 + self.members());
    }
}

impl ToJson for K8sResourceSpec {
    open spec fn json(&self) -> Json {
        Json::Obj(self.members())
    }

    fn to_json(&self) -> (r: JsonValue) {
        let mut m: Vec<(String, JsonValue)> = Vec::new();
        self.push_members(&mut m);
        assert(members_view(m@) =~= self.members());
        object(m)
    }
}

/// Kubernetes resource requests and limits.
#[derive(Debug, Clone, PartialEq)]
pub struct K8sResources {
    pub requests: Option<K8sResourceSpec>,
    pub limits: Option<K8sResourceSpec>,
}

impl K8sResources {
    /// The members of the JSON form.
    pub open spec fn members(&self) -> Seq<(Seq<char>, Json)> {
        Seq::empty()
            + opt_member("requests"@, self.requests)
            + opt_member("limits"@, self.limits)
    }

    /// Append the members of the JSON form to `m`.
    pub fn push_members(&self, m: &mut Vec<(String, JsonValue)>)
        ensures
            members_view(final(m)@) == members_view(old(m)@) + self.members(),
    {
        let ghost m0 = members_view(m@);
        push_opt(m, "requests", &self.requests);
        push_opt(m, "limits", &self.limits);
        assert(members_view(m@) =~= m0 + self.members());
    }
}

impl ToJson for K8sResources {
    open spec fn json(&self) -> Json {
        Json::Obj(self.members())
    }

    fn to_json(&self) -> (r: JsonValue) {
        let mut m: Vec<(String, JsonValue)> = Vec::new();
        self.push_members(&mut m);
        assert(members_view(m@) =~= self.members());
        object(m)
    }
}

/// Kubernetes hints shared by both binary-tool configs; flattened into the config object.
#[derive(Debug, Clone, PartialEq)]
pub struct K8sHints {
    pub k8s_image: Option<String>,
    pub k8s_capabilities: Option<Vec<String>>,
    pub k8s_port: Option<u16>,
    pub k8s_transport: Option<ToolK8sTransport>,
    pub k8s_resources: Option<K8sResources>,
    pub k8s_min_warm: Option<u32>,
    pub k8s_idle_timeout_seconds: Option<u32>,
}

impl K8sHints {
    /// The members of the JSON form.
    pub open spec fn members(&self) -> Seq<(Seq<char>, Json)> {
        Seq::empty()
            + opt_member("k8s_image"@, self.k8s_image)
            + opt_member("k8s_capabilities"@, self.k8s_capabilities)
            + opt_member("k8s_port"@, self.k8s_port)
            + opt_member("k8s_transport"@, self.k8s_transport)
            + opt_member("k8s_resources"@, self.k8s_resources)
            + opt_member("k8s_min_warm"@, self.k8s_min_warm)
            + opt_member("k8s_idle_timeout_seconds"@, self.k8s_idle_timeout_seconds)
    }

    /// Append the members of the JSON form to `m`.
    pub fn push_members(&self, m: &mut Vec<(String, JsonValue)>)
        ensures
            members_view(final(m)@) == members_view(old(m)@) + self.members(),
    {
        let ghost m0 = members_view(m@);
        push_opt(m, "k8s_image", &self.k8s_image);
        push_opt(m, "k8s_capabilities", &self.k8s_capabilities);
        push_opt(m, "k8s_port", &self.k8s_port);
        push_opt(m, "k8s_transport", &self.k8s_transport);
        push_opt(m, "k8s_resources", &self.k8s_resources);
        push_opt(m, "k8s_min_warm", &self.k8s_min_warm);
        push_opt(m, "k8s_idle_timeout_seconds", &self.k8s_idle_timeout_seconds);
        assert(members_view(m@) =~= m0 + self.members());
    }
}

impl ToJson for K8sHints {
    open spec fn json(&self) -> Json {
        Json::Obj(self.members())
    }

    fn to_json(&self) -> (r: JsonValue) {
        let mut m: Vec<(String, JsonValue)> = Vec::new();
        self.push_members(&mut m);
        assert(members_view(m@) =~= self.members());
        object(m)
    }
}

/// A credential the tool reads from its environment.
#[derive(Debug, Clone, PartialEq)]
pub struct CredentialDecl {
    pub env: String,
    pub required: Option<bool>,
    pub secret: Option<bool>,
    pub rotation: Option<Rotation>,
    pub description: Option<String>,
}

impl CredentialDecl {
    /// The members of the JSON form.
    pub open spec fn members(&self) -> Seq<(Seq<char>, Json)> {
        Seq::empty()
            + seq![("env"@, self.env.json())]
            + opt_member("required"@, self.required)
            + opt_member("secret"@, self.secret)
            + opt_member("rotation"@, self.rotation)
            + opt_member("description"@, self.description)
    }

    /// Append the members of the JSON form to `m`.
    pub fn push_members(&self, m: &mut Vec<(String, JsonValue)>)
        ensures
            members_view(final(m)@) == members_view(old(m)@) + self.members(),
    {
        let ghost m0 = members_view(m@);
        push_member(m, "env", &self.env);
        push_opt(m, "required", &self.required);
        push_opt(m, "secret", &self.secret);
        push_opt(m, "rotation", &self.rotation);
        push_opt(m, "description", &self.description);
        assert(members_view(m@) =~= m0 + self.members());
    }
}

impl ToJson for CredentialDecl {
    open spec fn json(&self) -> Json {
        Json::Obj(self.members())
    }

    fn to_json(&self) -> (r: JsonValue) {
        let mut m: Vec<(String, JsonValue)> = Vec::new();
        self.push_members(&mut m);
        assert(members_view(m@) =~= self.members());
        object(m)
    }
}

/// A plain environment variable the tool reads.
#[derive(Debug, Clone, PartialEq)]
pub struct EnvDecl {
    pub name: String,
    pub default: Option<String>,
}

impl EnvDecl {
    /// The members of the JSON form.
    pub open spec fn members(&self) -> Seq<(Seq<char>, Json)> {
        Seq::empty()
            + seq![("name"@, self.name.json())]
            + opt_member("default"@, self.default)
    }

    /// Append the members of the JSON form to `m`.
    pub fn push_members(&self, m: &mut Vec<(String, JsonValue)>)
        ensures
            members_view(final(m)@) == members_view(old(m)@) + self.members(),
    {
        let ghost m0 = members_view(m@);
        push_member(m, "name", &self.name);
        push_opt(m, "default", &self.default);
        assert(members_view(m@) =~= m0 + self.members());
    }
}

impl ToJson for EnvDecl {
    open spec fn json(&self) -> Json {
        Json::Obj(self.members())
    }

    fn to_json(&self) -> (r: JsonValue) {
        let mut m: Vec<(String, JsonValue)> = Vec::new();
        self.push_members(&mut m);
        assert(members_view(m@) =~= self.members());
        object(m)
    }
}

/// `kind = mcp` config: a binary daemon reached over the MCP protocol.
#[derive(Debug, Clone, PartialEq)]
pub struct McpConfig {
    pub binary: String,
    pub default_port: Option<u16>,
    pub transport: Option<McpTransport>,
    pub args: Option<Vec<String>>,
    pub interface_major: Option<u32>,
    pub k8s: K8sHints,
}

impl McpConfig {
    /// The members of the JSON form.
    pub open spec fn members(&self) -> Seq<(Seq<char>, Json)> {
        Seq::empty()
            + seq![("binary"@, self.binary.json())]
            + opt_member("default_port"@, self.default_port)
            + opt_member("transport"@, self.transport)
            + opt_member("args"@, self.args)
            + opt_member("interface_major"@, self.interface_major)
            + self.k8s.members()
    }

    /// Append the members of the JSON form to `m`.
    pub fn push_members(&self, m: &mut Vec<(String, JsonValue)>)
        ensures
            members_view(final(m)@) == members_view(old(m)@) + self.members(),
    {
        let ghost m0 = members_view(m@);
        push_member(m, "binary", &self.binary);
        push_opt(m, "default_port", &self.default_port);
        push_opt(m, "transport", &self.transport);
        push_opt(m, "args", &self.args);
        push_opt(m, "interface_major", &self.interface_major);
        self.k8s.push_members(m);
        assert(members_view(m@) =~= m0 + self.members());
    }
}

impl ToJson for McpConfig {
    open spec fn json(&self) -> Json {
        Json::Obj(self.members())
    }

    fn to_json(&self) -> (r: JsonValue) {
        let mut m: Vec<(String, JsonValue)> = Vec::new();
        self.push_members(&mut m);
        assert(members_view(m@) =~= self.members());
        object(m)
    }
}

/// `kind = atool` config: a binary daemon reached over the native gRPC `ToolService`, or a code-less tool served by `native_handler` (then `binary` is empty and left out of the JSON form).
#[derive(Debug, Clone, PartialEq)]
pub struct AtoolConfig {
    pub binary: String,
    pub native_handler: String,
    pub input_schema: Option<JsonValue>,
    pub default_port: Option<u16>,
    pub transport: Option<WireTransport>,
    pub args: Option<Vec<String>>,
    pub interface_major: Option<u32>,
    pub credentials: Option<Vec<CredentialDecl>>,
    pub env: Option<Vec<EnvDecl>>,
    pub k8s: K8sHints,
}

impl AtoolConfig {
    /// The members of the JSON form.
    pub open spec fn members(&self) -> Seq<(Seq<char>, Json)> {
        Seq::empty()
            + nonempty_member("binary"@, self.binary)
            + nonempty_member("native_handler"@, self.native_handler)
            + opt_member("input_schema"@, self.input_schema)
            + opt_member("default_port"@, self.default_port)
            + opt_member("transport"@, self.transport)
            + opt_member("args"@, self.args)
            + opt_member("interface_major"@, self.interface_major)
            + opt_member("credentials"@, self.credentials)
            + opt_member("env"@, self.env)
            + self.k8s.members()
    }

    /// Append the members of the JSON form to `m`.
    #[verifier::rlimit(40)]
    pub fn push_members(&self, m: &mut Vec<(String, JsonValue)>)
        ensures
            members_view(final(m)@) == members_view(old(m)@) + self.members(),
    {
        let ghost m0 = members_view(m@);
        push_nonempty(m, "binary", &self.binary);
        push_nonempty(m, "native_handler", &self.native_handler);
        push_opt(m, "input_schema", &self.input_schema);
        push_opt(m, "default_port", &self.default_port);
        push_opt(m, "transport", &self.transport);
        push_opt(m, "args", &self.args);
        push_opt(m, "interface_major", &self.interface_major);
        push_opt(m, "credentials", &self.credentials);
        push_opt(m, "env", &self.env);
        self.k8s.push_members(m);
        assert(members_view(m@) =~= m0 + self.members());
    }
}

impl ToJson for AtoolConfig {
    open spec fn json(&self) -> Json {
        Json::Obj(self.members())
    }

    fn to_json(&self) -> (r: JsonValue) {
        let mut m: Vec<(String, JsonValue)> = Vec::new();
        self.push_members(&mut m);
        assert(members_view(m@) =~= self.members());
        object(m)
    }
}

/// `kind = aagent` config. A skill has only `system_prompt` set.
#[derive(Debug, Clone, PartialEq)]
pub struct AagentConfig {
    pub system_prompt: String,
    pub allowed_tools: Option<Vec<String>>,
    pub model: Option<String>,
    pub history_limit: Option<u32>,
    pub prompt_mode: Option<PromptMode>,
}

impl AagentConfig {
    /// The members of the JSON form.
    pub open spec fn members(&self) -> Seq<(Seq<char>, Json)> {
        Seq::empty()
            + seq![("system_prompt"@, self.system_prompt.json())]
            + opt_member("allowed_tools"@, self.allowed_tools)
            + opt_member("model"@, self.model)
            + opt_member("history_limit"@, self.history_limit)
            + opt_member("prompt_mode"@, self.prompt_mode)
    }

    /// Append the members of the JSON form to `m`.
    pub fn push_members(&self, m: &mut Vec<(String, JsonValue)>)
        ensures
            members_view(final(m)@) == members_view(old(m)@) + self.members(),
    {
        let ghost m0 = members_view(m@);
        push_member(m, "system_prompt", &self.system_prompt);
        push_opt(m, "allowed_tools", &self.allowed_tools);
        push_opt(m, "model", &self.model);
        push_opt(m, "history_limit", &self.history_limit);
        push_opt(m, "prompt_mode", &self.prompt_mode);
        assert(members_view(m@) =~= m0 + self.members());
    }
}

impl ToJson for AagentConfig {
    open spec fn json(&self) -> Json {
        Json::Obj(self.members())
    }

    fn to_json(&self) -> (r: JsonValue) {
        let mut m: Vec<(String, JsonValue)> = Vec::new();
        self.push_members(&mut m);
        assert(members_view(m@) =~= self.members());
        object(m)
    }
}

/// An optional member is found by its own name only, and only when present.
pub proof fn lemma_get_opt_member<T: ToJson>(k2: Seq<char>, x: Option<T>, k: Seq<char>)
    ensures
        crate::json::get(opt_member(k2, x), k) == if k2 == k && x is Some {
            Some(x->Some_0.json())
        } else {
            None::<Json>
        },
{
    match x {
        Some(v) => crate::json::lemma_get_single(k2, v.json(), k),
        None => crate::json::lemma_key_pos_absent(opt_member(k2, x), k),
    }
}

proof fn lemma_aagent_names_distinct()
    ensures
        "kind"@ != "system_prompt"@,
        "kind"@ != "allowed_tools"@,
        "kind"@ != "model"@,
        "kind"@ != "history_limit"@,
        "kind"@ != "prompt_mode"@,
        "system_prompt"@ != "allowed_tools"@,
        "system_prompt"@ != "model"@,
        "system_prompt"@ != "history_limit"@,
        "system_prompt"@ != "prompt_mode"@,
        "allowed_tools"@ != "model"@,
        "allowed_tools"@ != "history_limit"@,
        "allowed_tools"@ != "prompt_mode"@,
        "model"@ != "history_limit"@,
        "model"@ != "prompt_mode"@,
        "history_limit"@ != "prompt_mode"@,
{
    reveal_strlit("kind");
    reveal_strlit("system_prompt");
    reveal_strlit("allowed_tools");
    reveal_strlit("model");
    reveal_strlit("history_limit");
    reveal_strlit("prompt_mode");
    assert("kind"@.len() == 4);
    assert("system_prompt"@.len() == 13);
    assert("allowed_tools"@.len() == 13);
    assert("model"@.len() == 5);
    assert("history_limit"@.len() == 13);
    assert("prompt_mode"@.len() == 11);
    assert("system_prompt"@[0] != "allowed_tools"@[0]);
    assert("system_prompt"@[0] != "history_limit"@[0]);
    assert("allowed_tools"@[0] != "history_limit"@[0]);
}

proof fn lemma_aagent_get(c: AagentConfig, k: Seq<char>)
    ensures
        crate::json::get(PackageConfig::Aagent(c).json()->Obj_0, k) == if k == "kind"@ {
            Some(Json::Str("aagent"@))
        } else if k == "system_prompt"@ {
            Some(c.system_prompt.json())
        } else {
            crate::json::get(
                opt_member("allowed_tools"@, c.allowed_tools) + opt_member("model"@, c.model)
                    + opt_member("history_limit"@, c.history_limit) + opt_member(
                    "prompt_mode"@,
                    c.prompt_mode,
                ),
                k,
            )
        },
{
    lemma_aagent_names_distinct();
    let k0 = seq![("kind"@, Json::Str("aagent"@))];
    let e = Seq::<(Seq<char>, Json)>::empty();
    let sp = seq![("system_prompt"@, c.system_prompt.json())];
    let at = opt_member("allowed_tools"@, c.allowed_tools);
    let mo = opt_member("model"@, c.model);
    let hl = opt_member("history_limit"@, c.history_limit);
    let pm = opt_member("prompt_mode"@, c.prompt_mode);
    let o = PackageConfig::Aagent(c).json()->Obj_0;
    assert(o =~= k0 + (sp + (at + mo + hl + pm)));
    crate::json::lemma_get_single("kind"@, Json::Str("aagent"@), k);
    crate::json::lemma_get_single("system_prompt"@, c.system_prompt.json(), k);
    crate::json::lemma_get_concat(sp, at + mo + hl + pm, k);
    crate::json::lemma_get_concat(k0, sp + (at + mo + hl + pm), k);
}

proof fn lemma_opt_chain(
    a: Seq<(Seq<char>, Json)>,
    b: Seq<(Seq<char>, Json)>,
    c: Seq<(Seq<char>, Json)>,
    d: Seq<(Seq<char>, Json)>,
    k: Seq<char>,
)
    ensures
        crate::json::get(a + b + c + d, k) == if crate::json::get(a, k) is Some {
            crate::json::get(a, k)
        } else if crate::json::get(b, k) is Some {
            crate::json::get(b, k)
        } else if crate::json::get(c, k) is Some {
            crate::json::get(c, k)
        } else {
            crate::json::get(d, k)
        },
{
    crate::json::lemma_get_concat(a, b, k);
    crate::json::lemma_get_concat(a + b, c, k);
    crate::json::lemma_get_concat(a + b + c, d, k);
}

/// The JSON form of an aagent config carries its kind, its prompt and every
/// field that is set, each under its own name, and no member for a field
/// that is not set.
pub proof fn law_aagent_config_json_carries_fields(c: AagentConfig)
    ensures
        ({
            let o = PackageConfig::Aagent(c).json()->Obj_0;
            &&& crate::json::get(o, "kind"@) == Some(Json::Str("aagent"@))
            &&& crate::json::get(o, "system_prompt"@) == Some(Json::Str(c.system_prompt@))
            &&& crate::json::get(o, "allowed_tools"@) == match c.allowed_tools {
                Some(t) => Some(Json::Arr(Seq::new(t@.len(), |i: int| Json::Str(t@[i]@)))),
                None => None,
            }
            &&& crate::json::get(o, "model"@) == match c.model {
                Some(s) => Some(Json::Str(s@)),
                None => None,
            }
            &&& crate::json::get(o, "history_limit"@) == match c.history_limit {
                Some(n) => Some(Json::Num(NumModel::UInt(n as u64))),
                None => None,
            }
            &&& crate::json::get(o, "prompt_mode"@) == match c.prompt_mode {
                Some(PromptMode::Append) => Some(Json::Str("append"@)),
                Some(PromptMode::Replace) => Some(Json::Str("replace"@)),
                None => None,
            }
        }),
{
    lemma_aagent_names_distinct();
    let o = PackageConfig::Aagent(c).json()->Obj_0;
    lemma_aagent_get(c, "kind"@);
    lemma_aagent_get(c, "system_prompt"@);
    lemma_aagent_get(c, "allowed_tools"@);
    lemma_aagent_get(c, "model"@);
    lemma_aagent_get(c, "history_limit"@);
    lemma_aagent_get(c, "prompt_mode"@);
    let at = opt_member("allowed_tools"@, c.allowed_tools);
    let mo = opt_member("model"@, c.model);
    let hl = opt_member("history_limit"@, c.history_limit);
    let pm = opt_member("prompt_mode"@, c.prompt_mode);
    lemma_opt_chain(at, mo, hl, pm, "allowed_tools"@);
    lemma_opt_chain(at, mo, hl, pm, "model"@);
    lemma_opt_chain(at, mo, hl, pm, "history_limit"@);
    lemma_opt_chain(at, mo, hl, pm, "prompt_mode"@);
    lemma_get_opt_member("allowed_tools"@, c.allowed_tools, "allowed_tools"@);
    lemma_get_opt_member("model"@, c.model, "allowed_tools"@);
    lemma_get_opt_member("history_limit"@, c.history_limit, "allowed_tools"@);
    lemma_get_opt_member("prompt_mode"@, c.prompt_mode, "allowed_tools"@);
    lemma_get_opt_member("allowed_tools"@, c.allowed_tools, "model"@);
    lemma_get_opt_member("model"@, c.model, "model"@);
    lemma_get_opt_member("history_limit"@, c.history_limit, "model"@);
    lemma_get_opt_member("prompt_mode"@, c.prompt_mode, "model"@);
    lemma_get_opt_member("allowed_tools"@, c.allowed_tools, "history_limit"@);
    lemma_get_opt_member("model"@, c.model, "history_limit"@);
    lemma_get_opt_member("history_limit"@, c.history_limit, "history_limit"@);
    lemma_get_opt_member("prompt_mode"@, c.prompt_mode, "history_limit"@);
    lemma_get_opt_member("allowed_tools"@, c.allowed_tools, "prompt_mode"@);
    lemma_get_opt_member("model"@, c.model, "prompt_mode"@);
    lemma_get_opt_member("history_limit"@, c.history_limit, "prompt_mode"@);
    lemma_get_opt_member("prompt_mode"@, c.prompt_mode, "prompt_mode"@);
    if let Some(t) = c.allowed_tools {
        assert(Seq::new(t@.len(), |i: int| t@[i].json()) =~= Seq::new(t@.len(), |i: int| Json::Str(t@[i]@)));
        assert(t.json() == Json::Arr(Seq::new(t@.len(), |i: int| Json::Str(t@[i]@))));
    }
    if let Some(p) = c.prompt_mode {
        assert(p.json() == Json::Str(p.wire_name()));
    }
    assert(crate::json::get(o, "kind"@) == Some(Json::Str("aagent"@)));
    assert(crate::json::get(o, "system_prompt"@) == Some(Json::Str(c.system_prompt@)));
    assert(crate::json::get(o, "allowed_tools"@) == match c.allowed_tools {
        Some(t) => Some(Json::Arr(Seq::new(t@.len(), |i: int| Json::Str(t@[i]@)))),
        None => None,
    });
    assert(crate::json::get(o, "model"@) == match c.model {
        Some(s) => Some(Json::Str(s@)),
        None => None,
    });
    assert(crate::json::get(o, "history_limit"@) == match c.history_limit {
        Some(n) => Some(Json::Num(NumModel::UInt(n as u64))),
        None => None,
    });
    assert(crate::json::get(o, "prompt_mode"@) == match c.prompt_mode {
        Some(PromptMode::Append) => Some(Json::Str("append"@)),
        Some(PromptMode::Replace) => Some(Json::Str("replace"@)),
        None => None,
    });
}

/// `kind = bundle` config: the tools the bundle groups.
#[derive(Debug, Clone, PartialEq)]
pub struct BundleConfig {
    pub tools: Vec<String>,
}

impl BundleConfig {
    /// The members of the JSON form.
    pub open spec fn members(&self) -> Seq<(Seq<char>, Json)> {
        Seq::empty()
            + seq![("tools"@, self.tools.json())]
    }

    /// Append the members of the JSON form to `m`.
    pub fn push_members(&self, m: &mut Vec<(String, JsonValue)>)
        ensures
            members_view(final(m)@) == members_view(old(m)@) + self.members(),
    {
        let ghost m0 = members_view(m@);
        push_member(m, "tools", &self.tools);
        assert(members_view(m@) =~= m0 + self.members());
    }
}

impl ToJson for BundleConfig {
    open spec fn json(&self) -> Json {
        Json::Obj(self.members())
    }

    fn to_json(&self) -> (r: JsonValue) {
        let mut m: Vec<(String, JsonValue)> = Vec::new();
        self.push_members(&mut m);
        assert(members_view(m@) =~= self.members());
        object(m)
    }
}

/// Merge rules for flattening components into the root aagent at install time.
#[derive(Debug, Clone, PartialEq)]
pub struct InstallFlatten {
    pub system_prompt: Option<String>,
    pub allowed_tools: Option<String>,
    pub model: Option<String>,
    pub history_limit: Option<String>,
}

impl InstallFlatten {
    /// The members of the JSON form.
    pub open spec fn members(&self) -> Seq<(Seq<char>, Json)> {
        Seq::empty()
            + opt_member("system_prompt"@, self.system_prompt)
            + opt_member("allowed_tools"@, self.allowed_tools)
            + opt_member("model"@, self.model)
            + opt_member("history_limit"@, self.history_limit)
    }

    /// Append the members of the JSON form to `m`.
    pub fn push_members(&self, m: &mut Vec<(String, JsonValue)>)
        ensures
            members_view(final(m)@) == members_view(old(m)@) + self.members(),
    {
        let ghost m0 = members_view(m@);
        push_opt(m, "system_prompt", &self.system_prompt);
        push_opt(m, "allowed_tools", &self.allowed_tools);
        push_opt(m, "model", &self.model);
        push_opt(m, "history_limit", &self.history_limit);
        assert(members_view(m@) =~= m0 + self.members());
    }
}

impl ToJson for InstallFlatten {
    open spec fn json(&self) -> Json {
        Json::Obj(self.members())
    }

    fn to_json(&self) -> (r: JsonValue) {
        let mut m: Vec<(String, JsonValue)> = Vec::new();
        self.push_members(&mut m);
        assert(members_view(m@) =~= self.members());
        object(m)
    }
}

/// Install block: merge rules for an aagent with components.
#[derive(Debug, Clone, PartialEq)]
pub struct InstallBlock {
    pub flatten: Option<InstallFlatten>,
}

impl InstallBlock {
    /// The members of the JSON form.
    pub open spec fn members(&self) -> Seq<(Seq<char>, Json)> {
        Seq::empty()
            + opt_member("flatten"@, self.flatten)
    }

    /// Append the members of the JSON form to `m`.
    pub fn push_members(&self, m: &mut Vec<(String, JsonValue)>)
        ensures
            members_view(final(m)@) == members_view(old(m)@) + self.members(),
    {
        let ghost m0 = members_view(m@);
        push_opt(m, "flatten", &self.flatten);
        assert(members_view(m@) =~= m0 + self.members());
    }
}

impl ToJson for InstallBlock {
    open spec fn json(&self) -> Json {
        Json::Obj(self.members())
    }

    fn to_json(&self) -> (r: JsonValue) {
        let mut m: Vec<(String, JsonValue)> = Vec::new();
        self.push_members(&mut m);
        assert(members_view(m@) =~= self.members());
        object(m)
    }
}

/// Signature block of a signed archive.
#[derive(Debug, Clone, PartialEq)]
pub struct SignatureBlock {
    pub alg: String,
    pub key_fingerprint: String,
    pub value: String,
    pub scope: String,
}

impl SignatureBlock {
    /// The members of the JSON form.
    pub open spec fn members(&self) -> Seq<(Seq<char>, Json)> {
        Seq::empty()
            + seq![("alg"@, self.alg.json())]
            + seq![("key_fingerprint"@, self.key_fingerprint.json())]
            + seq![("value"@, self.value.json())]
            + seq![("scope"@, self.scope.json())]
    }

    /// Append the members of the JSON form to `m`.
    pub fn push_members(&self, m: &mut Vec<(String, JsonValue)>)
        ensures
            members_view(final(m)@) == members_view(old(m)@) + self.members(),
    {
        let ghost m0 = members_view(m@);
        push_member(m, "alg", &self.alg);
        push_member(m, "key_fingerprint", &self.key_fingerprint);
        push_member(m, "value", &self.value);
        push_member(m, "scope", &self.scope);
        assert(members_view(m@) =~= m0 + self.members());
    }
}

impl ToJson for SignatureBlock {
    open spec fn json(&self) -> Json {
        Json::Obj(self.members())
    }

    fn to_json(&self) -> (r: JsonValue) {
        let mut m: Vec<(String, JsonValue)> = Vec::new();
        self.push_members(&mut m);
        assert(members_view(m@) =~= self.members());
        object(m)
    }
}

/// External component reference (`{"ref": "ns/name@version"}`).
#[derive(Debug, Clone, PartialEq)]
pub struct RefComponent {
    pub ref_target: String,
}

impl RefComponent {
    /// The members of the JSON form.
    pub open spec fn members(&self) -> Seq<(Seq<char>, Json)> {
        Seq::empty()
            + seq![("ref"@, self.ref_target.json())]
    }

    /// Append the members of the JSON form to `m`.
    pub fn push_members(&self, m: &mut Vec<(String, JsonValue)>)
        ensures
            members_view(final(m)@) == members_view(old(m)@) + self.members(),
    {
        let ghost m0 = members_view(m@);
        push_member(m, "ref", &self.ref_target);
        assert(members_view(m@) =~= m0 + self.members());
    }
}

impl ToJson for RefComponent {
    open spec fn json(&self) -> Json {
        Json::Obj(self.members())
    }

    fn to_json(&self) -> (r: JsonValue) {
        let mut m: Vec<(String, JsonValue)> = Vec::new();
        self.push_members(&mut m);
        assert(members_view(m@) =~= self.members());
        object(m)
    }
}


/// Config of an inline component (aagent only); tagged by `kind` on the wire.
#[derive(Debug, Clone, PartialEq)]
pub enum InlineConfig {
    Aagent(AagentConfig),
}

impl ToJson for InlineConfig {
    open spec fn json(&self) -> Json {
        match self {
            InlineConfig::Aagent(c) => Json::Obj(seq![("kind"@, Json::Str("aagent"@))] + c.members()),
        }
    }

    fn to_json(&self) -> (r: JsonValue) {
        let mut m: Vec<(String, JsonValue)> = Vec::new();
        m.push((String::from_str("kind"), JsonValue::Str(String::from_str("aagent"))));
        assert(members_view(m@) =~= seq![("kind"@, Json::Str("aagent"@))]);
        match self {
            InlineConfig::Aagent(c) => c.push_members(&mut m),
        }
        object(m)
    }
}

/// The `config` payload, tagged by `kind` on the wire
/// (`{"kind": "atool", "binary": ...}`).
#[derive(Debug, Clone, PartialEq)]
pub enum PackageConfig {
    Mcp(McpConfig),
    Atool(AtoolConfig),
    Aagent(AagentConfig),
    Bundle(BundleConfig),
}

impl PackageConfig {
    /// The package kind this config belongs to.
    pub open spec fn config_kind(&self) -> Kind {
        match self {
            PackageConfig::Mcp(_) => Kind::Mcp,
            PackageConfig::Atool(_) => Kind::Atool,
            PackageConfig::Aagent(_) => Kind::Aagent,
            PackageConfig::Bundle(_) => Kind::Bundle,
        }
    }

    /// The package kind this config belongs to.
    pub fn kind(&self) -> (k: Kind)
        ensures
            k == self.config_kind(),
    {
        match self {
            PackageConfig::Mcp(_) => Kind::Mcp,
            PackageConfig::Atool(_) => Kind::Atool,
            PackageConfig::Aagent(_) => Kind::Aagent,
            PackageConfig::Bundle(_) => Kind::Bundle,
        }
    }

    pub open spec fn body_members(&self) -> Seq<(Seq<char>, Json)> {
        match self {
            PackageConfig::Mcp(c) => c.members(),
            PackageConfig::Atool(c) => c.members(),
            PackageConfig::Aagent(c) => c.members(),
            PackageConfig::Bundle(c) => c.members(),
        }
    }
}

impl ToJson for PackageConfig {
    open spec fn json(&self) -> Json {
        Json::Obj(seq![("kind"@, self.config_kind().json())] + self.body_members())
    }

    fn to_json(&self) -> (r: JsonValue) {
        let mut m: Vec<(String, JsonValue)> = Vec::new();
        let k = self.kind();
        push_member(&mut m, "kind", &k);
        assert(members_view(m@) =~= seq![("kind"@, self.config_kind().json())]);
        match self {
            PackageConfig::Mcp(c) => c.push_members(&mut m),
            PackageConfig::Atool(c) => c.push_members(&mut m),
            PackageConfig::Aagent(c) => c.push_members(&mut m),
            PackageConfig::Bundle(c) => c.push_members(&mut m),
        }
        object(m)
    }
}

/// A bundle is pure composition: the JSON form of its config has a `kind`
/// member and a `tools` member and nothing else, so neither a `binary` nor a
/// `system_prompt` goes on the wire.
pub proof fn law_bundle_config_is_composition(c: BundleConfig)
    ensures
        PackageConfig::Bundle(c).json() == Json::Obj(
            seq![("kind"@, Json::Str("bundle"@)), ("tools"@, c.tools.json())],
        ),
        !crate::json::has_key(PackageConfig::Bundle(c).json()->Obj_0, "binary"@),
        !crate::json::has_key(PackageConfig::Bundle(c).json()->Obj_0, "system_prompt"@),
{
    let o = PackageConfig::Bundle(c).json()->Obj_0;
    assert(o =~= seq![("kind"@, Json::Str("bundle"@)), ("tools"@, c.tools.json())]);
    reveal_strlit("kind");
    reveal_strlit("tools");
    reveal_strlit("binary");
    reveal_strlit("system_prompt");
    assert(o[0].0 != "binary"@ && o[1].0 != "binary"@) by {
        assert("kind"@.len() != "binary"@.len());
        assert("tools"@.len() != "binary"@.len());
    }
    assert(o[0].0 != "system_prompt"@ && o[1].0 != "system_prompt"@) by {
        assert("kind"@.len() != "system_prompt"@.len());
        assert("tools"@.len() != "system_prompt"@.len());
    }
    crate::json::lemma_key_pos_absent(o, "binary"@);
    crate::json::lemma_key_pos_absent(o, "system_prompt"@);
}

/// Inline sub-agent embedded in a parent aagent's components.
#[derive(Debug, PartialEq)]
pub struct InlineComponent {
    pub name: String,
    /// Canonical `ns/name@version` for coalescing.
    pub id: String,
    pub kind: InlineComponentKind,
    pub config: InlineConfig,
    pub components: Option<Vec<ComponentItem>>,
    pub files: Option<Vec<FileEntry>>,
    pub permissions: Option<Permissions>,
    pub dependencies: Option<Vec<Dependency>>,
}

/// An entry of `components[]`: an external reference or an inline sub-agent.
/// On the wire a `ref` member marks a reference.
#[derive(Debug, PartialEq)]
pub enum ComponentItem {
    Ref(RefComponent),
    Inline(InlineComponent),
}

pub open spec fn inline_head(i: InlineComponent) -> Seq<(Seq<char>, Json)> {
    Seq::empty() + seq![("name"@, i.name.json())] + seq![("id"@, i.id.json())] + seq![
        ("kind"@, i.kind.json()),
    ] + seq![("config"@, i.config.json())]
}

pub open spec fn inline_tail(i: InlineComponent) -> Seq<(Seq<char>, Json)> {
    opt_member("files"@, i.files) + opt_member("permissions"@, i.permissions) + opt_member(
        "dependencies"@,
        i.dependencies,
    )
}

/// The JSON form of a component.
pub open spec fn component_json(c: ComponentItem) -> Json
    decreases c,
{
    match c {
        ComponentItem::Ref(r) => r.json(),
        ComponentItem::Inline(i) => {
            let kids = match i.components {
                Some(v) => seq![
                    (
                        "components"@,
                        Json::Arr(
                            Seq::new(
                                v@.len(),
                                |k: int|
                                    if 0 <= k < v@.len() {
                                        proof {
                                            assert(decreases_to!(c => c->Inline_0));
                                            assert(decreases_to!(c->Inline_0 => c->Inline_0.components));
                                            assert(decreases_to!(i.components => i.components->Some_0));
                                            assert(decreases_to!(v => v@));
                                            assert(decreases_to!(v@ => v@[k]));
                                        }
                                        component_json(v@[k])
                                    } else {
                                        Json::Null
                                    },
                            ),
                        ),
                    ),
                ],
                None => Seq::empty(),
            };
            Json::Obj(inline_head(i) + kids + inline_tail(i))
        },
    }
}

proof fn lemma_inline_json(i: InlineComponent, av: Seq<Json>)
    requires
        i.components is Some,
        av.len() == i.components->Some_0@.len(),
        forall|k: int|
            0 <= k < av.len() ==> #[trigger] av[k] == component_json(i.components->Some_0@[k]),
    ensures
        component_json(ComponentItem::Inline(i)) == Json::Obj(
            inline_head(i) + seq![("components"@, Json::Arr(av))] + inline_tail(i),
        ),
{
    let full = component_json(ComponentItem::Inline(i));
    let s = full->Obj_0;
    let h = inline_head(i);
    let arr = s[h.len() as int].1->Arr_0;
    assert(arr =~= av);
    assert(s =~= inline_head(i) + seq![("components"@, Json::Arr(av))] + inline_tail(i));
}

proof fn lemma_inline_json_none(i: InlineComponent)
    requires
        i.components is None,
    ensures
        component_json(ComponentItem::Inline(i)) == Json::Obj(inline_head(i) + inline_tail(i)),
{
    assert(component_json(ComponentItem::Inline(i))->Obj_0 =~= inline_head(i) + inline_tail(i));
}

fn component_to_json(c: &ComponentItem) -> (r: JsonValue)
    ensures
        r.view() == component_json(*c),
    decreases c,
{
    match c {
        ComponentItem::Ref(rc) => rc.to_json(),
        ComponentItem::Inline(i) => {
            let mut m: Vec<(String, JsonValue)> = Vec::new();
            push_member(&mut m, "name", &i.name);
            push_member(&mut m, "id", &i.id);
            push_member(&mut m, "kind", &i.kind);
            push_member(&mut m, "config", &i.config);
            let ghost head = members_view(m@);
            assert(head =~= inline_head(*i));
            match &i.components {
                Some(v) => {
                    let mut arr: Vec<JsonValue> = Vec::new();
                    let mut k: usize = 0;
                    while k < v.len()
                        invariant
                            *c == ComponentItem::Inline(*i),
                            i.components == Some(*v),
                            k <= v@.len(),
                            arr@.len() == k,
                            forall|j: int| 0 <= j < k ==> #[trigger] arr@[j].view() == component_json(v@[j]),
                        decreases v@.len() - k,
                    {
                        proof {
                            assert(decreases_to!(*c => (*c)->Inline_0));
                            assert(decreases_to!((*c)->Inline_0 => (*c)->Inline_0.components));
                            assert(decreases_to!(i.components => i.components->Some_0));
                            assert(decreases_to!(*v => v@));
                            assert(decreases_to!(v@ => v@[k as int]));
                        }
                        let x = component_to_json(&v[k]);
                        arr.push(x);
                        k = k + 1;
                    }
                    proof {
                        crate::json::lemma_array_view(arr);
                    }
                    let ghost before = members_view(m@);
                    let ghost av = crate::json::items_view(arr@);
                    m.push((String::from_str("components"), JsonValue::Array(arr)));
                    assert(members_view(m@) =~= before.push(("components"@, Json::Arr(av))));
                    proof {
                        lemma_inline_json(*i, av);
                    }
                },
                None => {
                    proof {
                        lemma_inline_json_none(*i);
                    }
                },
            }
            let ghost mid = members_view(m@);
            push_opt(&mut m, "files", &i.files);
            push_opt(&mut m, "permissions", &i.permissions);
            push_opt(&mut m, "dependencies", &i.dependencies);
            assert(members_view(m@) =~= mid + inline_tail(*i));
            assert(*c == ComponentItem::Inline(*i));
            assert(i.components is Some ==> mid =~= inline_head(*i) + seq![("components"@, component_json(*c)->Obj_0[4].1)]);
            let res = object(m);
            assert(res.view() == component_json(*c));
            res
        },
    }
}

impl ToJson for ComponentItem {
    open spec fn json(&self) -> Json {
        component_json(*self)
    }

    fn to_json(&self) -> (r: JsonValue) {
        component_to_json(self)
    }
}

/// Top-level package manifest: the JSON written into `atool.json`.
#[derive(Debug, PartialEq)]
pub struct Manifest {
    pub schema_version: String,
    pub name: String,
    pub version: String,
    pub kind: Kind,
    pub description: String,
    pub author: Option<String>,
    pub license: Option<String>,
    pub requires_alexandria: Option<String>,
    pub dependencies: Option<Vec<Dependency>>,
    /// Base packages this aagent extends (aagent only).
    pub extends: Option<Vec<PackageDep>>,
    /// Resolved inheritance lockfile (aagent only).
    pub lockfile: Option<Vec<LockEntry>>,
    pub files: Option<Vec<FileEntry>>,
    pub permissions: Option<Permissions>,
    pub config: PackageConfig,
    /// Inline sub-components or external refs (aagent only).
    pub components: Option<Vec<ComponentItem>>,
    /// Install-time merge rules (aagents with components only).
    pub install: Option<InstallBlock>,
    pub signature: Option<SignatureBlock>,
}

impl Manifest {
    /// The members of the JSON form.
    pub open spec fn members(&self) -> Seq<(Seq<char>, Json)> {
        Seq::empty() + seq![("schema_version"@, self.schema_version.json())] + seq![
            ("name"@, self.name.json()),
        ] + seq![("version"@, self.version.json())] + seq![("kind"@, self.kind.json())] + seq![
            ("description"@, self.description.json()),
        ] + opt_member("author"@, self.author) + opt_member("license"@, self.license) + opt_member(
            "requires_alexandria"@,
            self.requires_alexandria,
        ) + opt_member("dependencies"@, self.dependencies) + opt_member("extends"@, self.extends)
            + opt_member("lockfile"@, self.lockfile) + opt_member("files"@, self.files) + opt_member(
            "permissions"@,
            self.permissions,
        ) + seq![("config"@, self.config.json())] + opt_member("components"@, self.components)
            + opt_member("install"@, self.install) + opt_member("signature"@, self.signature)
    }
}

impl ToJson for Manifest {
    open spec fn json(&self) -> Json {
        Json::Obj(self.members())
    }

    #[verifier::rlimit(40)]
    fn to_json(&self) -> (r: JsonValue) {
        let mut m: Vec<(String, JsonValue)> = Vec::new();
        push_member(&mut m, "schema_version", &self.schema_version);
        push_member(&mut m, "name", &self.name);
        push_member(&mut m, "version", &self.version);
        push_member(&mut m, "kind", &self.kind);
        push_member(&mut m, "description", &self.description);
        push_opt(&mut m, "author", &self.author);
        push_opt(&mut m, "license", &self.license);
        push_opt(&mut m, "requires_alexandria", &self.requires_alexandria);
        push_opt(&mut m, "dependencies", &self.dependencies);
        push_opt(&mut m, "extends", &self.extends);
        push_opt(&mut m, "lockfile", &self.lockfile);
        push_opt(&mut m, "files", &self.files);
        push_opt(&mut m, "permissions", &self.permissions);
        push_member(&mut m, "config", &self.config);
        push_opt(&mut m, "components", &self.components);
        push_opt(&mut m, "install", &self.install);
        push_opt(&mut m, "signature", &self.signature);
        assert(members_view(m@) =~= self.members());
        object(m)
    }
}


impl CredentialDecl {
    /// A credential read from the environment variable `env`: secret, and the
    /// tool respawns when it rotates.
    pub fn new(env: &str) -> (r: CredentialDecl)
        ensures
            r.env@ == env@,
            r.required is None,
            r.secret == Some(true),
            r.rotation == Some(Rotation::Respawn),
            r.description is None,
    {
        CredentialDecl {
            env: String::from_str(env),
            required: None,
            secret: Some(true),
            rotation: Some(Rotation::Respawn),
            description: None,
        }
    }

    /// Say whether the tool cannot run without the credential.
    pub fn required(self, b: bool) -> (r: CredentialDecl)
        ensures
            r == (CredentialDecl { required: Some(b), ..self }),
    {
        CredentialDecl { required: Some(b), ..self }
    }

    /// Say whether the credential is a secret.
    pub fn secret(self, b: bool) -> (r: CredentialDecl)
        ensures
            r == (CredentialDecl { secret: Some(b), ..self }),
    {
        CredentialDecl { secret: Some(b), ..self }
    }

    /// Say what happens when the credential rotates.
    pub fn rotation(self, rot: Rotation) -> (r: CredentialDecl)
        ensures
            r == (CredentialDecl { rotation: Some(rot), ..self }),
    {
        CredentialDecl { rotation: Some(rot), ..self }
    }

    /// Describe the credential.
    pub fn description(self, d: &str) -> (r: CredentialDecl)
        ensures
            r.description matches Some(s) && s@ == d@,
            r == (CredentialDecl { description: r.description, ..self }),
    {
        CredentialDecl { description: Some(String::from_str(d)), ..self }
    }
}

impl EnvDecl {
    /// A plain environment variable `name`, with no default.
    pub fn new(name: &str) -> (r: EnvDecl)
        ensures
            r.name@ == name@,
            r.default is None,
    {
        EnvDecl { name: String::from_str(name), default: None }
    }

    /// Give the variable a default value.
    pub fn default_value(self, v: &str) -> (r: EnvDecl)
        ensures
            r.default matches Some(s) && s@ == v@,
            r.name == self.name,
    {
        EnvDecl { default: Some(String::from_str(v)), ..self }
    }
}

} // verus!

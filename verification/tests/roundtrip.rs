//! Round trips of the builders through the pack / verify pipeline, schema
//! checks, and migrations.

use std::io::Read;

use sha2::Digest;

use alex_sdk::builders::{Agent, Bundle, Skill, Tool};
use alex_sdk::error::Error;
use alex_sdk::json::{JsonNumber, JsonValue};
use alex_sdk::manifest::{
    ComponentItem, CredentialDecl, EnvDecl, InstallFlatten, Kind, LockEntry, Manifest,
    PackageConfig, PackageDep, PromptMode, Rotation, ToJson, WireTransport,
};
use alex_sdk::migrate::migrate_manifest;
use alex_sdk::pack::{archive_entries, pack, split_archive, verify};
use alex_sdk::schema::validate;

// ---------------------------------------------------------------------------
// Helpers: JSON values, serde_json text, and an in-memory .tar.gz
// ---------------------------------------------------------------------------

fn s(v: &str) -> JsonValue {
    JsonValue::Str(v.to_string())
}

fn obj(members: Vec<(&str, JsonValue)>) -> JsonValue {
    JsonValue::Object(members.into_iter().map(|(k, v)| (k.to_string(), v)).collect())
}

fn arr(items: Vec<JsonValue>) -> JsonValue {
    JsonValue::Array(items)
}

fn to_serde(v: &JsonValue) -> serde_json::Value {
    match v {
        JsonValue::Null => serde_json::Value::Null,
        JsonValue::Bool(b) => serde_json::Value::Bool(*b),
        JsonValue::Number(JsonNumber::UInt(n)) => serde_json::Value::from(*n),
        JsonValue::Number(JsonNumber::NegInt(n)) => serde_json::Value::from(*n),
        JsonValue::Number(JsonNumber::Float(t)) => {
            serde_json::Value::from(t.parse::<f64>().expect("float text"))
        }
        JsonValue::Str(t) => serde_json::Value::String(t.clone()),
        JsonValue::Array(items) => serde_json::Value::Array(items.iter().map(to_serde).collect()),
        JsonValue::Object(members) => {
            let mut m = serde_json::Map::new();
            for (k, x) in members {
                m.insert(k.clone(), to_serde(x));
            }
            serde_json::Value::Object(m)
        }
    }
}

fn from_serde(v: &serde_json::Value) -> JsonValue {
    match v {
        serde_json::Value::Null => JsonValue::Null,
        serde_json::Value::Bool(b) => JsonValue::Bool(*b),
        serde_json::Value::Number(n) => {
            if let Some(u) = n.as_u64() {
                JsonValue::Number(JsonNumber::UInt(u))
            } else if let Some(i) = n.as_i64() {
                JsonValue::Number(JsonNumber::NegInt(i))
            } else {
                JsonValue::Number(JsonNumber::Float(n.to_string()))
            }
        }
        serde_json::Value::String(t) => JsonValue::Str(t.clone()),
        serde_json::Value::Array(items) => JsonValue::Array(items.iter().map(from_serde).collect()),
        serde_json::Value::Object(m) => {
            JsonValue::Object(m.iter().map(|(k, x)| (k.clone(), from_serde(x))).collect())
        }
    }
}

fn write_targz(entries: &[alex_sdk::pack::ArchiveEntry]) -> Vec<u8> {
    let gz = flate2::write::GzEncoder::new(Vec::new(), flate2::Compression::default());
    let mut builder = tar::Builder::new(gz);
    for e in entries {
        let mut header = tar::Header::new_gnu();
        header.set_path(&e.path).expect("path");
        header.set_size(e.data.len() as u64);
        header.set_mode(e.mode);
        header.set_cksum();
        builder.append(&header, e.data.as_slice()).expect("append");
    }
    builder.into_inner().expect("tar").finish().expect("gzip")
}

fn read_targz(bytes: &[u8]) -> Vec<(String, Vec<u8>, u32)> {
    let mut archive = tar::Archive::new(flate2::read::GzDecoder::new(bytes));
    let mut out = Vec::new();
    for entry in archive.entries().expect("entries") {
        let mut entry = entry.expect("entry");
        let path = entry.path().expect("path").to_string_lossy().into_owned();
        let mode = entry.header().mode().expect("mode");
        let mut buf = Vec::new();
        entry.read_to_end(&mut buf).expect("read");
        out.push((path, buf, mode));
    }
    out
}

/// Pack a built manifest with the given file contents into a .tar.gz, read it
/// back and verify it. Returns the packed manifest and the archive bytes.
fn pack_and_verify(manifest: Manifest, contents: Vec<Vec<u8>>) -> (Manifest, Vec<u8>) {
    let packed = pack(manifest, &contents).expect("pack");
    let text = serde_json::to_vec_pretty(&to_serde(&packed.to_json())).expect("serialise");
    let entries = archive_entries(&packed, text, contents);
    let tarball = write_targz(&entries);

    let read: Vec<(String, Vec<u8>)> =
        read_targz(&tarball).into_iter().map(|(p, b, _)| (p, b)).collect();
    assert_eq!(read[0].0, "atool.json", "atool.json comes first");
    let parts = split_archive(read, true).expect("manifest entry");
    let parsed: serde_json::Value = serde_json::from_slice(&parts.manifest_bytes).expect("json");
    assert_eq!(parsed, to_serde(&packed.to_json()), "atool.json holds the packed manifest");
    let verified = verify(packed, &parts.file_bytes).expect("verify");
    (verified, tarball)
}

fn files_of(m: &Manifest) -> &Vec<alex_sdk::manifest::FileEntry> {
    m.files.as_ref().expect("files set")
}

// ---------------------------------------------------------------------------
// Builders and pack / verify
// ---------------------------------------------------------------------------

#[test]
fn agent_build_pack_verify_roundtrip() {
    let manifest = Agent::new("acme/hello", "0.1.0")
        .description("a tiny hello agent")
        .system_prompt("You are a helpful assistant.")
        .model("acme-small")
        .history_limit(50)
        .build()
        .expect("build");
    let (v, _) = pack_and_verify(manifest, vec![]);

    assert_eq!(v.name, "acme/hello");
    assert_eq!(v.version, "0.1.0");
    assert_eq!(v.schema_version, "2");
    if let PackageConfig::Aagent(cfg) = &v.config {
        assert_eq!(cfg.model.as_deref(), Some("acme-small"));
        assert_eq!(cfg.history_limit, Some(50));
    } else {
        panic!("expected AagentConfig");
    }
}

#[test]
fn tool_defaults_to_atool_and_populates_sha256() {
    let content = b"#!/bin/sh\necho hi\n".to_vec();
    let tool = Tool::new("acme/dummy", "0.1.0")
        .description("dummy tool")
        .binary("./dummy-bin")
        .interface_major(2)
        .stage_file("dummy-bin", "dummy-bin", "bin/dummy-bin", true);
    assert_eq!(tool.staged().len(), 1);
    let manifest = tool.build().expect("build");
    let (manifest, tarball) = pack_and_verify(manifest, vec![content.clone()]);

    assert_eq!(manifest.kind, Kind::Atool);
    if let PackageConfig::Atool(cfg) = &manifest.config {
        assert_eq!(cfg.interface_major, Some(2));
    } else {
        panic!("expected AtoolConfig");
    }

    let files = files_of(&manifest);
    assert_eq!(files.len(), 1);
    let sha = files[0].sha256.as_ref().expect("sha256 populated");
    assert_eq!(sha.len(), 64, "sha256 should be 64 hex chars");
    assert!(sha.chars().all(|c| c.is_ascii_hexdigit()));
    let expected = hex::encode(sha2::Sha256::digest(&content));
    assert_eq!(sha, &expected);

    let read = read_targz(&tarball);
    assert_eq!(read.len(), 2);
    assert_eq!(read[1].0, "dummy-bin");
    assert_eq!(read[1].1, content);
    assert_eq!(read[1].2, 0o755, "executable files get mode 0o755");
    assert_eq!(read[0].2, 0o644);
}

#[test]
fn tool_credential_and_env_round_trip() {
    let manifest = Tool::new("acme/github", "0.1.0")
        .description("GitHub tool with a declared credential")
        .binary("bin/gh")
        .credential(
            CredentialDecl::new("GITHUB_PERSONAL_ACCESS_TOKEN")
                .required(true)
                .description("GitHub PAT"),
        )
        .env_var(EnvDecl::new("GITHUB_HOST").default_value("github.com"))
        .stage_file("gh-bin", "bin/gh", "tools/gh/bin/gh", true)
        .build()
        .expect("build");
    let (v, _) = pack_and_verify(manifest, vec![b"#!/bin/sh\nexit 0\n".to_vec()]);

    if let PackageConfig::Atool(cfg) = &v.config {
        let creds = cfg.credentials.as_ref().expect("credentials set");
        assert_eq!(creds.len(), 1);
        assert_eq!(creds[0].env, "GITHUB_PERSONAL_ACCESS_TOKEN");
        assert_eq!(creds[0].required, Some(true));
        assert_eq!(creds[0].secret, Some(true), "secret defaults to true");
        assert_eq!(
            creds[0].rotation,
            Some(Rotation::Respawn),
            "rotation defaults to respawn"
        );
        assert_eq!(creds[0].description.as_deref(), Some("GitHub PAT"));
        let envs = cfg.env.as_ref().expect("env set");
        assert_eq!(envs.len(), 1);
        assert_eq!(envs[0].name, "GITHUB_HOST");
        assert_eq!(envs[0].default.as_deref(), Some("github.com"));
    } else {
        panic!("expected AtoolConfig");
    }
}

#[test]
fn credential_with_illegal_env_name_is_rejected() {
    let manifest = obj(vec![
        ("schema_version", s("2")),
        ("name", s("acme/bad-cred")),
        ("version", s("0.1.0")),
        ("kind", s("atool")),
        ("description", s("atool with an illegal credential env name")),
        (
            "config",
            obj(vec![
                ("kind", s("atool")),
                ("binary", s("bin/x")),
                (
                    "credentials",
                    arr(vec![obj(vec![
                        ("env", s("9-not-valid")),
                        ("required", JsonValue::Bool(true)),
                    ])]),
                ),
            ]),
        ),
    ]);
    assert!(
        validate(&manifest).is_err(),
        "illegal env var name must be rejected"
    );
}

#[test]
fn code_less_tool_round_trips() {
    let schema = obj(vec![
        ("type", s("object")),
        ("required", arr(vec![s("objective")])),
        (
            "properties",
            obj(vec![
                ("objective", obj(vec![("type", s("string"))])),
                (
                    "acceptance",
                    obj(vec![("type", s("array")), ("items", obj(vec![("type", s("string"))]))]),
                ),
            ]),
        ),
    ]);

    let manifest = Tool::new("acme/delegate", "0.1.0")
        .description("code-less delegation tool")
        .native_handler("emit_trigger")
        .input_schema(schema)
        .build()
        .expect("build");

    assert_eq!(manifest.kind, Kind::Atool);
    if let PackageConfig::Atool(cfg) = &manifest.config {
        assert_eq!(cfg.native_handler, "emit_trigger");
        assert!(cfg.binary.is_empty(), "code-less tool omits binary");
        assert!(cfg.input_schema.is_some(), "input_schema present");
    } else {
        panic!("expected AtoolConfig");
    }

    // Serialised form must omit `binary` entirely (schema minLength would reject "").
    let serialised = serde_json::to_string(&to_serde(&manifest.to_json())).expect("serialise");
    assert!(
        !serialised.contains("\"binary\""),
        "code-less tool must not serialise a binary field: {serialised}"
    );

    pack_and_verify(manifest, vec![]);
}

#[test]
fn code_less_tool_without_input_schema_is_rejected() {
    let manifest = obj(vec![
        ("schema_version", s("2")),
        ("name", s("acme/bad-native")),
        ("version", s("0.1.0")),
        ("kind", s("atool")),
        ("description", s("code-less tool missing its input_schema")),
        ("config", obj(vec![("kind", s("atool")), ("native_handler", s("emit_trigger"))])),
    ]);
    assert!(
        validate(&manifest).is_err(),
        "code-less tool must declare input_schema"
    );
}

#[test]
fn atool_with_neither_binary_nor_handler_is_rejected() {
    let manifest = obj(vec![
        ("schema_version", s("2")),
        ("name", s("acme/empty-tool")),
        ("version", s("0.1.0")),
        ("kind", s("atool")),
        ("description", s("atool with neither binary nor native_handler")),
        ("config", obj(vec![("kind", s("atool"))])),
    ]);
    assert!(
        validate(&manifest).is_err(),
        "one of binary/native_handler is required"
    );
}

#[test]
fn tool_transport_http_retaxes_to_mcp() {
    let manifest = Tool::new("acme/mcptool", "0.1.0")
        .description("mcp daemon")
        .binary("bin/x")
        .port(7800)
        .transport(WireTransport::Http)
        .build()
        .expect("build");
    assert_eq!(manifest.kind, Kind::Mcp);
    match &manifest.config {
        PackageConfig::Mcp(cfg) => assert_eq!(cfg.default_port, Some(7800)),
        _ => panic!("expected McpConfig"),
    }
}

#[test]
fn tool_transport_grpc_stays_atool() {
    let manifest = Tool::new("acme/g", "0.1.0")
        .description("grpc tool")
        .binary("bin/g")
        .transport(WireTransport::Grpc)
        .build()
        .expect("build");
    assert_eq!(manifest.kind, Kind::Atool);
    match &manifest.config {
        PackageConfig::Atool(_) => {}
        _ => panic!("expected AtoolConfig"),
    }
}

#[test]
fn agent_with_ref_component_round_trips() {
    let manifest = Agent::new("acme/parent", "0.1.0")
        .description("parent agent")
        .system_prompt("You orchestrate via refs.")
        .ref_component("acme/some-tool@1.0.0")
        .ref_component("acme/some-agent@2.0.0")
        .build()
        .expect("build");
    let (manifest, _) = pack_and_verify(manifest, vec![]);

    let comps = manifest.components.as_ref().expect("components");
    assert_eq!(comps.len(), 2);
    match &comps[0] {
        ComponentItem::Ref(r) => assert_eq!(r.ref_target, "acme/some-tool@1.0.0"),
        _ => panic!("expected ref component"),
    }
}

#[test]
fn agent_with_inline_sub_agent_round_trips() {
    let child = Agent::new("acme/child", "0.1.0")
        .description("child agent")
        .system_prompt("You are a child.");

    let manifest = Agent::new("acme/parent", "0.1.0")
        .description("parent agent with inline component")
        .system_prompt("You orchestrate.")
        .component("child-agent", "acme/child@0.1.0", child)
        .expect("component")
        .build()
        .expect("build");
    let (manifest, _) = pack_and_verify(manifest, vec![]);

    let comps = manifest.components.as_ref().expect("components");
    assert_eq!(comps.len(), 1);
    match &comps[0] {
        ComponentItem::Inline(inline) => {
            assert_eq!(inline.name, "child-agent");
            assert_eq!(inline.id, "acme/child@0.1.0");
        }
        _ => panic!("expected inline component"),
    }
}

#[test]
fn agent_extends_and_lockfile_round_trips() {
    let manifest = Agent::new("acme/child", "0.1.0")
        .description("child agent extending a base")
        .system_prompt("You extend a base agent.")
        .prompt_mode(PromptMode::Append)
        .extend(PackageDep {
            name: "acme/base-agent".to_string(),
            version: Some("1.0.0".to_string()),
        })
        .lock(LockEntry {
            name: "web-search".to_string(),
            interface_major: 2,
            contract_hash: None,
        })
        .build()
        .expect("build");
    let (manifest, _) = pack_and_verify(manifest, vec![]);

    let extends = manifest.extends.as_ref().expect("extends");
    assert_eq!(extends.len(), 1);
    assert_eq!(extends[0].name, "acme/base-agent");
    let lock = manifest.lockfile.as_ref().expect("lockfile");
    assert_eq!(lock[0].name, "web-search");
    assert_eq!(lock[0].interface_major, 2);
}

#[test]
fn agent_with_flatten_rules_round_trips() {
    let manifest = Agent::new("acme/flat", "0.1.0")
        .description("agent with flatten")
        .system_prompt("You merge sub-agents.")
        .ref_component("acme/sub@1.0.0")
        .flatten(InstallFlatten {
            system_prompt: Some("concat".to_string()),
            allowed_tools: Some("union".to_string()),
            model: None,
            history_limit: None,
        })
        .build()
        .expect("build");
    let (manifest, _) = pack_and_verify(manifest, vec![]);

    let install = manifest.install.as_ref().expect("install block");
    let flatten = install.flatten.as_ref().expect("flatten");
    assert_eq!(flatten.system_prompt.as_deref(), Some("concat"));
    assert_eq!(flatten.allowed_tools.as_deref(), Some("union"));
}

#[test]
fn skill_emits_aagent_with_model() {
    let manifest = Skill::new("acme/myskill", "0.1.0")
        .description("a prompt-only skill")
        .system_prompt("You are specialized.")
        .model("acme-small")
        .build()
        .expect("build");
    let (manifest, _) = pack_and_verify(manifest, vec![]);

    assert_eq!(manifest.kind, Kind::Aagent);
    if let PackageConfig::Aagent(cfg) = &manifest.config {
        assert_eq!(cfg.model.as_deref(), Some("acme-small"));
    } else {
        panic!("expected AagentConfig");
    }
}

#[test]
fn bundle_build_pack_verify_round_trips() {
    let manifest = Bundle::new("essentials/doer", "0.1.0")
        .description("The doer stance: do the work, then submit or report blocked.")
        .tool("essentials/submit-deliverable")
        .tool("essentials/report-blocked")
        .build()
        .expect("build");

    assert_eq!(manifest.kind, Kind::Bundle);
    if let PackageConfig::Bundle(cfg) = &manifest.config {
        assert_eq!(
            cfg.tools,
            vec![
                "essentials/submit-deliverable".to_string(),
                "essentials/report-blocked".to_string()
            ]
        );
    } else {
        panic!("expected BundleConfig");
    }

    // A bundle is pure composition: no binary / system_prompt on the wire.
    let serialised = serde_json::to_string(&to_serde(&manifest.to_json())).expect("serialise");
    assert!(
        !serialised.contains("\"binary\"") && !serialised.contains("system_prompt"),
        "bundle must be pure composition: {serialised}"
    );
    assert_eq!(alex_sdk::pack::default_out_path(&manifest), "doer-0.1.0.atool");

    pack_and_verify(manifest, vec![]);
}

#[test]
fn bundle_with_empty_tools_is_rejected() {
    let manifest = obj(vec![
        ("schema_version", s("2")),
        ("name", s("essentials/empty-bundle")),
        ("version", s("0.1.0")),
        ("kind", s("bundle")),
        ("description", s("a bundle grouping nothing")),
        ("config", obj(vec![("kind", s("bundle")), ("tools", arr(vec![]))])),
    ]);
    assert!(
        validate(&manifest).is_err(),
        "bundle with no tools must be rejected (minItems:1)"
    );
}

#[test]
fn invalid_manifest_missing_description_fails_build() {
    let result = Agent::new("acme/sad", "0.1.0").system_prompt("hi").build();
    assert!(result.is_err(), "build should fail on empty description");
    assert!(matches!(result, Err(Error::Schema(_))));
}

// ---------------------------------------------------------------------------
// Migration
// ---------------------------------------------------------------------------

fn text_at<'a>(v: &'a JsonValue, path: &[&str]) -> Option<&'a str> {
    let mut cur = v;
    for k in path {
        cur = cur.get(k)?;
    }
    cur.as_str()
}

fn v1(kind: &str, description: &str, config: JsonValue) -> JsonValue {
    obj(vec![
        ("schema_version", s("1")),
        ("name", s("acme/x")),
        ("version", s("0.1.0")),
        ("kind", s(kind)),
        ("description", s(description)),
        ("config", config),
    ])
}

#[test]
fn migrate_v1_tool_becomes_mcp_by_default() {
    let input = v1(
        "tool",
        "http tool",
        obj(vec![("kind", s("tool")), ("binary", s("bin/x")), ("transport", s("http"))]),
    );
    let result = migrate_manifest(input);
    assert!(result.errors.is_empty());
    assert_eq!(text_at(&result.manifest, &["kind"]), Some("mcp"));
    assert_eq!(text_at(&result.manifest, &["config", "kind"]), Some("mcp"));
}

#[test]
fn migrate_v1_grpc_tool_becomes_atool() {
    let input = v1(
        "tool",
        "grpc tool",
        obj(vec![("kind", s("tool")), ("binary", s("bin/x")), ("transport", s("grpc"))]),
    );
    let result = migrate_manifest(input);
    assert!(result.errors.is_empty());
    assert_eq!(text_at(&result.manifest, &["kind"]), Some("atool"));
    assert_eq!(text_at(&result.manifest, &["config", "kind"]), Some("atool"));
}

#[test]
fn migrate_v1_agent_keeps_config_model() {
    let input = v1(
        "agent",
        "test agent",
        obj(vec![
            ("kind", s("agent")),
            ("system_prompt", s("hello")),
            ("model", s("acme-large-7")),
        ]),
    );
    let result = migrate_manifest(input);
    assert!(result.errors.is_empty());
    assert_eq!(text_at(&result.manifest, &["schema_version"]), Some("2"));
    assert_eq!(text_at(&result.manifest, &["kind"]), Some("aagent"));
    assert_eq!(text_at(&result.manifest, &["config", "kind"]), Some("aagent"));
    assert_eq!(text_at(&result.manifest, &["config", "model"]), Some("acme-large-7"));
    assert!(result.manifest.get("config").and_then(|c| c.get("llm")).is_none());
}

#[test]
fn migrate_intermediate_llm_folds_to_model() {
    let input = v1(
        "agent",
        "test agent",
        obj(vec![
            ("kind", s("agent")),
            ("system_prompt", s("hello")),
            ("llm", s("acme-large-7")),
        ]),
    );
    let result = migrate_manifest(input);
    assert!(result.errors.is_empty());
    assert_eq!(text_at(&result.manifest, &["config", "model"]), Some("acme-large-7"));
    assert!(result.manifest.get("config").and_then(|c| c.get("llm")).is_none());
    assert!(result
        .warnings
        .iter()
        .any(|w| w.contains("llm renamed to config.model")));
}

#[test]
fn migrate_v1_skill_to_aagent_drops_tags() {
    let input = v1(
        "skill",
        "a skill",
        obj(vec![
            ("kind", s("skill")),
            ("system_prompt", s("hi")),
            ("model_hint", s("acme-small")),
            ("tags", arr(vec![s("a"), s("b")])),
        ]),
    );
    let result = migrate_manifest(input);
    assert!(result.errors.is_empty());
    assert_eq!(text_at(&result.manifest, &["kind"]), Some("aagent"));
    assert_eq!(text_at(&result.manifest, &["config", "kind"]), Some("aagent"));
    assert_eq!(text_at(&result.manifest, &["config", "model"]), Some("acme-small"));
    assert!(result.manifest.get("config").and_then(|c| c.get("model_hint")).is_none());
    assert!(result.manifest.get("config").and_then(|c| c.get("tags")).is_none());
    assert!(result.warnings.iter().any(|w| w.contains("tags removed")));
}

#[test]
fn migrate_v1_bundle_converts_to_aagent() {
    let input = v1(
        "bundle",
        "a bundle",
        obj(vec![
            ("kind", s("bundle")),
            ("components", arr(vec![s("acme/foo@1.0.0"), s("acme/bar@2.0.0")])),
        ]),
    );
    let result = migrate_manifest(input);
    assert!(result.errors.is_empty());
    assert_eq!(text_at(&result.manifest, &["kind"]), Some("aagent"));
    let comps = result
        .manifest
        .get("components")
        .and_then(|c| c.as_array())
        .expect("components");
    assert_eq!(comps.len(), 2);
    assert_eq!(text_at(&comps[0], &["ref"]), Some("acme/foo@1.0.0"));
    assert!(result
        .warnings
        .iter()
        .any(|w| w.contains("bundle converted")));
}

#[test]
fn migrate_llm_runtime_errors() {
    let input = v1("llm-runtime", "a runtime", obj(vec![("kind", s("llm-runtime"))]));
    let result = migrate_manifest(input);
    assert!(!result.errors.is_empty());
    assert!(result.errors[0].contains("llm-runtime"));
}

#[test]
fn migrate_llm_backend_errors() {
    let input = v1("llm-backend", "a backend", obj(vec![("kind", s("llm-backend"))]));
    let result = migrate_manifest(input);
    assert!(!result.errors.is_empty());
    assert!(result.errors[0].contains("llm-backend"));
}

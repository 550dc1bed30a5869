//! Exact values of the library's functions: digests, the multipart body, the
//! schema violations, the error texts, migration warnings and the archive
//! helpers.

use std::cell::RefCell;

use alex_sdk::builders::{Agent, Tool};
use alex_sdk::error::Error;
use alex_sdk::json::{JsonNumber, JsonValue};
use alex_sdk::manifest::{Kind, Manifest, ToJson, WireTransport};
use alex_sdk::migrate::migrate_manifest;
use alex_sdk::pack::{default_out_path, inspect, pack, sha256_bytes, split_archive, verify};
use alex_sdk::publish::{
    boundary_nonce, build_multipart, publish_request, publish_with, submit_url_of, PublishOptions,
    Transport,
};
use alex_sdk::schema::{assert_valid, env_name_is_valid, validate, ValidationError};

fn s(v: &str) -> JsonValue {
    JsonValue::Str(v.to_string())
}

fn obj(members: Vec<(&str, JsonValue)>) -> JsonValue {
    JsonValue::Object(members.into_iter().map(|(k, v)| (k.to_string(), v)).collect())
}

fn arr(items: Vec<JsonValue>) -> JsonValue {
    JsonValue::Array(items)
}

fn num(n: u64) -> JsonValue {
    JsonValue::Number(JsonNumber::UInt(n))
}

/// A tool with one staged file, `payload` at archive path `bin/tool`.
fn staged_tool() -> Manifest {
    Tool::new("acme/tool", "1.2.3")
        .description("a tool with one file")
        .binary("bin/tool")
        .stage_file("build/tool", "bin/tool", "tools/tool/bin/tool", true)
        .build()
        .expect("build")
}

// ---------------------------------------------------------------------------
// Digests
// ---------------------------------------------------------------------------

#[test]
fn sha256_of_abc_is_the_standard_digest() {
    assert_eq!(
        sha256_bytes(b"abc"),
        "ba7816bf8f01cfea414140de5dae2223b00361a396177a9cb410ff61f20015ad"
    );
}

#[test]
fn sha256_of_nothing_is_the_standard_digest() {
    assert_eq!(
        sha256_bytes(b""),
        "e3b0c44298fc1c149afbf4c8996fb92427ae41e4649b934ca495991b7852b855"
    );
}

#[test]
fn pack_fills_the_digest_of_each_file() {
    let packed = pack(staged_tool(), &vec![b"abc".to_vec()]).expect("pack");
    let files = packed.files.as_ref().expect("files");
    assert_eq!(
        files[0].sha256.as_deref(),
        Some("ba7816bf8f01cfea414140de5dae2223b00361a396177a9cb410ff61f20015ad")
    );
    assert_eq!(files[0].archive_path, "bin/tool");
    assert_eq!(packed.name, "acme/tool");
}

// ---------------------------------------------------------------------------
// verify: every error it can give
// ---------------------------------------------------------------------------

#[test]
fn verify_accepts_matching_bytes() {
    let packed = pack(staged_tool(), &vec![b"abc".to_vec()]).expect("pack");
    let fb = vec![("bin/tool".to_string(), b"abc".to_vec())];
    let v = verify(packed, &fb).expect("verify");
    assert_eq!(v.version, "1.2.3");
}

#[test]
fn verify_reports_a_missing_file() {
    let packed = pack(staged_tool(), &vec![b"abc".to_vec()]).expect("pack");
    let err = verify(packed, &vec![]).unwrap_err();
    assert_eq!(err, Error::MissingFile("bin/tool".to_string()));
    assert_eq!(
        err.to_string(),
        "declared file missing from archive: bin/tool"
    );
}

#[test]
fn verify_reports_a_digest_mismatch() {
    let packed = pack(staged_tool(), &vec![b"abc".to_vec()]).expect("pack");
    let fb = vec![("bin/tool".to_string(), b"".to_vec())];
    let err = verify(packed, &fb).unwrap_err();
    assert_eq!(
        err,
        Error::Sha256Mismatch {
            path: "bin/tool".to_string(),
            want: "ba7816bf8f01cfea414140de5dae2223b00361a396177a9cb410ff61f20015ad".to_string(),
            got: "e3b0c44298fc1c149afbf4c8996fb92427ae41e4649b934ca495991b7852b855".to_string(),
        }
    );
}

#[test]
fn verify_rejects_an_invalid_manifest() {
    let mut packed = pack(staged_tool(), &vec![b"abc".to_vec()]).expect("pack");
    packed.description = String::new();
    let fb = vec![("bin/tool".to_string(), b"abc".to_vec())];
    let err = verify(packed, &fb).unwrap_err();
    assert_eq!(
        err,
        Error::Schema("  /description: description must be a non-empty string".to_string())
    );
}

#[test]
fn verify_skips_files_without_a_digest() {
    // The file was never packed, so it has no digest to hold the archive to.
    let unpacked = staged_tool();
    assert!(verify(unpacked, &vec![]).is_ok());
}

// ---------------------------------------------------------------------------
// The archive's entries
// ---------------------------------------------------------------------------

#[test]
fn split_archive_without_manifest_is_missing_manifest() {
    let entries = vec![("bin/tool".to_string(), b"abc".to_vec())];
    let err = split_archive(entries, true).unwrap_err();
    assert_eq!(err, Error::MissingManifest);
    assert_eq!(err.to_string(), "atool.json not found in archive");
}

#[test]
fn split_archive_takes_the_last_manifest_entry() {
    let entries = vec![
        ("atool.json".to_string(), b"first".to_vec()),
        ("bin/tool".to_string(), b"abc".to_vec()),
        ("atool.json".to_string(), b"second".to_vec()),
    ];
    let parts = split_archive(entries, true).expect("split");
    assert_eq!(parts.manifest_bytes, b"second".to_vec());
    assert_eq!(parts.file_bytes, vec![("bin/tool".to_string(), b"abc".to_vec())]);
    assert_eq!(
        parts.sizes,
        vec![
            ("atool.json".to_string(), 5),
            ("bin/tool".to_string(), 3),
            ("atool.json".to_string(), 6)
        ]
    );
}

#[test]
fn split_archive_drops_bytes_when_not_asked() {
    let entries = vec![
        ("atool.json".to_string(), b"{}".to_vec()),
        ("bin/tool".to_string(), b"abc".to_vec()),
    ];
    let parts = split_archive(entries, false).expect("split");
    assert!(parts.file_bytes.is_empty());
    assert_eq!(parts.sizes.len(), 2);
}

#[test]
fn inspect_lists_entries_and_their_total() {
    let sizes = vec![("atool.json".to_string(), 120), ("bin/tool".to_string(), 4096)];
    let r = inspect(staged_tool(), sizes);
    assert_eq!(r.total_bytes, 4216);
    assert_eq!(r.files.len(), 2);
    assert_eq!(r.files[1].name, "bin/tool");
    assert_eq!(r.files[1].size, 4096);
    assert_eq!(r.manifest.name, "acme/tool");
}

#[test]
fn archive_entries_put_the_manifest_first_with_file_modes() {
    let packed = pack(staged_tool(), &vec![b"abc".to_vec()]).expect("pack");
    let entries =
        alex_sdk::pack::archive_entries(&packed, b"{}".to_vec(), vec![b"abc".to_vec()]);
    assert_eq!(entries.len(), 2);
    assert_eq!(entries[0].path, "atool.json");
    assert_eq!(entries[0].data, b"{}".to_vec());
    assert_eq!(entries[0].mode, 0o644);
    assert_eq!(entries[1].path, "bin/tool");
    assert_eq!(entries[1].mode, 0o755);
}

#[test]
fn default_out_path_uses_the_short_name_and_the_kind() {
    let agent = Agent::new("acme/hello", "0.1.0")
        .description("d")
        .system_prompt("p")
        .build()
        .expect("build");
    assert_eq!(default_out_path(&agent), "hello-0.1.0.aagent");
    assert_eq!(default_out_path(&staged_tool()), "tool-1.2.3.atool");
    let plain = Agent::new("plain", "2.0.0")
        .description("d")
        .system_prompt("p")
        .build()
        .expect("build");
    assert_eq!(default_out_path(&plain), "plain-2.0.0.aagent");
}

// ---------------------------------------------------------------------------
// Schema rules
// ---------------------------------------------------------------------------

#[test]
fn validate_lists_every_violation_in_order() {
    let errs = validate(&obj(vec![("name", s("acme/x"))])).unwrap_err();
    let shown: Vec<String> = errs.iter().map(|e| e.to_string()).collect();
    assert_eq!(
        shown,
        vec![
            "/schema_version: schema_version must be a string",
            "/version: version must be a string",
            "/description: description must be a non-empty string",
            "/kind: kind must be one of mcp, atool, aagent, bundle",
            "/config: config must be an object whose kind repeats the package kind",
        ]
    );
}

#[test]
fn validate_rejects_a_non_object() {
    let errs = validate(&JsonValue::Null).unwrap_err();
    assert_eq!(
        errs,
        vec![ValidationError {
            path: "(root)".to_string(),
            message: "manifest must be a JSON object".to_string()
        }]
    );
}

#[test]
fn assert_valid_joins_the_violations_into_one_schema_error() {
    let err = assert_valid(&obj(vec![
        ("schema_version", s("2")),
        ("name", s("acme/x")),
        ("version", s("1")),
        ("description", s("d")),
        ("kind", s("mcp")),
        ("config", obj(vec![("kind", s("mcp")), ("default_port", num(0))])),
    ]))
    .unwrap_err();
    assert_eq!(
        err,
        Error::Schema("  /config: config does not follow the rules of its kind".to_string())
    );
    assert_eq!(
        err.to_string(),
        "invalid manifest:\n  /config: config does not follow the rules of its kind"
    );
}

#[test]
fn validate_accepts_a_valid_mcp_manifest() {
    let m = obj(vec![
        ("schema_version", s("2")),
        ("name", s("acme/x")),
        ("version", s("1")),
        ("description", s("d")),
        ("kind", s("mcp")),
        ("config", obj(vec![("kind", s("mcp")), ("binary", s("bin/x")), ("default_port", num(8080))])),
    ]);
    assert!(validate(&m).is_ok());
    assert!(assert_valid(&m).is_ok());
}

#[test]
fn aagent_members_on_another_kind_are_rejected() {
    let errs = validate(&obj(vec![
        ("schema_version", s("2")),
        ("name", s("acme/x")),
        ("version", s("1")),
        ("description", s("d")),
        ("kind", s("mcp")),
        ("config", obj(vec![("kind", s("mcp")), ("binary", s("bin/x"))])),
        ("components", arr(vec![])),
    ]))
    .unwrap_err();
    assert_eq!(errs.len(), 1);
    assert_eq!(errs[0].path, "/kind");
}

#[test]
fn env_names_follow_the_shell_rules() {
    assert!(env_name_is_valid("GITHUB_HOST"));
    assert!(env_name_is_valid("_x9"));
    assert!(!env_name_is_valid("9-not-valid"));
    assert!(!env_name_is_valid(""));
    assert!(!env_name_is_valid("A-B"));
}

// ---------------------------------------------------------------------------
// Error texts
// ---------------------------------------------------------------------------

#[test]
fn every_error_has_its_text() {
    assert_eq!(Error::Io("gone".to_string()).to_string(), "io error: gone");
    assert_eq!(Error::Json("bad".to_string()).to_string(), "json error: bad");
    assert_eq!(
        Error::Schema("  /x: y".to_string()).to_string(),
        "invalid manifest:\n  /x: y"
    );
    assert_eq!(
        Error::Sha256Mismatch {
            path: "p".to_string(),
            want: "a".to_string(),
            got: "b".to_string()
        }
        .to_string(),
        "sha256 mismatch for p: want a, got b"
    );
    assert_eq!(Error::Other("plain".to_string()).to_string(), "plain");
}

// ---------------------------------------------------------------------------
// Builders: the laws on concrete values
// ---------------------------------------------------------------------------

#[test]
fn tool_kind_follows_its_transport() {
    let http = Tool::new("acme/h", "1.0.0")
        .description("d")
        .binary("bin/h")
        .transport(WireTransport::Http)
        .build()
        .expect("build");
    assert_eq!(http.kind, Kind::Mcp);
    let grpc = Tool::new("acme/g", "1.0.0")
        .description("d")
        .binary("bin/g")
        .transport(WireTransport::Grpc)
        .build()
        .expect("build");
    assert_eq!(grpc.kind, Kind::Atool);
}

#[test]
fn built_manifests_carry_schema_version_two() {
    let m = staged_tool();
    assert_eq!(m.schema_version, "2");
    assert_eq!(m.to_json().get("schema_version").and_then(|v| v.as_str()), Some("2"));
}

// ---------------------------------------------------------------------------
// Migration warnings and errors
// ---------------------------------------------------------------------------

#[test]
fn migrate_a_non_object_is_an_error() {
    let r = migrate_manifest(arr(vec![]));
    assert_eq!(r.errors, vec!["manifest is not a JSON object".to_string()]);
    assert!(r.warnings.is_empty());
    assert_eq!(r.manifest, arr(vec![]));
}

#[test]
fn migrate_removed_kind_error_text() {
    let r = migrate_manifest(obj(vec![("kind", s("llm-runtime"))]));
    assert_eq!(
        r.errors,
        vec!["kind 'llm-runtime' has no v2 equivalent; register via `alexandria llm install` instead"
            .to_string()]
    );
    assert_eq!(r.manifest.get("schema_version").and_then(|v| v.as_str()), Some("2"));
}

#[test]
fn migrate_warns_in_order() {
    let input = obj(vec![
        ("schema_version", s("1")),
        ("name", s("acme/x")),
        ("kind", s("agent")),
        ("signed_at", s("yesterday")),
        ("signature", obj(vec![("alg", s("ed25519"))])),
        (
            "config",
            obj(vec![
                ("kind", s("agent")),
                ("system_prompt", s("hi")),
                ("default_mode", s("swarm")),
                ("default_port", num(0)),
            ]),
        ),
        (
            "dependencies",
            arr(vec![
                obj(vec![("name", s("acme/a")), ("version", s("1.0.0"))]),
                obj(vec![("name", s("acme/b")), ("version", s(""))]),
                obj(vec![("version", JsonValue::Null)]),
            ]),
        ),
    ]);
    let r = migrate_manifest(input);
    assert!(r.errors.is_empty());
    assert_eq!(
        r.warnings,
        vec![
            "config.default_mode removed (swarm is always default)".to_string(),
            "default_port was 0 (schema-invalid); set to a valid port 1-65535".to_string(),
            "signing fields removed (signed_at, signature); re-sign after migration".to_string(),
            "dependency 'acme/b' missing version field; add before publishing".to_string(),
            "dependency '?' missing version field; add before publishing".to_string(),
        ]
    );
    assert!(r.manifest.get("signed_at").is_none());
    assert!(r.manifest.get("signature").is_none());
    assert!(r.manifest.get("config").and_then(|c| c.get("default_mode")).is_none());
}

#[test]
fn migrate_keeps_a_v2_signature() {
    let sig = obj(vec![
        ("alg", s("ed25519")),
        ("key_fingerprint", s("f")),
        ("value", s("v")),
        ("scope", s("manifest")),
    ]);
    let r = migrate_manifest(obj(vec![("kind", s("aagent")), ("signature", sig.clone())]));
    assert!(r.warnings.is_empty());
    assert_eq!(r.manifest.get("signature"), Some(&sig));
}

#[test]
fn migrate_a_v2_manifest_only_sets_the_schema_version() {
    let input = obj(vec![
        ("schema_version", s("2")),
        ("name", s("acme/x")),
        ("kind", s("mcp")),
        ("config", obj(vec![("kind", s("mcp")), ("binary", s("bin/x"))])),
    ]);
    let r = migrate_manifest(input.deep_clone());
    assert!(r.warnings.is_empty());
    assert!(r.errors.is_empty());
    assert_eq!(r.manifest, input);
}

// ---------------------------------------------------------------------------
// Publishing: the request
// ---------------------------------------------------------------------------

#[test]
fn boundary_nonce_puts_the_pid_in_the_high_bits() {
    assert_eq!(boundary_nonce(5, 0), 5);
    assert_eq!(boundary_nonce(5, 1), 5 ^ (1u128 << 64));
    assert_eq!(boundary_nonce(0, 0xffff_ffff), 0xffff_ffffu128 << 64);
}

#[test]
fn build_multipart_gives_the_exact_body() {
    let (body, content_type) = build_multipart("aagent", "x.aagent", b"TAR", 0xabc);
    assert_eq!(content_type, "multipart/form-data; boundary=----alexsdkabc");
    let expected = "------alexsdkabc\r\n\
Content-Disposition: form-data; name=\"artifact_type\"\r\n\r\n\
aagent\r\n\
------alexsdkabc\r\n\
Content-Disposition: form-data; name=\"tarball\"; filename=\"x.aagent\"\r\n\
Content-Type: application/gzip\r\n\r\n\
TAR\r\n\
------alexsdkabc--\r\n";
    assert_eq!(String::from_utf8(body).expect("utf8"), expected);
}

#[test]
fn build_multipart_with_nonce_zero() {
    let (_, content_type) = build_multipart("atool", "t.atool", b"", 0);
    assert_eq!(content_type, "multipart/form-data; boundary=----alexsdk0");
}

#[test]
fn submit_url_trims_every_trailing_slash() {
    assert_eq!(submit_url_of("https://r.example///"), "https://r.example/v1/submit");
    assert_eq!(submit_url_of("https://r.example"), "https://r.example/v1/submit");
    assert_eq!(submit_url_of(""), "/v1/submit");
}

#[test]
fn publish_request_derives_the_artifact_type_from_the_kind() {
    let m = staged_tool();
    let req = publish_request(&m, b"T", "t.atool", "https://r/", &PublishOptions::default(), 1);
    assert_eq!(req.artifact_type, "atool");
    assert_eq!(req.url, "https://r/v1/submit");
    assert_eq!(req.content_type, "multipart/form-data; boundary=----alexsdk1");
    assert!(req.token.is_none());
    let (body, _) = build_multipart("atool", "t.atool", b"T", 1);
    assert_eq!(req.body, body);
}

struct FailingTransport {
    calls: RefCell<u32>,
}

impl Transport for FailingTransport {
    fn send(
        &self,
        _url: &str,
        _content_type: &str,
        _body: &[u8],
        _token: Option<&str>,
    ) -> Result<(u16, String), Error> {
        *self.calls.borrow_mut() += 1;
        Err(Error::Other("http transport error: refused".to_string()))
    }
}

#[test]
fn publish_passes_a_transport_error_on() {
    let t = FailingTransport { calls: RefCell::new(0) };
    let r = publish_with(
        staged_tool(),
        &vec![],
        b"T",
        "t.atool",
        "https://r",
        &PublishOptions::default(),
        3,
        &t,
    );
    assert_eq!(r.unwrap_err(), Error::Other("http transport error: refused".to_string()));
    assert_eq!(*t.calls.borrow(), 1);
}

#[test]
fn migrating_twice_changes_nothing_more() {
    let input = obj(vec![
        ("schema_version", s("1")),
        ("name", s("acme/x")),
        ("kind", s("tool")),
        ("key_fingerprint", s("old")),
        (
            "config",
            obj(vec![
                ("kind", s("tool")),
                ("binary", s("bin/x")),
                ("transport", s("grpc")),
                ("llm", s("acme-small")),
                ("tags", arr(vec![s("t")])),
            ]),
        ),
    ]);
    let once = migrate_manifest(input);
    assert!(once.errors.is_empty());
    assert_eq!(once.manifest.get("kind").and_then(|v| v.as_str()), Some("atool"));
    let twice = migrate_manifest(once.manifest.deep_clone());
    assert!(twice.errors.is_empty());
    assert!(twice.warnings.is_empty());
    assert_eq!(twice.manifest, once.manifest);
}

#[test]
fn bundle_config_json_is_kind_and_tools_only() {
    let m = alex_sdk::builders::Bundle::new("acme/b", "1.0.0")
        .description("d")
        .tool("acme/t")
        .build()
        .expect("build");
    let cfg = m.config.to_json();
    assert_eq!(
        cfg,
        obj(vec![("kind", s("bundle")), ("tools", arr(vec![s("acme/t")]))])
    );
}

#[test]
fn pack_digests_are_lowercase_hex() {
    let packed = pack(staged_tool(), &vec![b"\x00\xff binary".to_vec()]).expect("pack");
    let sha = packed.files.as_ref().unwrap()[0].sha256.clone().unwrap();
    assert_eq!(sha.len(), 64);
    assert!(sha.chars().all(|c| c.is_ascii_digit() || ('a'..='f').contains(&c)));
}

#[test]
fn migrate_warns_on_a_zero_port_written_with_an_exponent() {
    let input = obj(vec![
        ("kind", s("mcp")),
        (
            "config",
            obj(vec![
                ("kind", s("mcp")),
                ("default_port", JsonValue::Number(JsonNumber::Float("0e5".to_string()))),
            ]),
        ),
    ]);
    let r = migrate_manifest(input);
    assert_eq!(
        r.warnings,
        vec!["default_port was 0 (schema-invalid); set to a valid port 1-65535".to_string()]
    );
    let nonzero = obj(vec![
        ("kind", s("mcp")),
        (
            "config",
            obj(vec![
                ("kind", s("mcp")),
                ("default_port", JsonValue::Number(JsonNumber::Float("1e0".to_string()))),
            ]),
        ),
    ]);
    assert!(migrate_manifest(nonzero).warnings.is_empty());
}

#[test]
fn retagging_a_kind_is_not_a_warning() {
    let r = migrate_manifest(obj(vec![("kind", s("skill")), ("config", obj(vec![("kind", s("skill"))]))]));
    assert!(r.warnings.is_empty());
    assert_eq!(r.manifest.get("kind").and_then(|v| v.as_str()), Some("aagent"));
}

#[test]
fn a_path_declared_twice_with_the_same_content_packs_and_verifies() {
    let m = Tool::new("acme/twice", "1.0.0")
        .description("d")
        .binary("bin/t")
        .stage_file("a", "bin/t", "x/bin/t", true)
        .stage_file("b", "bin/t", "y/bin/t", false)
        .build()
        .expect("build");
    let contents = vec![b"same".to_vec(), b"same".to_vec()];
    let packed = pack(m, &contents).expect("pack");
    let entries = alex_sdk::pack::archive_entries(&packed, b"{}".to_vec(), contents);
    let read: Vec<(String, Vec<u8>)> = entries.into_iter().map(|e| (e.path, e.data)).collect();
    let parts = split_archive(read, true).expect("split");
    assert!(verify(packed, &parts.file_bytes).is_ok());
}

#[test]
fn pack_then_inspect_lists_the_manifest_then_the_files() {
    let packed = pack(staged_tool(), &vec![b"abcd".to_vec()]).expect("pack");
    let text = b"{\"name\":\"acme/tool\"}".to_vec();
    let n = text.len() as u64;
    let entries = alex_sdk::pack::archive_entries(&packed, text, vec![b"abcd".to_vec()]);
    let read: Vec<(String, Vec<u8>)> = entries.into_iter().map(|e| (e.path, e.data)).collect();
    let parts = split_archive(read, false).expect("split");
    let r = inspect(packed, parts.sizes);
    let names: Vec<&str> = r.files.iter().map(|f| f.name.as_str()).collect();
    assert_eq!(names, vec!["atool.json", "bin/tool"]);
    assert_eq!(r.files[0].size, n);
    assert_eq!(r.files[1].size, 4);
    assert_eq!(r.total_bytes, n + 4);
}

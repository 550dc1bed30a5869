//! Publish tests with a mock transport, so that no live registry is needed.

use std::cell::RefCell;

use alex_sdk::builders::Agent;
use alex_sdk::error::Error;
use alex_sdk::manifest::Manifest;
use alex_sdk::publish::{publish_with, PublishOptions, Transport};

/// A packed .aagent fixture: its manifest and its archive bytes.
fn fixture() -> (Manifest, Vec<u8>) {
    let manifest = Agent::new("essentials/doer", "0.1.0")
        .description("doer")
        .system_prompt("You are the doer.")
        .model("acme-large-7")
        .build()
        .expect("build fixture");
    let packed = alex_sdk::pack::pack(manifest, &vec![]).expect("pack fixture");
    let entries = alex_sdk::pack::archive_entries(&packed, b"{}".to_vec(), vec![]);
    let mut tarball = Vec::new();
    for e in &entries {
        tarball.extend_from_slice(e.path.as_bytes());
        tarball.extend_from_slice(&e.data);
    }
    (packed, tarball)
}

#[derive(Default)]
struct MockTransport {
    status: u16,
    body: String,
    captured: RefCell<Option<Captured>>,
}

struct Captured {
    url: String,
    content_type: String,
    body: Vec<u8>,
    token: Option<String>,
}

impl Transport for MockTransport {
    fn send(
        &self,
        url: &str,
        content_type: &str,
        body: &[u8],
        token: Option<&str>,
    ) -> Result<(u16, String), Error> {
        *self.captured.borrow_mut() = Some(Captured {
            url: url.to_string(),
            content_type: content_type.to_string(),
            body: body.to_vec(),
            token: token.map(|t| t.to_string()),
        });
        Ok((self.status, self.body.clone()))
    }
}

#[test]
fn publish_derives_artifact_type_and_posts_tarball() {
    let (manifest, tarball) = fixture();

    let mock = MockTransport {
        status: 202,
        body: r#"{"assessment_id":"abc"}"#.to_string(),
        ..Default::default()
    };
    let opts = PublishOptions {
        token: Some("sekret".to_string()),
        artifact_type: None,
    };

    let r = publish_with(
        manifest,
        &vec![],
        &tarball,
        "doer-0.1.0.aagent",
        "https://reg.example/",
        &opts,
        0x1234,
        &mock,
    )
    .expect("publish");

    assert!(r.ok);
    assert_eq!(r.status, 202);
    assert_eq!(r.artifact_type, "aagent"); // derived from manifest kind
    assert_eq!(r.name, "essentials/doer");
    assert_eq!(r.body, r#"{"assessment_id":"abc"}"#);

    let cap = mock.captured.borrow();
    let cap = cap.as_ref().expect("captured request");
    assert_eq!(cap.url, "https://reg.example/v1/submit"); // trailing slash trimmed
    assert_eq!(cap.token.as_deref(), Some("sekret"));
    assert!(cap
        .content_type
        .starts_with("multipart/form-data; boundary="));

    let body = String::from_utf8_lossy(&cap.body);
    assert!(body.contains("name=\"artifact_type\""));
    assert!(body.contains("aagent"));
    assert!(body.contains("name=\"tarball\""));
    assert!(body.contains("filename=\"doer-0.1.0.aagent\""));
}

#[test]
fn publish_surfaces_non_2xx_as_not_ok() {
    let (manifest, tarball) = fixture();

    let mock = MockTransport {
        status: 400,
        body: r#"{"error":"stage1_kind_enum"}"#.to_string(),
        ..Default::default()
    };
    let r = publish_with(
        manifest,
        &vec![],
        &tarball,
        "doer-0.1.0.aagent",
        "https://reg.example",
        &PublishOptions::default(),
        7,
        &mock,
    )
    .expect("publish");
    assert!(!r.ok);
    assert_eq!(r.status, 400);
}

#[test]
fn publish_honors_artifact_type_override() {
    let (manifest, tarball) = fixture();

    let mock = MockTransport {
        status: 202,
        body: "{}".to_string(),
        ..Default::default()
    };
    let opts = PublishOptions {
        token: None,
        artifact_type: Some("amodel:llm-backend".to_string()),
    };
    let r = publish_with(
        manifest,
        &vec![],
        &tarball,
        "doer-0.1.0.aagent",
        "https://reg.example",
        &opts,
        99,
        &mock,
    )
    .expect("publish");
    assert_eq!(r.artifact_type, "amodel:llm-backend");

    let cap = mock.captured.borrow();
    let body = String::from_utf8_lossy(&cap.as_ref().unwrap().body);
    assert!(body.contains("amodel:llm-backend"));
}

#[test]
fn publish_refuses_an_archive_that_fails_verification() {
    let manifest = alex_sdk::builders::Tool::new("acme/tool", "1.0.0")
        .description("a tool")
        .binary("bin/tool")
        .stage_file("build/tool", "bin/tool", "tools/bin/tool", true)
        .build()
        .expect("build");
    let packed = alex_sdk::pack::pack(manifest, &vec![b"abc".to_vec()]).expect("pack");
    let mock = MockTransport {
        status: 202,
        body: "{}".to_string(),
        ..Default::default()
    };
    let err = publish_with(
        packed,
        &vec![],
        b"tarball",
        "tool-1.0.0.atool",
        "https://reg.example",
        &PublishOptions::default(),
        1,
        &mock,
    )
    .unwrap_err();
    assert_eq!(err, Error::MissingFile("bin/tool".to_string()));
    assert!(mock.captured.borrow().is_none(), "nothing is sent");
}

#[test]
fn publish_refuses_an_invalid_manifest() {
    let (mut manifest, tarball) = fixture();
    manifest.description = String::new();
    let mock = MockTransport::default();
    let err = publish_with(
        manifest,
        &vec![],
        &tarball,
        "doer-0.1.0.aagent",
        "https://reg.example",
        &PublishOptions::default(),
        1,
        &mock,
    )
    .unwrap_err();
    assert_eq!(
        err,
        Error::Schema("  /description: description must be a non-empty string".to_string())
    );
    assert!(mock.captured.borrow().is_none(), "nothing is sent");
}

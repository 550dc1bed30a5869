//! Publish a packed `.atool` / `.aagent` archive to an Alexandria registry.
//!
//! The archive is verified first; one that `verify` rejects is never sent.
//! The archive is posted as a `multipart/form-data` body (an `artifact_type`
//! text field and a `tarball` file part) to `{registry}/v1/submit`. The HTTP
//! send goes through the [`Transport`] trait, so that callers (and tests) can
//! put their own in.
use vstd::prelude::*;

use crate::error::Error;
use crate::manifest::Manifest;
use crate::pack::{archive_ok, pairs_view, verify, verify_error};
use vstd::string::StrSliceExecFns;
use vstd::utf8::encode_utf8;

verus! {

/// Outcome of a publish attempt.
#[derive(Debug, Clone, PartialEq)]
pub struct PublishResult {
    pub status: u16,
    /// Whether the status is a 2xx success.
    pub ok: bool,
    pub body: String,
    pub name: String,
    pub version: String,
    pub artifact_type: String,
}

/// Options of a publish call.
#[derive(Debug, Clone, PartialEq)]
pub struct PublishOptions {
    /// Bearer token, sent as `Authorization: Bearer <token>`.
    pub token: Option<String>,
    /// Artifact type; the manifest's kind when absent.
    pub artifact_type: Option<String>,
}

impl Default for PublishOptions {
    fn default() -> (r: PublishOptions)
        ensures
            r.token is None,
            r.artifact_type is None,
    {
        PublishOptions { token: None, artifact_type: None }
    }
}

/// The text of an optional string slice.
pub open spec fn str_opt_view(t: Option<&str>) -> Option<Seq<char>> {
    match t {
        Some(s) => Some(s@),
        None => None,
    }
}

/// The text of an optional string.
pub open spec fn string_opt_view(t: Option<String>) -> Option<Seq<char>> {
    match t {
        Some(s) => Some(s@),
        None => None,
    }
}

/// The relation of a transport that states nothing of its replies: any reply
/// may answer any request. It stays opaque, so that a proof cannot trade the
/// request it names for another one.
#[verifier::opaque]
pub open spec fn any_reply(
    url: Seq<char>,
    content_type: Seq<char>,
    body: Seq<u8>,
    token: Option<Seq<char>>,
    reply: Result<(u16, String), Error>,
) -> bool {
    true
}

/// An HTTP transport: `send` receives the full URL, the content type, the raw
/// body and an optional bearer token, and returns `(status, response body)`.
pub trait Transport {
    /// Whether `reply` is an answer this transport may give when it sends
    /// `body` with `content_type` and `token` to `url`. A transport that
    /// states nothing of its replies keeps the default, [`any_reply`].
    open spec fn answers(
        &self,
        url: Seq<char>,
        content_type: Seq<char>,
        body: Seq<u8>,
        token: Option<Seq<char>>,
        reply: Result<(u16, String), Error>,
    ) -> bool {
        any_reply(url, content_type, body, token, reply)
    }

    fn send(&self, url: &str, content_type: &str, body: &[u8], token: Option<&str>) -> (r: Result<
        (u16, String),
        Error,
    >)
        ensures
            self.answers(url@, content_type@, body@, str_opt_view(token), r),
    ;
}

/// The lowercase hex digit of `d` (below 16).
pub open spec fn hex_char(d: int) -> char {
    if d < 10 {
        (48 + d) as char
    } else {
        (87 + d) as char
    }
}

/// `n` in lowercase hex, without leading zeros (`0` for zero).
pub open spec fn hex_digits(n: nat) -> Seq<char>
    decreases n,
{
    if n < 16 {
        seq![hex_char(n as int)]
    } else {
        hex_digits(n / 16) + seq![hex_char((n % 16) as int)]
    }
}

fn hex_digit_str(d: u128) -> (s: &'static str)
    requires
        d < 16,
    ensures
        s@ == seq![hex_char(d as int)],
{
    let s = match d {
        0 => "0",
        1 => "1",
        2 => "2",
        3 => "3",
        4 => "4",
        5 => "5",
        6 => "6",
        7 => "7",
        8 => "8",
        9 => "9",
        10 => "a",
        11 => "b",
        12 => "c",
        13 => "d",
        14 => "e",
        _ => "f",
    };
    proof {
        reveal_strlit("0");
        reveal_strlit("1");
        reveal_strlit("2");
        reveal_strlit("3");
        reveal_strlit("4");
        reveal_strlit("5");
        reveal_strlit("6");
        reveal_strlit("7");
        reveal_strlit("8");
        reveal_strlit("9");
        reveal_strlit("a");
        reveal_strlit("b");
        reveal_strlit("c");
        reveal_strlit("d");
        reveal_strlit("e");
        reveal_strlit("f");
    }
    assert(s@ =~= seq![hex_char(d as int)]);
    s
}

fn append_hex(s: &mut String, n: u128)
    ensures
        final(s)@ == old(s)@ + hex_digits(n as nat),
    decreases n,
{
    if n >= 16 {
        append_hex(s, n / 16);
    }
    s.append(hex_digit_str(n % 16));
    assert(final(s)@ =~= old(s)@ + hex_digits(n as nat));
}


/// The multipart boundary made of a nonce.
pub open spec fn boundary(nonce: u128) -> Seq<char> {
    "----alexsdk"@ + hex_digits(nonce as nat)
}

/// The text before the tarball bytes.
pub open spec fn multipart_head(artifact_type: Seq<char>, filename: Seq<char>, b: Seq<char>) -> Seq<char> {
    "--"@ + b + "\r\n"@ + "Content-Disposition: form-data; name=\"artifact_type\"\r\n\r\n"@
        + artifact_type + "\r\n"@ + "--"@ + b + "\r\n"@
        + "Content-Disposition: form-data; name=\"tarball\"; filename=\""@ + filename + "\"\r\n"@
        + "Content-Type: application/gzip\r\n\r\n"@
}

/// The text after the tarball bytes.
pub open spec fn multipart_tail(b: Seq<char>) -> Seq<char> {
    "\r\n"@ + "--"@ + b + "--\r\n"@
}

/// The multipart body: the `artifact_type` field, then the `tarball` file part.
pub open spec fn multipart_body(artifact_type: Seq<char>, filename: Seq<char>, tarball: Seq<u8>, nonce: u128) -> Seq<u8> {
    encode_utf8(multipart_head(artifact_type, filename, boundary(nonce))) + tarball + encode_utf8(
        multipart_tail(boundary(nonce)),
    )
}

pub open spec fn multipart_content_type(nonce: u128) -> Seq<char> {
    "multipart/form-data; boundary="@ + boundary(nonce)
}

/// The boundary nonce made of the clock (`nanos` since the epoch) and the
/// process id: `nanos ^ (pid rotated left by 64 bits)`.
pub fn boundary_nonce(nanos: u128, pid: u32) -> (r: u128)
    ensures
        r == nanos ^ ((pid as u128) << 64u128),
{
    let p = pid as u128;
    assert(p < 0x1_0000_0000);
    assert(p < 0x1_0000_0000 ==> p << 64u128 == p * 0x1_0000_0000_0000_0000) by (bit_vector);
    nanos ^ (p << 64u128)
}

/// Assemble a `multipart/form-data` body carrying an `artifact_type` text field
/// and a `tarball` file part, with a boundary made of `nonce`. Returns
/// `(body, content_type)`.
pub fn build_multipart(artifact_type: &str, filename: &str, tarball: &[u8], nonce: u128) -> (r: (Vec<u8>, String))
    ensures
        r.0@ == multipart_body(artifact_type@, filename@, tarball@, nonce),
        r.1@ == multipart_content_type(nonce),
{
    let mut b = String::from_str("----alexsdk");
    append_hex(&mut b, nonce);
    let mut head = String::from_str("--");
    head.append(b.as_str());
    head.append("\r\n");
    head.append("Content-Disposition: form-data; name=\"artifact_type\"\r\n\r\n");
    head.append(artifact_type);
    head.append("\r\n");
    head.append("--");
    head.append(b.as_str());
    head.append("\r\n");
    head.append("Content-Disposition: form-data; name=\"tarball\"; filename=\"");
    head.append(filename);
    head.append("\"\r\n");
    head.append("Content-Type: application/gzip\r\n\r\n");
    let mut tail = String::from_str("\r\n");
    tail.append("--");
    tail.append(b.as_str());
    tail.append("--\r\n");
    let mut body = head.as_str().as_bytes_vec();
    let mut t = vstd::slice::slice_to_vec(tarball);
    body.append(&mut t);
    let mut tb = tail.as_str().as_bytes_vec();
    body.append(&mut tb);
    let mut content_type = String::from_str("multipart/form-data; boundary=");
    content_type.append(b.as_str());
    (body, content_type)
}

/// `s` without its trailing `/` characters.
pub open spec fn trim_trailing_slashes(s: Seq<char>) -> Seq<char>
    decreases s.len(),
{
    if s.len() > 0 && s.last() == '/' {
        trim_trailing_slashes(s.drop_last())
    } else {
        s
    }
}

/// The submit endpoint of a registry: `{registry without trailing '/'}/v1/submit`.
pub open spec fn submit_url(registry: Seq<char>) -> Seq<char> {
    trim_trailing_slashes(registry) + "/v1/submit"@
}

/// The submit endpoint of a registry.
pub fn submit_url_of(registry: &str) -> (r: String)
    ensures
        r@ == submit_url(registry@),
{
    let mut n = registry.unicode_len();
    assert(registry@.subrange(0, n as int) =~= registry@);
    while n > 0 && registry.get_char(n - 1) == '/'
        invariant
            n <= registry@.len(),
            trim_trailing_slashes(registry@) == trim_trailing_slashes(registry@.subrange(0, n as int)),
        decreases n,
    {
        assert(registry@.subrange(0, n as int).drop_last() =~= registry@.subrange(0, n - 1));
        n = n - 1;
    }
    let base = registry.substring_char(0, n);
    let mut r = String::from_str(base);
    r.append("/v1/submit");
    r
}

/// The artifact type to publish under: the override, else the manifest's kind.
pub open spec fn artifact_type_for(opts: PublishOptions, m: Manifest) -> Seq<char> {
    match opts.artifact_type {
        Some(t) => t@,
        None => m.kind.wire_name(),
    }
}

/// A request ready to send.
pub struct PublishRequest {
    pub url: String,
    pub content_type: String,
    pub body: Vec<u8>,
    pub token: Option<String>,
    pub artifact_type: String,
}

/// Build the request that publishes `tarball` (the archive named `filename`,
/// whose manifest is `manifest`) to `registry`.
pub fn publish_request(
    manifest: &Manifest,
    tarball: &[u8],
    filename: &str,
    registry: &str,
    opts: &PublishOptions,
    nonce: u128,
) -> (r: PublishRequest)
    ensures
        r.artifact_type@ == artifact_type_for(*opts, *manifest),
        r.url@ == submit_url(registry@),
        r.body@ == multipart_body(artifact_type_for(*opts, *manifest), filename@, tarball@, nonce),
        r.content_type@ == multipart_content_type(nonce),
        r.token == opts.token,
{
    let artifact_type = match &opts.artifact_type {
        Some(t) => t.clone(),
        None => String::from_str(manifest.kind.as_str()),
    };
    let (body, content_type) = build_multipart(artifact_type.as_str(), filename, tarball, nonce);
    let url = submit_url_of(registry);
    PublishRequest { url, content_type, body, token: opts.token.clone(), artifact_type }
}

/// Whether an HTTP status is a 2xx success.
pub open spec fn is_success(status: u16) -> bool {
    200 <= status < 300
}

/// A publish is reported as a success exactly on a 2xx status: every
/// informational, redirect, client-error and server-error status is a failure.
pub proof fn law_only_2xx_is_success(status: u16)
    ensures
        is_success(status) <==> 200 <= status && status < 300,
        status < 200 ==> !is_success(status),
        300 <= status ==> !is_success(status),
{
}

/// The outcome of a request that was answered with `status` and `text`.
pub fn publish_result(manifest: &Manifest, req: PublishRequest, status: u16, text: String) -> (r: PublishResult)
    ensures
        r.status == status,
        r.ok == is_success(status),
        r.ok <==> 200 <= status && status < 300,
        r.body == text,
        r.name@ == manifest.name@,
        r.version@ == manifest.version@,
        r.artifact_type == req.artifact_type,
{
    PublishResult {
        status,
        ok: 200 <= status && status < 300,
        body: text,
        name: manifest.name.clone(),
        version: manifest.version.clone(),
        artifact_type: req.artifact_type,
    }
}

/// Publish `tarball`, the archive named `filename` whose manifest is
/// `manifest` and whose other entries are `file_bytes`, to
/// `{registry}/v1/submit` through `transport`.
///
/// The archive is verified first: an archive that [`verify`] rejects is never
/// sent, and its error is returned. Otherwise the transport is handed the
/// request [`publish_request`] builds, and its reply is mapped by
/// [`publish_result`]; a transport error is returned as it is.
pub fn publish_with<T: Transport>(
    manifest: Manifest,
    file_bytes: &Vec<(String, Vec<u8>)>,
    tarball: &[u8],
    filename: &str,
    registry: &str,
    opts: &PublishOptions,
    nonce: u128,
    transport: &T,
) -> (r: Result<PublishResult, Error>)
    ensures
        !archive_ok(manifest, pairs_view(file_bytes@)) ==> (r matches Err(e) && verify_error(
            manifest,
            pairs_view(file_bytes@),
            e,
        )),
        archive_ok(manifest, pairs_view(file_bytes@)) ==> exists|reply: Result<(u16, String), Error>|
            {
                &&& #[trigger] transport.answers(
                    submit_url(registry@),
                    multipart_content_type(nonce),
                    multipart_body(artifact_type_for(*opts, manifest), filename@, tarball@, nonce),
                    string_opt_view(opts.token),
                    reply,
                )
                &&& match reply {
                    Ok((status, text)) => r matches Ok(p) && p.status == status && p.body == text,
                    Err(e) => r == Err::<PublishResult, Error>(e),
                }
            },
        r matches Ok(p) ==> {
            &&& archive_ok(manifest, pairs_view(file_bytes@))
            &&& p.ok == is_success(p.status)
            &&& (p.ok <==> 200 <= p.status && p.status < 300)
            &&& p.name@ == manifest.name@
            &&& p.version@ == manifest.version@
            &&& p.artifact_type@ == artifact_type_for(*opts, manifest)
        },
{
    let manifest = match verify(manifest, file_bytes) {
        Ok(m) => m,
        Err(e) => return Err(e),
    };
    let req = publish_request(&manifest, tarball, filename, registry, opts, nonce);
    let token: Option<&str> = match &req.token {
        Some(t) => Some(t.as_str()),
        None => None,
    };
    assert(str_opt_view(token) == string_opt_view(opts.token));
    let reply = transport.send(req.url.as_str(), req.content_type.as_str(), req.body.as_slice(), token);
    let ghost sent = reply;
    let r = match reply {
        Ok((status, text)) => Ok(publish_result(&manifest, req, status, text)),
        Err(e) => Err(e),
    };
    assert(transport.answers(
        submit_url(registry@),
        multipart_content_type(nonce),
        multipart_body(artifact_type_for(*opts, manifest), filename@, tarball@, nonce),
        string_opt_view(opts.token),
        sent,
    ));
    r
}

} // verus!

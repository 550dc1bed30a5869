//! Errors surfaced by the SDK.
use vstd::prelude::*;

verus! {

/// Errors surfaced by the SDK.
#[derive(Debug, Clone, PartialEq)]
pub enum Error {
    /// A read or write failed.
    Io(String),
    /// A document is not valid JSON, or does not have the manifest's shape.
    Json(String),
    /// The manifest breaks the schema rules; one violation per line.
    Schema(String),
    /// A packed file does not hash to the digest its manifest entry declares.
    Sha256Mismatch { path: String, want: String, got: String },
    /// A file declared with a digest is not in the archive.
    MissingFile(String),
    /// The archive holds no `atool.json`.
    MissingManifest,
    /// Any other failure.
    Other(String),
}

impl Error {
    /// The text of the error, as it is displayed.
    pub open spec fn text(&self) -> Seq<char> {
        match self {
            Error::Io(m) => "io error: "@ + m@,
            Error::Json(m) => "json error: "@ + m@,
            Error::Schema(m) => "invalid manifest:\n"@ + m@,
            Error::Sha256Mismatch { path, want, got } => "sha256 mismatch for "@ + path@ + ": want "@
                + want@ + ", got "@ + got@,
            Error::MissingFile(p) => "declared file missing from archive: "@ + p@,
            Error::MissingManifest => "atool.json not found in archive"@,
            Error::Other(m) => m@,
        }
    }

    /// The text of the error, as it is displayed.
    pub fn to_string(&self) -> (r: String)
        ensures
            r@ == self.text(),
    {
        match self {
            Error::Io(m) => {
                let mut r = String::from_str("io error: ");
                r.append(m.as_str());
                r
            },
            Error::Json(m) => {
                let mut r = String::from_str("json error: ");
                r.append(m.as_str());
                r
            },
            Error::Schema(m) => {
                let mut r = String::from_str("invalid manifest:\n");
                r.append(m.as_str());
                r
            },
            Error::Sha256Mismatch { path, want, got } => {
                let mut r = String::from_str("sha256 mismatch for ");
                r.append(path.as_str());
                r.append(": want ");
                r.append(want.as_str());
                r.append(", got ");
                r.append(got.as_str());
                r
            },
            Error::MissingFile(p) => {
                let mut r = String::from_str("declared file missing from archive: ");
                r.append(p.as_str());
                r
            },
            Error::MissingManifest => String::from_str("atool.json not found in archive"),
            Error::Other(m) => m.clone(),
        }
    }
}

} // verus!

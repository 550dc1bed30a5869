//! Validation of a manifest's JSON form against the version 2 schema rules.
//!
//! The rules: the top-level members `schema_version`, `name`, `version` and a
//! non-empty `description` are strings; `kind` is one of `mcp`, `atool`,
//! `aagent`, `bundle`; `config` is an object whose `kind` repeats the
//! top-level kind. An mcp config names a non-empty `binary`; an atool config
//! names a non-empty `binary` or a non-empty `native_handler`, and a native
//! handler comes with an `input_schema` object; a `default_port` is an integer
//! from 1 to 65535; credential `env` names and env `name`s are environment
//! variable names (a letter or `_`, then letters, digits or `_`); an aagent
//! config has a string `system_prompt`; a bundle config lists at least one tool
//! name. `extends`, `lockfile`, `components` and `install` appear on aagents
//! only, and `install` only beside a non-empty `components` list. Every
//! dependency has a string `name` and `version`, every file a string
//! `archive_path` and `install_path`, and a signature the strings `alg`,
//! `key_fingerprint`, `value` and `scope`.
use vstd::prelude::*;

use crate::error::Error;
use crate::json::{get, has_key, lemma_object_view, obj_get, str_eq, Json, JsonNumber, JsonValue, NumModel};
use vstd::string::StrSliceExecFns;

verus! {

pub open spec fn is_string(j: Option<Json>) -> bool {
    j matches Some(Json::Str(_))
}

pub open spec fn is_nonempty_string(j: Option<Json>) -> bool {
    j matches Some(Json::Str(s)) && s.len() > 0
}

pub open spec fn is_object(j: Option<Json>) -> bool {
    j matches Some(Json::Obj(_))
}

pub open spec fn known_kind(k: Seq<char>) -> bool {
    k == "mcp"@ || k == "atool"@ || k == "aagent"@ || k == "bundle"@
}

pub open spec fn env_name_start(c: char) -> bool {
    ('A' <= c && c <= 'Z') || ('a' <= c && c <= 'z') || c == '_'
}

pub open spec fn env_name_char(c: char) -> bool {
    env_name_start(c) || ('0' <= c && c <= '9')
}

/// An environment variable name: a letter or `_`, then letters, digits or `_`.
pub open spec fn valid_env_name(s: Seq<char>) -> bool {
    &&& s.len() > 0
    &&& env_name_start(s[0])
    &&& forall|i: int| 1 <= i < s.len() ==> #[trigger] env_name_char(s[i])
}

/// `default_port` is absent or an integer from 1 to 65535.
pub open spec fn port_ok(c: Seq<(Seq<char>, Json)>) -> bool {
    match get(c, "default_port"@) {
        None => true,
        Some(Json::Num(NumModel::UInt(n))) => 1 <= n <= 65535,
        _ => false,
    }
}

/// Which per-item rule a list is held to.
#[derive(Clone, Copy)]
pub enum ItemRule {
    Credential,
    EnvDecl,
    Dependency,
    File,
    Text,
}

/// Whether `x` follows `rule`.
pub open spec fn item_holds(rule: ItemRule, x: Json) -> bool {
    match rule {
        ItemRule::Credential => credential_ok(x),
        ItemRule::EnvDecl => env_decl_ok(x),
        ItemRule::Dependency => dependency_ok(x),
        ItemRule::File => file_ok(x),
        ItemRule::Text => is_string_item(x),
    }
}

/// Every item of `a` follows `rule`.
pub open spec fn all_items(a: Seq<Json>, rule: ItemRule) -> bool {
    forall|i: int| 0 <= i < a.len() ==> #[trigger] item_holds(rule, a[i])
}

/// `j` is absent, or an array whose items all follow `rule`.
pub open spec fn each_item(j: Option<Json>, rule: ItemRule) -> bool {
    match j {
        None => true,
        Some(Json::Arr(a)) => all_items(a, rule),
        _ => false,
    }
}

pub open spec fn credential_ok(x: Json) -> bool {
    x matches Json::Obj(m) && get(m, "env"@) matches Some(Json::Str(s)) && valid_env_name(s)
}

pub open spec fn env_decl_ok(x: Json) -> bool {
    x matches Json::Obj(m) && get(m, "name"@) matches Some(Json::Str(s)) && valid_env_name(s)
}

pub open spec fn dependency_ok(x: Json) -> bool {
    x matches Json::Obj(m) && is_string(get(m, "name"@)) && is_string(get(m, "version"@))
}

pub open spec fn file_ok(x: Json) -> bool {
    x matches Json::Obj(m) && is_string(get(m, "archive_path"@)) && is_string(
        get(m, "install_path"@),
    )
}

pub open spec fn is_string_item(x: Json) -> bool {
    x is Str
}

pub open spec fn signature_ok(x: Json) -> bool {
    x matches Json::Obj(m) && is_string(get(m, "alg"@)) && is_string(get(m, "key_fingerprint"@))
        && is_string(get(m, "value"@)) && is_string(get(m, "scope"@))
}

/// The kind-specific rules of a config object.
pub open spec fn config_ok(k: Seq<char>, c: Seq<(Seq<char>, Json)>) -> bool {
    if k == "mcp"@ {
        is_nonempty_string(get(c, "binary"@)) && port_ok(c)
    } else if k == "atool"@ {
        &&& is_nonempty_string(get(c, "binary"@)) || is_nonempty_string(get(c, "native_handler"@))
        &&& is_nonempty_string(get(c, "native_handler"@)) ==> is_object(get(c, "input_schema"@))
        &&& port_ok(c)
        &&& each_item(get(c, "credentials"@), ItemRule::Credential)
        &&& each_item(get(c, "env"@), ItemRule::EnvDecl)
    } else if k == "aagent"@ {
        is_string(get(c, "system_prompt"@))
    } else if k == "bundle"@ {
        &&& get(c, "tools"@) matches Some(Json::Arr(a)) && a.len() > 0
        &&& each_item(get(c, "tools"@), ItemRule::Text)
    } else {
        true
    }
}

/// The top-level kind, when it is a string.
pub open spec fn kind_of(o: Seq<(Seq<char>, Json)>) -> Option<Seq<char>> {
    match get(o, "kind"@) {
        Some(Json::Str(k)) => Some(k),
        _ => None,
    }
}

pub open spec fn kind_ok(o: Seq<(Seq<char>, Json)>) -> bool {
    kind_of(o) matches Some(k) && known_kind(k)
}

/// `config` is an object whose `kind` repeats the top-level kind, and it follows
/// the rules of that kind.
pub open spec fn config_rules_ok(o: Seq<(Seq<char>, Json)>) -> bool {
    match get(o, "config"@) {
        Some(Json::Obj(c)) => {
            &&& get(c, "kind"@) matches Some(Json::Str(ck)) && kind_of(o) == Some(ck)
            &&& kind_of(o) matches Some(k) ==> config_ok(k, c)
        },
        _ => false,
    }
}

/// Members that only aagents may have.
pub open spec fn aagent_only_ok(o: Seq<(Seq<char>, Json)>) -> bool {
    (has_key(o, "extends"@) || has_key(o, "lockfile"@) || has_key(o, "components"@) || has_key(
        o,
        "install"@,
    )) ==> kind_of(o) == Some("aagent"@)
}

pub open spec fn install_ok(o: Seq<(Seq<char>, Json)>) -> bool {
    has_key(o, "install"@) ==> (get(o, "components"@) matches Some(Json::Arr(a)) && a.len() > 0)
}

pub open spec fn signature_member_ok(o: Seq<(Seq<char>, Json)>) -> bool {
    match get(o, "signature"@) {
        Some(s) => signature_ok(s),
        None => true,
    }
}

/// Whether `j` is a valid version 2 manifest.
pub open spec fn valid_manifest(j: Json) -> bool {
    match j {
        Json::Obj(o) => {
            &&& is_string(get(o, "schema_version"@))
            &&& is_string(get(o, "name"@))
            &&& is_string(get(o, "version"@))
            &&& is_nonempty_string(get(o, "description"@))
            &&& kind_ok(o)
            &&& config_rules_ok(o)
            &&& aagent_only_ok(o)
            &&& install_ok(o)
            &&& each_item(get(o, "dependencies"@), ItemRule::Dependency)
            &&& each_item(get(o, "files"@), ItemRule::File)
            &&& signature_member_ok(o)
        },
        _ => false,
    }
}

/// `config` is an object whose `kind` repeats the top-level kind.
pub open spec fn config_tag_ok(o: Seq<(Seq<char>, Json)>) -> bool {
    get(o, "config"@) matches Some(Json::Obj(c)) && get(c, "kind"@) matches Some(Json::Str(ck))
        && kind_of(o) == Some(ck)
}

/// An object `config` follows the rules of the top-level kind.
pub open spec fn config_kind_ok(o: Seq<(Seq<char>, Json)>) -> bool {
    match get(o, "config"@) {
        Some(Json::Obj(c)) => kind_of(o) matches Some(k) ==> config_ok(k, c),
        _ => true,
    }
}

/// The violation `(path, message)` of a rule, when it fails.
pub open spec fn violation(ok: bool, path: Seq<char>, message: Seq<char>) -> Seq<(Seq<char>, Seq<char>)> {
    if ok {
        Seq::empty()
    } else {
        seq![(path, message)]
    }
}

/// The violations of the header rules: the string members and the kind.
pub open spec fn header_violations(o: Seq<(Seq<char>, Json)>) -> Seq<(Seq<char>, Seq<char>)> {
    violation(is_string(get(o, "schema_version"@)), "/schema_version"@, "schema_version must be a string"@)
        + violation(is_string(get(o, "name"@)), "/name"@, "name must be a string"@)
        + violation(is_string(get(o, "version"@)), "/version"@, "version must be a string"@)
        + violation(
        is_nonempty_string(get(o, "description"@)),
        "/description"@,
        "description must be a non-empty string"@,
    ) + violation(kind_ok(o), "/kind"@, "kind must be one of mcp, atool, aagent, bundle"@)
}

/// The violations of the config rules.
pub open spec fn config_violations(o: Seq<(Seq<char>, Json)>) -> Seq<(Seq<char>, Seq<char>)> {
    violation(config_tag_ok(o), "/config"@, "config must be an object whose kind repeats the package kind"@)
        + violation(config_kind_ok(o), "/config"@, "config does not follow the rules of its kind"@)
}

/// The violations of the rules on the other members.
pub open spec fn member_violations(o: Seq<(Seq<char>, Json)>) -> Seq<(Seq<char>, Seq<char>)> {
    violation(aagent_only_ok(o), "/kind"@, "extends, lockfile, components and install are for aagents only"@)
        + violation(install_ok(o), "/install"@, "install needs a non-empty components list"@)
        + violation(
        each_item(get(o, "dependencies"@), ItemRule::Dependency),
        "/dependencies"@,
        "each dependency needs a string name and version"@,
    ) + violation(
        each_item(get(o, "files"@), ItemRule::File),
        "/files"@,
        "each file needs a string archive_path and install_path"@,
    ) + violation(
        signature_member_ok(o),
        "/signature"@,
        "signature needs string alg, key_fingerprint, value and scope"@,
    )
}

/// Every rule that `j` breaks, as `(path, message)`, in the order the rules
/// are checked.
pub open spec fn violations(j: Json) -> Seq<(Seq<char>, Seq<char>)> {
    match j {
        Json::Obj(o) => header_violations(o) + config_violations(o) + member_violations(o),
        _ => seq![("(root)"@, "manifest must be a JSON object"@)],
    }
}

/// A manifest is valid exactly when it breaks no rule.
pub proof fn lemma_valid_iff_no_violation(j: Json)
    ensures
        valid_manifest(j) <==> violations(j).len() == 0,
{
}

/// A single schema violation.
#[derive(Debug, Clone, PartialEq)]
pub struct ValidationError {
    /// Where the violation is, as a JSON pointer, or `(root)`.
    pub path: String,
    pub message: String,
}

/// The `(path, message)` pairs of a list of violations.
pub open spec fn errors_view(es: Seq<ValidationError>) -> Seq<(Seq<char>, Seq<char>)> {
    Seq::new(es.len(), |i: int| (es[i].path@, es[i].message@))
}

/// One line of an [`Error::Schema`] text: `  path: message`.
pub open spec fn schema_line(v: (Seq<char>, Seq<char>)) -> Seq<char> {
    "  "@ + v.0 + ": "@ + v.1
}

/// One `  path: message` line per violation, each ended by a newline.
pub open spec fn schema_buffer(vs: Seq<(Seq<char>, Seq<char>)>) -> Seq<char>
    decreases vs.len(),
{
    if vs.len() == 0 {
        Seq::empty()
    } else {
        schema_buffer(vs.drop_last()) + schema_line(vs.last()) + "\n"@
    }
}

/// `s` without its trailing newlines.
pub open spec fn trim_newlines(s: Seq<char>) -> Seq<char>
    decreases s.len(),
{
    if s.len() > 0 && s.last() == '\n' {
        trim_newlines(s.drop_last())
    } else {
        s
    }
}

/// The text of an [`Error::Schema`]: one line per violation, trailing
/// newlines trimmed.
pub open spec fn schema_text(vs: Seq<(Seq<char>, Seq<char>)>) -> Seq<char> {
    trim_newlines(schema_buffer(vs))
}

impl ValidationError {
    /// `path: message`, as the violation is displayed.
    pub fn to_string(&self) -> (r: String)
        ensures
            r@ == self.path@ + ": "@ + self.message@,
    {
        let mut r = self.path.clone();
        r.append(": ");
        r.append(self.message.as_str());
        r
    }
}


fn member_is_string(o: &Vec<(String, JsonValue)>, k: &str) -> (r: bool)
    ensures
        r == is_string(get(crate::json::members_view(o@), k@)),
{
    match obj_get(o, k) {
        Some(JsonValue::Str(_)) => true,
        _ => false,
    }
}

fn member_is_nonempty_string(o: &Vec<(String, JsonValue)>, k: &str) -> (r: bool)
    ensures
        r == is_nonempty_string(get(crate::json::members_view(o@), k@)),
{
    match obj_get(o, k) {
        Some(JsonValue::Str(s)) => s.as_str().unicode_len() > 0,
        _ => false,
    }
}

fn member_is_object(o: &Vec<(String, JsonValue)>, k: &str) -> (r: bool)
    ensures
        r == is_object(get(crate::json::members_view(o@), k@)),
{
    match obj_get(o, k) {
        Some(JsonValue::Object(m)) => {
            proof {
                lemma_object_view(*m);
            }
            true
        },
        _ => false,
    }
}

fn is_env_name_start(c: char) -> (r: bool)
    ensures
        r == env_name_start(c),
{
    ('A' <= c && c <= 'Z') || ('a' <= c && c <= 'z') || c == '_'
}

/// Whether `s` is an environment variable name.
pub fn env_name_is_valid(s: &str) -> (r: bool)
    ensures
        r == valid_env_name(s@),
{
    let n = s.unicode_len();
    if n == 0 {
        return false;
    }
    if !is_env_name_start(s.get_char(0)) {
        return false;
    }
    let mut i: usize = 1;
    while i < n
        invariant
            n == s@.len(),
            1 <= i <= n,
            forall|j: int| 1 <= j < i ==> #[trigger] env_name_char(s@[j]),
        decreases n - i,
    {
        let c = s.get_char(i);
        if !(is_env_name_start(c) || ('0' <= c && c <= '9')) {
            assert(!env_name_char(s@[i as int]));
            return false;
        }
        i = i + 1;
    }
    true
}

fn port_is_ok(c: &Vec<(String, JsonValue)>) -> (r: bool)
    ensures
        r == port_ok(crate::json::members_view(c@)),
{
    match obj_get(c, "default_port") {
        None => true,
        Some(JsonValue::Number(JsonNumber::UInt(n))) => 1 <= *n && *n <= 65535,
        Some(_) => false,
    }
}

fn named_env_ok(x: &JsonValue, key: &str) -> (r: bool)
    ensures
        r == (x.view() matches Json::Obj(m) && get(m, key@) matches Some(Json::Str(s))
            && valid_env_name(s)),
{
    match x {
        JsonValue::Object(m) => {
            proof {
                lemma_object_view(*m);
            }
            match obj_get(m, key) {
                Some(JsonValue::Str(s)) => env_name_is_valid(s.as_str()),
                _ => false,
            }
        },
        _ => false,
    }
}

fn has_strings(x: &JsonValue, k1: &str, k2: &str) -> (r: bool)
    ensures
        r == (x.view() matches Json::Obj(m) && is_string(get(m, k1@)) && is_string(get(m, k2@))),
{
    match x {
        JsonValue::Object(m) => {
            proof {
                lemma_object_view(*m);
            }
            member_is_string(m, k1) && member_is_string(m, k2)
        },
        _ => false,
    }
}

fn item_ok(rule: &ItemRule, x: &JsonValue) -> (r: bool)
    ensures
        r == item_holds(*rule, x.view()),
{
    match rule {
        ItemRule::Credential => named_env_ok(x, "env"),
        ItemRule::EnvDecl => named_env_ok(x, "name"),
        ItemRule::Dependency => has_strings(x, "name", "version"),
        ItemRule::File => has_strings(x, "archive_path", "install_path"),
        ItemRule::Text => match x {
            JsonValue::Str(_) => true,
            _ => false,
        },
    }
}

fn each_item_ok(o: &Vec<(String, JsonValue)>, k: &str, rule: ItemRule) -> (r: bool)
    ensures
        r == each_item(get(crate::json::members_view(o@), k@), rule),
{
    match obj_get(o, k) {
        None => true,
        Some(JsonValue::Array(a)) => {
            proof {
                crate::json::lemma_array_view(*a);
            }
            let ghost av = crate::json::items_view(a@);
            let mut i: usize = 0;
            while i < a.len()
                invariant
                    av == crate::json::items_view(a@),
                    get(crate::json::members_view(o@), k@) == Some(Json::Arr(av)),
                    i <= a@.len(),
                    forall|j: int| 0 <= j < i ==> #[trigger] item_holds(rule, av[j]),
                decreases a@.len() - i,
            {
                if !item_ok(&rule, &a[i]) {
                    assert(0 <= i < av.len());
                    assert(!item_holds(rule, av[i as int]));
                    return false;
                }
                i = i + 1;
            }
            true
        },
        Some(_) => false,
    }
}

fn config_kind_rules_hold(k: &str, c: &Vec<(String, JsonValue)>) -> (r: bool)
    ensures
        r == config_ok(k@, crate::json::members_view(c@)),
{
    let ghost cm = crate::json::members_view(c@);
    if str_eq(k, "mcp") {
        member_is_nonempty_string(c, "binary") && port_is_ok(c)
    } else if str_eq(k, "atool") {
        let binary = member_is_nonempty_string(c, "binary");
        let handler = member_is_nonempty_string(c, "native_handler");
        let schema = member_is_object(c, "input_schema");
        let port = port_is_ok(c);
        let creds = each_item_ok(c, "credentials", ItemRule::Credential);
        let envs = each_item_ok(c, "env", ItemRule::EnvDecl);
        (binary || handler) && (!handler || schema) && port && creds && envs
    } else if str_eq(k, "aagent") {
        member_is_string(c, "system_prompt")
    } else if str_eq(k, "bundle") {
        let nonempty = match obj_get(c, "tools") {
            Some(JsonValue::Array(a)) => {
                proof {
                    crate::json::lemma_array_view(*a);
                }
                a.len() > 0
            },
            _ => false,
        };
        let items = each_item_ok(c, "tools", ItemRule::Text);
        nonempty && items
    } else {
        true
    }
}

fn report(errs: &mut Vec<ValidationError>, ok: bool, path: &str, message: &str)
    ensures
        errors_view(final(errs)@) == errors_view(old(errs)@) + violation(ok, path@, message@),
{
    if !ok {
        errs.push(
            ValidationError { path: String::from_str(path), message: String::from_str(message) },
        );
    }
    assert(errors_view(errs@) =~= errors_view(old(errs)@) + violation(ok, path@, message@));
}

fn check_header(o: &Vec<(String, JsonValue)>, errs: &mut Vec<ValidationError>)
    ensures
        errors_view(final(errs)@) == errors_view(old(errs)@) + header_violations(
            crate::json::members_view(o@),
        ),
{
    let ghost om = crate::json::members_view(o@);
    let ghost e0 = errors_view(errs@);
    let c1 = member_is_string(o, "schema_version");
    report(errs, c1, "/schema_version", "schema_version must be a string");
    let c2 = member_is_string(o, "name");
    report(errs, c2, "/name", "name must be a string");
    let c3 = member_is_string(o, "version");
    report(errs, c3, "/version", "version must be a string");
    let c4 = member_is_nonempty_string(o, "description");
    report(errs, c4, "/description", "description must be a non-empty string");
    let c5 = match obj_get(o, "kind") {
        Some(JsonValue::Str(k)) => str_eq(k.as_str(), "mcp") || str_eq(k.as_str(), "atool") || str_eq(
            k.as_str(),
            "aagent",
        ) || str_eq(k.as_str(), "bundle"),
        _ => false,
    };
    report(errs, c5, "/kind", "kind must be one of mcp, atool, aagent, bundle");
    assert(c5 == kind_ok(om));
    assert(errors_view(errs@) =~= e0 + header_violations(om));
}

fn check_config(o: &Vec<(String, JsonValue)>, errs: &mut Vec<ValidationError>)
    ensures
        errors_view(final(errs)@) == errors_view(old(errs)@) + config_violations(
            crate::json::members_view(o@),
        ),
{
    let ghost om = crate::json::members_view(o@);
    let ghost e0 = errors_view(errs@);
    let kind: Option<&String> = match obj_get(o, "kind") {
        Some(JsonValue::Str(k)) => Some(k),
        _ => None,
    };
    let (c6, c7) = match obj_get(o, "config") {
        Some(JsonValue::Object(c)) => {
            proof {
                lemma_object_view(*c);
            }
            let tag_ok = match (obj_get(c, "kind"), kind) {
                (Some(JsonValue::Str(ck)), Some(k)) => str_eq(ck.as_str(), k.as_str()),
                _ => false,
            };
            let rules_ok = match kind {
                Some(k) => config_kind_rules_hold(k.as_str(), c),
                None => true,
            };
            (tag_ok, rules_ok)
        },
        _ => (false, true),
    };
    report(errs, c6, "/config", "config must be an object whose kind repeats the package kind");
    report(errs, c7, "/config", "config does not follow the rules of its kind");
    assert(c6 == config_tag_ok(om));
    assert(c7 == config_kind_ok(om));
    assert(errors_view(errs@) =~= e0 + config_violations(om));
}

#[verifier::spinoff_prover]
#[verifier::rlimit(40)]
fn check_members(o: &Vec<(String, JsonValue)>, errs: &mut Vec<ValidationError>)
    ensures
        errors_view(final(errs)@) == errors_view(old(errs)@) + member_violations(
            crate::json::members_view(o@),
        ),
{
    let ghost om = crate::json::members_view(o@);
    let ghost e0 = errors_view(errs@);
    let is_aagent = match obj_get(o, "kind") {
        Some(JsonValue::Str(k)) => str_eq(k.as_str(), "aagent"),
        _ => false,
    };
    let aagent_members = obj_get(o, "extends").is_some() || obj_get(o, "lockfile").is_some()
        || obj_get(o, "components").is_some() || obj_get(o, "install").is_some();
    let c8 = !aagent_members || is_aagent;
    report(errs, c8, "/kind", "extends, lockfile, components and install are for aagents only");
    let has_components = match obj_get(o, "components") {
        Some(JsonValue::Array(a)) => {
            proof {
                crate::json::lemma_array_view(*a);
            }
            a.len() > 0
        },
        _ => false,
    };
    let c9 = obj_get(o, "install").is_none() || has_components;
    report(errs, c9, "/install", "install needs a non-empty components list");
    let c10 = each_item_ok(o, "dependencies", ItemRule::Dependency);
    report(errs, c10, "/dependencies", "each dependency needs a string name and version");
    let c11 = each_item_ok(o, "files", ItemRule::File);
    report(errs, c11, "/files", "each file needs a string archive_path and install_path");
    let c12 = match obj_get(o, "signature") {
        Some(JsonValue::Object(m)) => {
            proof {
                lemma_object_view(*m);
            }
            member_is_string(m, "alg") && member_is_string(m, "key_fingerprint")
                && member_is_string(m, "value") && member_is_string(m, "scope")
        },
        Some(_) => false,
        None => true,
    };
    report(errs, c12, "/signature", "signature needs string alg, key_fingerprint, value and scope");
    assert(c8 == aagent_only_ok(om));
    assert(c9 == install_ok(om));
    assert(c12 == signature_member_ok(om));
    assert(errors_view(errs@) =~= e0 + member_violations(om));
}

/// Validate a manifest's JSON form against the schema rules.
///
/// Returns `Ok(())` when the value follows every rule, else every violation
/// found, in the order the rules are checked.
pub fn validate(value: &JsonValue) -> (r: Result<(), Vec<ValidationError>>)
    ensures
        r is Ok <==> valid_manifest(value.view()),
        r matches Err(es) ==> errors_view(es@) == violations(value.view()),
{
    let mut errs: Vec<ValidationError> = Vec::new();
    match value {
        JsonValue::Object(o) => {
            proof {
                lemma_object_view(*o);
            }
            let ghost om = crate::json::members_view(o@);
            assert(errors_view(errs@) =~= Seq::empty());
            check_header(o, &mut errs);
            check_config(o, &mut errs);
            check_members(o, &mut errs);
            assert(errors_view(errs@) =~= violations(value.view()));
        },
        _ => {
            report(&mut errs, false, "(root)", "manifest must be a JSON object");
            assert(errors_view(errs@) =~= seq![("(root)"@, "manifest must be a JSON object"@)]);
        },
    }
    proof {
        lemma_valid_iff_no_violation(value.view());
    }
    if errs.len() == 0 {
        Ok(())
    } else {
        Err(errs)
    }
}

/// Validate and, on failure, report every violation as one [`Error::Schema`],
/// one `  path: message` line each.
pub fn assert_valid(value: &JsonValue) -> (r: Result<(), Error>)
    ensures
        r is Ok <==> valid_manifest(value.view()),
        r matches Err(e) ==> e is Schema && e->Schema_0@ == schema_text(
            violations(value.view()),
        ),
{
    match validate(value) {
        Ok(()) => Ok(()),
        Err(errors) => {
            let ghost ev = errors_view(errors@);
            let mut buf = String::new();
            let mut i: usize = 0;
            while i < errors.len()
                invariant
                    i <= errors@.len(),
                    ev == errors_view(errors@),
                    buf@ == schema_buffer(ev.take(i as int)),
                decreases errors@.len() - i,
            {
                let ghost t = ev.take(i + 1);
                assert(t.drop_last() =~= ev.take(i as int));
                assert(t.last() == (errors@[i as int].path@, errors@[i as int].message@));
                buf.append("  ");
                buf.append(errors[i].path.as_str());
                buf.append(": ");
                buf.append(errors[i].message.as_str());
                buf.append("\n");
                i = i + 1;
            }
            assert(ev.take(errors@.len() as int) =~= ev);
            let text = buf.as_str();
            let mut n = text.unicode_len();
            assert(text@.subrange(0, n as int) =~= text@);
            while n > 0 && text.get_char(n - 1) == '\n'
                invariant
                    n <= text@.len(),
                    trim_newlines(text@) == trim_newlines(text@.subrange(0, n as int)),
                decreases n,
            {
                assert(text@.subrange(0, n as int).drop_last() =~= text@.subrange(0, n - 1));
                n = n - 1;
            }
            let trimmed = text.substring_char(0, n);
            Err(Error::Schema(String::from_str(trimmed)))
        },
    }
}

} // verus!

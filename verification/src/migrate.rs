//! Migration of version 1 manifests to version 2.
use vstd::prelude::*;

use crate::json::{
    get, has_key, insert, keys_unique, lemma_get_insert, lemma_get_remove, lemma_insert_unique,
    lemma_insert_same, lemma_remove_absent, lemma_remove_unique, items_view, key_pos, lemma_array_view, lemma_key_pos_range, lemma_object_view,
    lemma_take_then_insert, lemma_take_then_restore, members_view, obj_get, obj_insert, obj_remove,
    obj_take, remove, str_eq, take, Json, JsonNumber, JsonValue, NumModel,
};
use vstd::string::StrSliceExecFns;

verus! {

broadcast use vstd::string::group_string_axioms;

/// Result of a migration pass.
pub struct MigrateResult {
    /// The (possibly transformed) manifest value.
    pub manifest: JsonValue,
    /// Non-fatal issues: things that were changed but may need human review.
    pub warnings: Vec<String>,
    /// Fatal issues: the manifest cannot be migrated.
    pub errors: Vec<String>,
}

/// The model of a list of strings.
pub open spec fn strings_view(v: Seq<String>) -> Seq<Seq<char>> {
    Seq::new(v.len(), |i: int| v[i]@)
}

/// `j` read as a string, or the empty string.
pub open spec fn str_or_empty(j: Option<Json>) -> Seq<char> {
    match j {
        Some(Json::Str(s)) => s,
        _ => Seq::empty(),
    }
}

/// Members of the `config` object, when `config` is an object.
pub open spec fn config_members(o: Seq<(Seq<char>, Json)>) -> Option<Seq<(Seq<char>, Json)>> {
    match get(o, "config"@) {
        Some(Json::Obj(c)) => Some(c),
        _ => None,
    }
}

/// Kinds that version 2 dropped altogether.
pub open spec fn is_removed_kind(k: Seq<char>) -> bool {
    k == "llm-runtime"@ || k == "llm-backend"@
}

pub open spec fn removed_kind_error(k: Seq<char>) -> Seq<char> {
    "kind '"@ + k + "' has no v2 equivalent; register via `alexandria llm install` instead"@
}

/// A version 1 bundle: kind `bundle` whose config carries no `tools` list.
pub open spec fn is_v1_bundle(o: Seq<(Seq<char>, Json)>, k: Seq<char>) -> bool {
    &&& k == "bundle"@
    &&& !(config_members(o) matches Some(c) && has_key(c, "tools"@))
}

/// The version 2 kind of a version 1 `tool`, `agent` or `skill`.
pub open spec fn retagged_kind(o: Seq<(Seq<char>, Json)>, k: Seq<char>) -> Option<Seq<char>> {
    if k == "tool"@ {
        let t = match config_members(o) {
            Some(c) => str_or_empty(get(c, "transport"@)),
            None => Seq::empty(),
        };
        if t == "grpc"@ {
            Some("atool"@)
        } else {
            Some("mcp"@)
        }
    } else if k == "agent"@ || k == "skill"@ {
        Some("aagent"@)
    } else {
        None
    }
}

/// Set the top-level kind and, when config is an object, its `kind` tag.
pub open spec fn retag(o: Seq<(Seq<char>, Json)>, nk: Seq<char>) -> Seq<(Seq<char>, Json)> {
    let o1 = insert(o, "kind"@, Json::Str(nk));
    match config_members(o1) {
        Some(c) => insert(o1, "config"@, Json::Obj(insert(c, "kind"@, Json::Str(nk)))),
        None => o1,
    }
}

/// The component references of a version 1 bundle config.
pub open spec fn bundle_components(o: Seq<(Seq<char>, Json)>) -> Seq<Json> {
    match config_members(o) {
        Some(c) => match get(c, "components"@) {
            Some(Json::Arr(a)) => a,
            _ => Seq::empty(),
        },
        None => Seq::empty(),
    }
}

pub open spec fn ref_object(r: Json) -> Json {
    Json::Obj(seq![("ref"@, r)])
}

pub open spec fn aagent_placeholder_config() -> Json {
    Json::Obj(
        seq![("kind"@, Json::Str("aagent"@)), ("system_prompt"@, Json::Str("TODO: add system_prompt"@))],
    )
}

/// A version 1 bundle becomes an aagent whose components are references.
pub open spec fn convert_bundle(o: Seq<(Seq<char>, Json)>) -> Seq<(Seq<char>, Json)> {
    let o1 = insert(o, "kind"@, Json::Str("aagent"@));
    let refs = bundle_components(o1).map_values(|r: Json| ref_object(r));
    let o2 = insert(o1, "config"@, aagent_placeholder_config());
    insert(o2, "components"@, Json::Arr(refs))
}

pub open spec fn bundle_warning() -> Seq<char> {
    "bundle converted to aagent; add config.system_prompt before publishing"@
}

/// The kind conversion step.
pub open spec fn convert_kind(o: Seq<(Seq<char>, Json)>, k: Seq<char>) -> Seq<(Seq<char>, Json)> {
    if is_v1_bundle(o, k) {
        convert_bundle(o)
    } else if let Some(nk) = retagged_kind(o, k) {
        retag(o, nk)
    } else {
        o
    }
}

pub open spec fn convert_kind_warnings(o: Seq<(Seq<char>, Json)>, k: Seq<char>) -> Seq<Seq<char>> {
    if is_v1_bundle(o, k) {
        seq![bundle_warning()]
    } else {
        Seq::empty()
    }
}

/// Move the value of `from` to `to`, when `from` is present.
pub open spec fn rename(c: Seq<(Seq<char>, Json)>, from: Seq<char>, to: Seq<char>) -> Seq<(Seq<char>, Json)> {
    if has_key(c, from) {
        insert(remove(c, from), to, get(c, from).unwrap())
    } else {
        c
    }
}

pub open spec fn drop_member(c: Seq<(Seq<char>, Json)>, k: Seq<char>) -> Seq<(Seq<char>, Json)> {
    if has_key(c, k) {
        remove(c, k)
    } else {
        c
    }
}

pub open spec fn when(b: bool, w: Seq<char>) -> Seq<Seq<char>> {
    if b {
        seq![w]
    } else {
        Seq::empty()
    }
}

/// An exponent mark of a number's decimal text.
pub open spec fn is_exponent_mark(c: char) -> bool {
    c == 'e' || c == 'E'
}

/// Whether a number's decimal text denotes zero: each digit before the
/// exponent mark is `0`.
pub open spec fn float_text_is_zero(s: Seq<char>) -> bool {
    forall|i: int|
        0 <= i < s.len() && '1' <= #[trigger] s[i] <= '9' ==> exists|j: int|
            0 <= j < i && #[trigger] is_exponent_mark(s[j])
}

pub open spec fn num_is_zero(n: NumModel) -> bool {
    match n {
        NumModel::UInt(u) => u == 0,
        NumModel::NegInt(i) => i == 0,
        NumModel::Float(s) => float_text_is_zero(s),
    }
}

pub open spec fn port_is_zero(c: Seq<(Seq<char>, Json)>) -> bool {
    get(c, "default_port"@) matches Some(Json::Num(n)) && num_is_zero(n)
}

pub open spec fn migrate_config_members(c: Seq<(Seq<char>, Json)>) -> Seq<(Seq<char>, Json)> {
    let c1 = rename(c, "llm"@, "model"@);
    let c2 = rename(c1, "model_hint"@, "model"@);
    let c3 = drop_member(c2, "tags"@);
    drop_member(c3, "default_mode"@)
}

pub open spec fn migrate_config_warnings(c: Seq<(Seq<char>, Json)>) -> Seq<Seq<char>> {
    let c1 = rename(c, "llm"@, "model"@);
    let c2 = rename(c1, "model_hint"@, "model"@);
    let c3 = drop_member(c2, "tags"@);
    let c4 = drop_member(c3, "default_mode"@);
    when(has_key(c, "llm"@), "config.llm renamed to config.model"@)
        + when(has_key(c1, "model_hint"@), "config.model_hint renamed to config.model"@)
        + when(has_key(c2, "tags"@), "config.tags removed (no v2 equivalent)"@)
        + when(has_key(c3, "default_mode"@), "config.default_mode removed (swarm is always default)"@)
        + when(port_is_zero(c4), "default_port was 0 (schema-invalid); set to a valid port 1-65535"@)
}

/// The config step: rewrite the config members when config is an object.
pub open spec fn migrate_config(o: Seq<(Seq<char>, Json)>) -> Seq<(Seq<char>, Json)> {
    match config_members(o) {
        Some(c) => insert(o, "config"@, Json::Obj(migrate_config_members(c))),
        None => o,
    }
}

pub open spec fn migrate_config_step_warnings(o: Seq<(Seq<char>, Json)>) -> Seq<Seq<char>> {
    match config_members(o) {
        Some(c) => migrate_config_warnings(c),
        None => Seq::empty(),
    }
}

/// A signature block of the version 2 shape.
pub open spec fn has_v2_signature_shape(sig: Json) -> bool {
    match sig {
        Json::Obj(m) => has_key(m, "alg"@) && has_key(m, "key_fingerprint"@) && has_key(m, "value"@) && has_key(
            m,
            "scope"@,
        ),
        _ => false,
    }
}

pub open spec fn stale_signature(o: Seq<(Seq<char>, Json)>) -> bool {
    get(o, "signature"@) matches Some(sig) && !has_v2_signature_shape(sig)
}

pub open spec fn strip_signing(o: Seq<(Seq<char>, Json)>) -> Seq<(Seq<char>, Json)> {
    let o1 = drop_member(o, "signed_at"@);
    let o2 = drop_member(o1, "key_fingerprint"@);
    if stale_signature(o2) {
        remove(o2, "signature"@)
    } else {
        o2
    }
}

/// Names of the signing fields that [`strip_signing`] removes, in order.
pub open spec fn stripped_signing_fields(o: Seq<(Seq<char>, Json)>) -> Seq<Seq<char>> {
    let o1 = drop_member(o, "signed_at"@);
    let o2 = drop_member(o1, "key_fingerprint"@);
    when(has_key(o, "signed_at"@), "signed_at"@) + when(has_key(o1, "key_fingerprint"@), "key_fingerprint"@)
        + when(stale_signature(o2), "signature"@)
}

/// The items of `s` separated by `sep`.
pub open spec fn join(s: Seq<Seq<char>>, sep: Seq<char>) -> Seq<char>
    decreases s.len(),
{
    if s.len() == 0 {
        Seq::empty()
    } else if s.len() == 1 {
        s[0]
    } else {
        join(s.drop_last(), sep) + sep + s.last()
    }
}

pub open spec fn strip_signing_warnings(o: Seq<(Seq<char>, Json)>) -> Seq<Seq<char>> {
    let names = stripped_signing_fields(o);
    when(
        names.len() > 0,
        "signing fields removed ("@ + join(names, ", "@) + "); re-sign after migration"@,
    )
}

/// A dependency whose `version` is absent, null or empty.
pub open spec fn version_missing(d: Json) -> bool {
    match d {
        Json::Obj(m) => match get(m, "version"@) {
            None => true,
            Some(Json::Null) => true,
            Some(Json::Str(s)) => s.len() == 0,
            Some(_) => false,
        },
        _ => true,
    }
}

pub open spec fn dependency_name(d: Json) -> Seq<char> {
    match d {
        Json::Obj(m) => match get(m, "name"@) {
            Some(Json::Str(s)) => s,
            _ => "?"@,
        },
        _ => "?"@,
    }
}

pub open spec fn dependency_warning(name: Seq<char>) -> Seq<char> {
    "dependency '"@ + name + "' missing version field; add before publishing"@
}

pub open spec fn dependency_warnings_of(ds: Seq<Json>) -> Seq<Seq<char>>
    decreases ds.len(),
{
    if ds.len() == 0 {
        Seq::empty()
    } else {
        dependency_warnings_of(ds.drop_last()) + when(
            version_missing(ds.last()),
            dependency_warning(dependency_name(ds.last())),
        )
    }
}

pub open spec fn dependency_warnings(o: Seq<(Seq<char>, Json)>) -> Seq<Seq<char>> {
    match get(o, "dependencies"@) {
        Some(Json::Arr(ds)) => dependency_warnings_of(ds),
        _ => Seq::empty(),
    }
}

pub open spec fn not_an_object_error() -> Seq<char> {
    "manifest is not a JSON object"@
}

/// What migrating `v` gives: the manifest, the warnings and the errors.
pub open spec fn migrate_spec(v: Json) -> (Json, Seq<Seq<char>>, Seq<Seq<char>>) {
    match v {
        Json::Obj(o) => {
            let o1 = insert(o, "schema_version"@, Json::Str("2"@));
            let k = str_or_empty(get(o1, "kind"@));
            if is_removed_kind(k) {
                (Json::Obj(o1), Seq::empty(), seq![removed_kind_error(k)])
            } else {
                let o2 = convert_kind(o1, k);
                let o3 = migrate_config(o2);
                let o4 = strip_signing(o3);
                (
                    Json::Obj(o4),
                    convert_kind_warnings(o1, k) + migrate_config_step_warnings(o2)
                        + strip_signing_warnings(o3) + dependency_warnings(o4),
                    Seq::empty(),
                )
            }
        },
        _ => (v, Seq::empty(), seq![not_an_object_error()]),
    }
}


fn push_str(w: &mut Vec<String>, s: &str)
    ensures
        strings_view(final(w)@) == strings_view(old(w)@).push(s@),
{
    w.push(String::from_str(s));
    assert(strings_view(w@) =~= strings_view(old(w)@).push(s@));
}

fn push_string(w: &mut Vec<String>, s: String)
    ensures
        strings_view(final(w)@) == strings_view(old(w)@).push(s@),
{
    let ghost sv = s@;
    w.push(s);
    assert(strings_view(w@) =~= strings_view(old(w)@).push(sv));
}

/// `a + b + c` as one string.
fn concat3(a: &str, b: &str, c: &str) -> (r: String)
    ensures
        r@ == a@ + b@ + c@,
{
    let mut r = String::from_str(a);
    r.append(b);
    r.append(c);
    r
}

fn replace_kind_tag(o: &mut Vec<(String, JsonValue)>, nk: &str)
    ensures
        members_view(final(o)@) == retag(members_view(old(o)@), nk@),
{
    obj_insert(o, "kind", JsonValue::Str(String::from_str(nk)));
    let ghost o1 = members_view(o@);
    match obj_take(o, "config") {
        Some(JsonValue::Object(mut c)) => {
            proof {
                lemma_object_view(c);
            }
            obj_insert(&mut c, "kind", JsonValue::Str(String::from_str(nk)));
            proof {
                lemma_object_view(c);
                lemma_take_then_insert(o1, "config"@, JsonValue::Object(c).view());
            }
            obj_insert(o, "config", JsonValue::Object(c));
        },
        Some(other) => {
            proof {
                lemma_take_then_restore(o1, "config"@);
            }
            obj_insert(o, "config", other);
        },
        None => {},
    }
}

fn make_ref_object(r: JsonValue) -> (j: JsonValue)
    ensures
        j.view() == ref_object(r.view()),
{
    let mut m: Vec<(String, JsonValue)> = Vec::new();
    m.push((String::from_str("ref"), r));
    proof {
        lemma_object_view(m);
        assert(members_view(m@) =~= seq![("ref"@, r.view())]);
    }
    JsonValue::Object(m)
}

fn placeholder_config() -> (j: JsonValue)
    ensures
        j.view() == aagent_placeholder_config(),
{
    let mut m: Vec<(String, JsonValue)> = Vec::new();
    m.push((String::from_str("kind"), JsonValue::Str(String::from_str("aagent"))));
    m.push(
        (String::from_str("system_prompt"), JsonValue::Str(String::from_str("TODO: add system_prompt"))),
    );
    proof {
        lemma_object_view(m);
        assert(members_view(m@) =~= seq![
            ("kind"@, Json::Str("aagent"@)),
            ("system_prompt"@, Json::Str("TODO: add system_prompt"@)),
        ]);
    }
    JsonValue::Object(m)
}

fn convert_v1_bundle(o: &mut Vec<(String, JsonValue)>)
    ensures
        members_view(final(o)@) == convert_bundle(members_view(old(o)@)),
{
    obj_insert(o, "kind", JsonValue::Str(String::from_str("aagent")));
    let ghost o1 = members_view(o@);
    let mut comps: Vec<JsonValue> = match obj_take(o, "config") {
        Some(JsonValue::Object(mut c)) => {
            proof {
                lemma_object_view(c);
            }
            match obj_take(&mut c, "components") {
                Some(JsonValue::Array(a)) => {
                    proof {
                        lemma_array_view(a);
                    }
                    a
                },
                _ => Vec::new(),
            }
        },
        _ => Vec::new(),
    };
    let ghost comps0 = items_view(comps@);
    assert(comps0 == bundle_components(o1));
    proof {
        if has_key(o1, "config"@) {
            lemma_take_then_insert(o1, "config"@, aagent_placeholder_config());
        }
    }
    obj_insert(o, "config", placeholder_config());
    let mut refs: Vec<JsonValue> = Vec::new();
    let ghost n = comps0.len();
    while comps.len() > 0
        invariant
            n == comps0.len(),
            items_view(comps@) == comps0.skip(n - comps@.len()),
            comps@.len() <= n,
            items_view(refs@) == comps0.take(n - comps@.len()).map_values(|r: Json| ref_object(r)),
        decreases comps@.len(),
    {
        let ghost before = comps@;
        let x = comps.remove(0);
        assert(items_view(comps@) =~= items_view(before).drop_first());
        assert(items_view(before)[0] == x.view());
        let rx = make_ref_object(x);
        let ghost refs_before = refs@;
        refs.push(rx);
        assert(items_view(refs@) =~= items_view(refs_before).push(rx.view()));
        let ghost i = n - before.len();
        assert(comps0.skip(i).drop_first() =~= comps0.skip(i + 1));
        assert(comps0[i] == x.view());
        assert(items_view(refs@) =~= comps0.take(i + 1).map_values(|r: Json| ref_object(r)));
    }
    assert(comps0.take(n as int) =~= comps0);
    proof {
        lemma_array_view(refs);
    }
    obj_insert(o, "components", JsonValue::Array(refs));
}


fn rename_member(c: &mut Vec<(String, JsonValue)>, from: &str, to: &str) -> (moved: bool)
    ensures
        members_view(final(c)@) == rename(members_view(old(c)@), from@, to@),
        moved == has_key(members_view(old(c)@), from@),
{
    match obj_remove(c, from) {
        Some(v) => {
            obj_insert(c, to, v);
            true
        },
        None => {
            proof {
                lemma_key_pos_range(members_view(old(c)@), from@);
            }
            false
        },
    }
}

fn drop_key(c: &mut Vec<(String, JsonValue)>, k: &str) -> (dropped: bool)
    ensures
        members_view(final(c)@) == drop_member(members_view(old(c)@), k@),
        dropped == has_key(members_view(old(c)@), k@),
{
    let r = obj_remove(c, k);
    proof {
        lemma_key_pos_range(members_view(old(c)@), k@);
    }
    r.is_some()
}

fn text_is_zero(s: &str) -> (r: bool)
    ensures
        r == float_text_is_zero(s@),
{
    let n = s.unicode_len();
    let mut i: usize = 0;
    while i < n
        invariant
            n == s@.len(),
            i <= n,
            forall|j: int| 0 <= j < i ==> !is_exponent_mark(#[trigger] s@[j]),
            forall|j: int| 0 <= j < i ==> !('1' <= #[trigger] s@[j] <= '9'),
        decreases n - i,
    {
        let ch = s.get_char(i);
        if ch == 'e' || ch == 'E' {
            assert forall|k: int| 0 <= k < s@.len() && '1' <= #[trigger] s@[k] <= '9' implies exists|j: int|
                0 <= j < k && #[trigger] is_exponent_mark(s@[j]) by {
                assert(k != i);
                if k > i {
                    assert(is_exponent_mark(s@[i as int]));
                }
            }
            return true;
        }
        if '1' <= ch && ch <= '9' {
            assert(!(exists|j: int| 0 <= j < i && #[trigger] is_exponent_mark(s@[j])));
            return false;
        }
        i = i + 1;
    }
    true
}

fn number_is_zero(n: &JsonNumber) -> (r: bool)
    ensures
        r == num_is_zero(n.view()),
{
    match n {
        JsonNumber::UInt(u) => *u == 0,
        JsonNumber::NegInt(i) => *i == 0,
        JsonNumber::Float(s) => text_is_zero(s.as_str()),
    }
}

fn when_push(w: &mut Vec<String>, b: bool, s: &str)
    ensures
        strings_view(final(w)@) == strings_view(old(w)@) + when(b, s@),
{
    if b {
        push_str(w, s);
    } else {
        assert(strings_view(w@) =~= strings_view(old(w)@) + when(b, s@));
    }
}

fn migrate_config_fields(c: &mut Vec<(String, JsonValue)>, w: &mut Vec<String>)
    ensures
        members_view(final(c)@) == migrate_config_members(members_view(old(c)@)),
        strings_view(final(w)@) == strings_view(old(w)@) + migrate_config_warnings(
            members_view(old(c)@),
        ),
{
    let ghost c0 = members_view(c@);
    let ghost w0 = strings_view(w@);
    let b1 = rename_member(c, "llm", "model");
    when_push(w, b1, "config.llm renamed to config.model");
    let ghost w1 = strings_view(w@);
    let b2 = rename_member(c, "model_hint", "model");
    when_push(w, b2, "config.model_hint renamed to config.model");
    let ghost w2 = strings_view(w@);
    let b3 = drop_key(c, "tags");
    when_push(w, b3, "config.tags removed (no v2 equivalent)");
    let ghost w3 = strings_view(w@);
    let b4 = drop_key(c, "default_mode");
    when_push(w, b4, "config.default_mode removed (swarm is always default)");
    let ghost w4 = strings_view(w@);
    let zero = match obj_get(c, "default_port") {
        Some(JsonValue::Number(n)) => number_is_zero(n),
        _ => false,
    };
    assert(zero == port_is_zero(members_view(c@)));
    when_push(w, zero, "default_port was 0 (schema-invalid); set to a valid port 1-65535");
    assert(strings_view(w@) == w4 + when(zero, "default_port was 0 (schema-invalid); set to a valid port 1-65535"@));
    assert(strings_view(w@) =~= w0 + migrate_config_warnings(c0));
}

fn migrate_config_block(o: &mut Vec<(String, JsonValue)>, w: &mut Vec<String>)
    ensures
        members_view(final(o)@) == migrate_config(members_view(old(o)@)),
        strings_view(final(w)@) == strings_view(old(w)@) + migrate_config_step_warnings(
            members_view(old(o)@),
        ),
{
    let ghost o1 = members_view(o@);
    match obj_take(o, "config") {
        Some(JsonValue::Object(mut c)) => {
            proof {
                lemma_object_view(c);
            }
            migrate_config_fields(&mut c, w);
            proof {
                lemma_object_view(c);
                lemma_take_then_insert(o1, "config"@, JsonValue::Object(c).view());
            }
            obj_insert(o, "config", JsonValue::Object(c));
        },
        Some(other) => {
            proof {
                lemma_take_then_restore(o1, "config"@);
            }
            obj_insert(o, "config", other);
            assert(strings_view(w@) =~= strings_view(old(w)@) + migrate_config_step_warnings(o1));
        },
        None => {
            assert(strings_view(w@) =~= strings_view(old(w)@) + migrate_config_step_warnings(o1));
        },
    }
}

fn signature_has_v2_shape(sig: &JsonValue) -> (r: bool)
    ensures
        r == has_v2_signature_shape(sig.view()),
{
    match sig {
        JsonValue::Object(m) => {
            proof {
                lemma_object_view(*m);
            }
            obj_get(m, "alg").is_some() && obj_get(m, "key_fingerprint").is_some() && obj_get(
                m,
                "value",
            ).is_some() && obj_get(m, "scope").is_some()
        },
        _ => false,
    }
}

/// The items of `names` separated by `sep`.
fn join_strings(names: &Vec<String>, sep: &str) -> (r: String)
    ensures
        r@ == join(strings_view(names@), sep@),
{
    let ghost sv = strings_view(names@);
    let mut r = String::new();
    let mut i: usize = 0;
    while i < names.len()
        invariant
            sv == strings_view(names@),
            i <= names@.len(),
            r@ == join(sv.take(i as int), sep@),
        decreases names@.len() - i,
    {
        assert(sv.take(i + 1).drop_last() =~= sv.take(i as int));
        if i > 0 {
            r.append(sep);
        }
        r.append(names[i].as_str());
        i = i + 1;
    }
    assert(sv.take(i as int) =~= sv);
    r
}

fn strip_signing_fields(o: &mut Vec<(String, JsonValue)>, w: &mut Vec<String>)
    ensures
        members_view(final(o)@) == strip_signing(members_view(old(o)@)),
        strings_view(final(w)@) == strings_view(old(w)@) + strip_signing_warnings(
            members_view(old(o)@),
        ),
{
    let ghost o0 = members_view(o@);
    let mut names: Vec<String> = Vec::new();
    let ghost n0 = strings_view(names@);
    if drop_key(o, "signed_at") {
        push_str(&mut names, "signed_at");
    }
    if drop_key(o, "key_fingerprint") {
        push_str(&mut names, "key_fingerprint");
    }
    let stale = match obj_get(o, "signature") {
        Some(sig) => !signature_has_v2_shape(sig),
        None => false,
    };
    if stale {
        obj_remove(o, "signature");
        push_str(&mut names, "signature");
    }
    assert(strings_view(names@) =~= stripped_signing_fields(o0));
    if names.len() > 0 {
        let joined = join_strings(&names, ", ");
        let msg = concat3("signing fields removed (", joined.as_str(), "); re-sign after migration");
        push_string(w, msg);
    }
    assert(strings_view(w@) =~= strings_view(old(w)@) + strip_signing_warnings(o0));
}

fn version_is_missing(d: &JsonValue) -> (r: bool)
    ensures
        r == version_missing(d.view()),
{
    match d {
        JsonValue::Object(m) => {
            proof {
                lemma_object_view(*m);
            }
            match obj_get(m, "version") {
                None => true,
                Some(JsonValue::Null) => true,
                Some(JsonValue::Str(s)) => s.as_str().unicode_len() == 0,
                Some(_) => false,
            }
        },
        _ => true,
    }
}

fn name_of_dependency(d: &JsonValue) -> (r: String)
    ensures
        r@ == dependency_name(d.view()),
{
    match d {
        JsonValue::Object(m) => {
            proof {
                lemma_object_view(*m);
            }
            match obj_get(m, "name") {
                Some(JsonValue::Str(s)) => s.clone(),
                _ => String::from_str("?"),
            }
        },
        _ => String::from_str("?"),
    }
}

fn push_dependency_warnings(o: &Vec<(String, JsonValue)>, w: &mut Vec<String>)
    ensures
        strings_view(final(w)@) == strings_view(old(w)@) + dependency_warnings(members_view(o@)),
{
    match obj_get(o, "dependencies") {
        Some(JsonValue::Array(ds)) => {
            proof {
                lemma_array_view(*ds);
            }
            let ghost dv = items_view(ds@);
            let ghost w0 = strings_view(w@);
            let mut i: usize = 0;
            while i < ds.len()
                invariant
                    dv == items_view(ds@),
                    i <= ds@.len(),
                    strings_view(w@) == w0 + dependency_warnings_of(dv.take(i as int)),
                decreases ds@.len() - i,
            {
                assert(dv.take(i + 1).drop_last() =~= dv.take(i as int));
                assert(dv.take(i + 1).last() == ds@[i as int].view());
                let ghost wb = strings_view(w@);
                if version_is_missing(&ds[i]) {
                    let name = name_of_dependency(&ds[i]);
                    let msg = concat3("dependency '", name.as_str(), "' missing version field; add before publishing");
                    push_string(w, msg);
                }
                assert(strings_view(w@) =~= w0 + dependency_warnings_of(dv.take(i + 1)));
                i = i + 1;
            }
            assert(dv.take(i as int) =~= dv);
        },
        _ => {
            assert(strings_view(w@) =~= strings_view(old(w)@) + dependency_warnings(members_view(o@)));
        },
    }
}

fn convert_kind_step(o: &mut Vec<(String, JsonValue)>, kind: &String, w: &mut Vec<String>)
    ensures
        members_view(final(o)@) == convert_kind(members_view(old(o)@), kind@),
        strings_view(final(w)@) == strings_view(old(w)@) + convert_kind_warnings(
            members_view(old(o)@),
            kind@,
        ),
{
    let ghost o0 = members_view(o@);
    let tools_present = match obj_get(o, "config") {
        Some(JsonValue::Object(c)) => {
            proof {
                lemma_object_view(*c);
            }
            obj_get(c, "tools").is_some()
        },
        _ => false,
    };
    assert(tools_present == (config_members(o0) matches Some(c) && has_key(c, "tools"@)));
    if str_eq(kind.as_str(), "bundle") && !tools_present {
        convert_v1_bundle(o);
        push_str(w, "bundle converted to aagent; add config.system_prompt before publishing");
    } else {
        let new_kind: Option<&str> = if str_eq(kind.as_str(), "tool") {
            let grpc = match obj_get(o, "config") {
                Some(JsonValue::Object(c)) => {
                    proof {
                        lemma_object_view(*c);
                    }
                    match obj_get(c, "transport") {
                        Some(JsonValue::Str(t)) => str_eq(t.as_str(), "grpc"),
                        _ => false,
                    }
                },
                _ => false,
            };
            proof {
                reveal_strlit("grpc");
                assert("grpc"@.len() == 4);
                assert(Seq::<char>::empty() != "grpc"@);
            }
            assert(grpc == (str_or_empty(
                match config_members(o0) { Some(c) => get(c, "transport"@), None => None },
            ) == "grpc"@));
            if grpc {
                Some("atool")
            } else {
                Some("mcp")
            }
        } else if str_eq(kind.as_str(), "agent") || str_eq(kind.as_str(), "skill") {
            Some("aagent")
        } else {
            None
        };
        assert(new_kind.is_some() == retagged_kind(o0, kind@).is_some());
        assert(new_kind matches Some(nk) ==> retagged_kind(o0, kind@) == Some(nk@));
        match new_kind {
            Some(nk) => {
                replace_kind_tag(o, nk);
            },
            None => {},
        }
    }
    assert(strings_view(w@) =~= strings_view(old(w)@) + convert_kind_warnings(o0, kind@));
}

/// Migrate a version 1 manifest to version 2.
///
/// The kinds `tool`, `agent` and `skill` take their version 2 names, a version 1
/// bundle becomes an aagent of component references, renamed config fields
/// move, stale signing fields go, and every change that may need review is
/// reported as a warning.
pub fn migrate_manifest(v1: JsonValue) -> (r: MigrateResult)
    ensures
        (r.manifest.view(), strings_view(r.warnings@), strings_view(r.errors@)) == migrate_spec(
            v1.view(),
        ),
{
    let ghost vin = v1.view();
    let mut warnings: Vec<String> = Vec::new();
    let mut errors: Vec<String> = Vec::new();
    match v1 {
        JsonValue::Object(mut o) => {
            proof {
                lemma_object_view(o);
            }
            obj_insert(&mut o, "schema_version", JsonValue::Str(String::from_str("2")));
            let ghost o1 = members_view(o@);
            let kind: String = match obj_get(&o, "kind") {
                Some(JsonValue::Str(s)) => s.clone(),
                _ => String::new(),
            };
            if str_eq(kind.as_str(), "llm-runtime") || str_eq(kind.as_str(), "llm-backend") {
                let msg = concat3(
                    "kind '",
                    kind.as_str(),
                    "' has no v2 equivalent; register via `alexandria llm install` instead",
                );
                push_string(&mut errors, msg);
                proof {
                    lemma_object_view(o);
                    assert(strings_view(warnings@) =~= Seq::empty());
                }
                return MigrateResult { manifest: JsonValue::Object(o), warnings, errors };
            }
            convert_kind_step(&mut o, &kind, &mut warnings);
            migrate_config_block(&mut o, &mut warnings);
            strip_signing_fields(&mut o, &mut warnings);
            push_dependency_warnings(&o, &mut warnings);
            proof {
                lemma_object_view(o);
                assert(strings_view(errors@) =~= Seq::empty());
            }
            MigrateResult { manifest: JsonValue::Object(o), warnings, errors }
        },
        other => {
            push_str(&mut errors, "manifest is not a JSON object");
            assert(strings_view(warnings@) =~= Seq::empty());
            MigrateResult { manifest: other, warnings, errors }
        },
    }
}


proof fn lemma_member_names_distinct()
    ensures
        "schema_version"@ != "kind"@,
        "schema_version"@ != "config"@,
        "schema_version"@ != "components"@,
        "schema_version"@ != "signed_at"@,
        "schema_version"@ != "key_fingerprint"@,
        "schema_version"@ != "signature"@,
        "kind"@ != "config"@,
        "kind"@ != "components"@,
        "kind"@ != "signed_at"@,
        "kind"@ != "key_fingerprint"@,
        "kind"@ != "signature"@,
        "config"@ != "components"@,
        "config"@ != "signed_at"@,
        "config"@ != "key_fingerprint"@,
        "config"@ != "signature"@,
{
    reveal_strlit("schema_version");
    reveal_strlit("kind");
    reveal_strlit("config");
    reveal_strlit("components");
    reveal_strlit("signed_at");
    reveal_strlit("key_fingerprint");
    reveal_strlit("signature");
    assert("schema_version"@.len() == 14);
    assert("kind"@.len() == 4);
    assert("config"@.len() == 6);
    assert("components"@.len() == 10);
    assert("signed_at"@.len() == 9);
    assert("key_fingerprint"@.len() == 15);
    assert("signature"@.len() == 9);
}

/// Members other than `kind`, `config` and `components` are untouched by the
/// kind conversion.
proof fn lemma_convert_kind_keeps(o: Seq<(Seq<char>, Json)>, k: Seq<char>, x: Seq<char>)
    requires
        x != "kind"@,
        x != "config"@,
        x != "components"@,
    ensures
        get(convert_kind(o, k), x) == get(o, x),
{
    let kind_v = Json::Str("aagent"@);
    if is_v1_bundle(o, k) {
        let o1 = insert(o, "kind"@, kind_v);
        let refs = bundle_components(o1).map_values(|r: Json| ref_object(r));
        let o2 = insert(o1, "config"@, aagent_placeholder_config());
        lemma_get_insert(o, "kind"@, kind_v, x);
        lemma_get_insert(o1, "config"@, aagent_placeholder_config(), x);
        lemma_get_insert(o2, "components"@, Json::Arr(refs), x);
    } else if let Some(nk) = retagged_kind(o, k) {
        let o1 = insert(o, "kind"@, Json::Str(nk));
        lemma_get_insert(o, "kind"@, Json::Str(nk), x);
        if let Some(c) = config_members(o1) {
            lemma_get_insert(o1, "config"@, Json::Obj(insert(c, "kind"@, Json::Str(nk))), x);
        }
    }
}

/// Members other than `config` are untouched by the config step.
proof fn lemma_migrate_config_keeps(o: Seq<(Seq<char>, Json)>, x: Seq<char>)
    requires
        x != "config"@,
    ensures
        get(migrate_config(o), x) == get(o, x),
{
    if let Some(c) = config_members(o) {
        lemma_get_insert(o, "config"@, Json::Obj(migrate_config_members(c)), x);
    }
}

/// Members other than the signing fields are untouched by the signing step.
proof fn lemma_strip_signing_keeps(o: Seq<(Seq<char>, Json)>, x: Seq<char>)
    requires
        x != "signed_at"@,
        x != "key_fingerprint"@,
        x != "signature"@,
    ensures
        get(strip_signing(o), x) == get(o, x),
{
    let o1 = drop_member(o, "signed_at"@);
    let o2 = drop_member(o1, "key_fingerprint"@);
    if has_key(o, "signed_at"@) {
        lemma_get_remove(o, "signed_at"@, x);
    }
    if has_key(o1, "key_fingerprint"@) {
        lemma_get_remove(o1, "key_fingerprint"@, x);
    }
    if stale_signature(o2) {
        lemma_get_remove(o2, "signature"@, x);
    }
}

/// Migrating a JSON object always yields an object whose `schema_version` is
/// the string "2", whether the migration succeeds or reports errors.
pub proof fn law_migrate_sets_schema_version(v: Json)
    requires
        v is Obj,
    ensures
        migrate_spec(v).0 matches Json::Obj(o) && get(o, "schema_version"@) == Some(
            Json::Str("2"@),
        ),
{
    lemma_member_names_distinct();
    let o = v->Obj_0;
    let sv = "schema_version"@;
    let o1 = insert(o, sv, Json::Str("2"@));
    lemma_get_insert(o, sv, Json::Str("2"@), sv);
    let k = str_or_empty(get(o1, "kind"@));
    if !is_removed_kind(k) {
        let o2 = convert_kind(o1, k);
        let o3 = migrate_config(o2);
        lemma_convert_kind_keeps(o1, k, sv);
        lemma_migrate_config_keeps(o2, sv);
        lemma_strip_signing_keeps(o3, sv);
    }
}

/// Migration reports errors exactly when the input is not a JSON object or its
/// kind is one that version 2 dropped (`llm-runtime`, `llm-backend`); then it
/// reports exactly one error and no warning.
pub proof fn law_migrate_errors(v: Json)
    ensures
        (migrate_spec(v).2.len() > 0) == (!(v is Obj) || is_removed_kind(
            str_or_empty(get(v->Obj_0, "kind"@)),
        )),
        migrate_spec(v).2.len() > 0 ==> migrate_spec(v).2.len() == 1 && migrate_spec(v).1.len()
            == 0,
{
    lemma_member_names_distinct();
    if let Json::Obj(o) = v {
        lemma_get_insert(o, "schema_version"@, Json::Str("2"@), "kind"@);
    }
}


proof fn lemma_config_names_distinct()
    ensures
        "llm"@ != "model"@,
        "model_hint"@ != "model"@,
        "llm"@ != "model_hint"@,
        "llm"@ != "tags"@,
        "llm"@ != "default_mode"@,
        "model_hint"@ != "tags"@,
        "model_hint"@ != "default_mode"@,
        "tags"@ != "default_mode"@,
        "tools"@ != "llm"@,
        "tools"@ != "model"@,
        "tools"@ != "model_hint"@,
        "tools"@ != "tags"@,
        "tools"@ != "default_mode"@,
        "signed_at"@ != "key_fingerprint"@,
        "signed_at"@ != "signature"@,
        "key_fingerprint"@ != "signature"@,
        "kind"@ != "system_prompt"@,
{
    reveal_strlit("llm");
    reveal_strlit("model");
    reveal_strlit("model_hint");
    reveal_strlit("tags");
    reveal_strlit("default_mode");
    reveal_strlit("tools");
    reveal_strlit("signed_at");
    reveal_strlit("key_fingerprint");
    reveal_strlit("signature");
    reveal_strlit("kind");
    reveal_strlit("system_prompt");
    assert("llm"@.len() == 3);
    assert("model"@.len() == 5);
    assert("model_hint"@.len() == 10);
    assert("tags"@.len() == 4);
    assert("default_mode"@.len() == 12);
    assert("tools"@.len() == 5);
    assert("signed_at"@.len() == 9);
    assert("key_fingerprint"@.len() == 15);
    assert("signature"@.len() == 9);
    assert("kind"@.len() == 4);
    assert("system_prompt"@.len() == 13);
    assert("tools"@[0] != "model"@[0]);
    assert("signed_at"@[4] != "signature"@[4]);
}

proof fn lemma_kind_names_distinct()
    ensures
        "aagent"@ != "tool"@,
        "aagent"@ != "agent"@,
        "aagent"@ != "skill"@,
        "aagent"@ != "bundle"@,
        "atool"@ != "tool"@,
        "atool"@ != "agent"@,
        "atool"@ != "skill"@,
        "atool"@ != "bundle"@,
        "mcp"@ != "tool"@,
        "mcp"@ != "agent"@,
        "mcp"@ != "skill"@,
        "mcp"@ != "bundle"@,
        "bundle"@ != "tool"@,
        "bundle"@ != "agent"@,
        "bundle"@ != "skill"@,
        !is_removed_kind("aagent"@),
        !is_removed_kind("atool"@),
        !is_removed_kind("mcp"@),
{
    reveal_strlit("llm-runtime");
    reveal_strlit("llm-backend");
    assert("llm-runtime"@.len() == 11);
    assert("llm-backend"@.len() == 11);
    reveal_strlit("aagent");
    reveal_strlit("atool");
    reveal_strlit("mcp");
    reveal_strlit("tool");
    reveal_strlit("agent");
    reveal_strlit("skill");
    reveal_strlit("bundle");
    assert("aagent"@.len() == 6);
    assert("atool"@.len() == 5);
    assert("mcp"@.len() == 3);
    assert("tool"@.len() == 4);
    assert("agent"@.len() == 5);
    assert("skill"@.len() == 5);
    assert("bundle"@.len() == 6);
    assert("aagent"@[0] != "bundle"@[0]);
    assert("atool"@[0] != "agent"@[1]);
    assert("atool"@[0] != "skill"@[0]);
}

/// The config rewrite leaves none of the version 1 config fields behind and
/// keeps `tools` exactly when it was there.
proof fn lemma_config_members_clean(c: Seq<(Seq<char>, Json)>)
    requires
        keys_unique(c),
    ensures
        keys_unique(migrate_config_members(c)),
        !has_key(migrate_config_members(c), "llm"@),
        !has_key(migrate_config_members(c), "model_hint"@),
        !has_key(migrate_config_members(c), "tags"@),
        !has_key(migrate_config_members(c), "default_mode"@),
        has_key(migrate_config_members(c), "tools"@) == has_key(c, "tools"@),
{
    lemma_config_names_distinct();
    let c1 = rename(c, "llm"@, "model"@);
    let c2 = rename(c1, "model_hint"@, "model"@);
    let c3 = drop_member(c2, "tags"@);
    let c4 = drop_member(c3, "default_mode"@);
    // step 1
    if has_key(c, "llm"@) {
        let r = remove(c, "llm"@);
        lemma_remove_unique(c, "llm"@);
        lemma_get_remove(c, "llm"@, "tools"@);
        lemma_insert_unique(r, "model"@, get(c, "llm"@).unwrap());
        lemma_get_insert(r, "model"@, get(c, "llm"@).unwrap(), "llm"@);
        lemma_get_insert(r, "model"@, get(c, "llm"@).unwrap(), "tools"@);
    } else {
        assert(!has_key(c1, "llm"@));
    }
    // step 2
    if has_key(c1, "model_hint"@) {
        let r = remove(c1, "model_hint"@);
        lemma_remove_unique(c1, "model_hint"@);
        lemma_get_remove(c1, "model_hint"@, "llm"@);
        lemma_get_remove(c1, "model_hint"@, "tools"@);
        lemma_insert_unique(r, "model"@, get(c1, "model_hint"@).unwrap());
        lemma_get_insert(r, "model"@, get(c1, "model_hint"@).unwrap(), "llm"@);
        lemma_get_insert(r, "model"@, get(c1, "model_hint"@).unwrap(), "model_hint"@);
        lemma_get_insert(r, "model"@, get(c1, "model_hint"@).unwrap(), "tools"@);
    }
    // step 3
    if has_key(c2, "tags"@) {
        lemma_remove_unique(c2, "tags"@);
        lemma_get_remove(c2, "tags"@, "llm"@);
        lemma_get_remove(c2, "tags"@, "model_hint"@);
        lemma_get_remove(c2, "tags"@, "tools"@);
    }
    // step 4
    if has_key(c3, "default_mode"@) {
        lemma_remove_unique(c3, "default_mode"@);
        lemma_get_remove(c3, "default_mode"@, "llm"@);
        lemma_get_remove(c3, "default_mode"@, "model_hint"@);
        lemma_get_remove(c3, "default_mode"@, "tags"@);
        lemma_get_remove(c3, "default_mode"@, "tools"@);
    }
}

proof fn lemma_placeholder_unique()
    ensures
        aagent_placeholder_config() matches Json::Obj(c) && keys_unique(c),
{
    lemma_config_names_distinct();
}

/// After a migration without errors of an object whose members, and whose
/// config members, have distinct names: no version 1 kind is left (a second
/// kind conversion changes nothing), the config holds none of `llm`,
/// `model_hint`, `tags` and `default_mode`, and neither `signed_at` nor
/// `key_fingerprint` is left at the top level.
pub proof fn law_migrate_leaves_no_v1_fields(v: Json)
    requires
        v is Obj,
        keys_unique(v->Obj_0),
        config_members(v->Obj_0) matches Some(c) ==> keys_unique(c),
        migrate_spec(v).2.len() == 0,
    ensures
        migrate_spec(v).0 matches Json::Obj(o) && {
            &&& convert_kind(o, str_or_empty(get(o, "kind"@))) == o
            &&& (config_members(o) matches Some(c) ==> {
                &&& !has_key(c, "llm"@)
                &&& !has_key(c, "model_hint"@)
                &&& !has_key(c, "tags"@)
                &&& !has_key(c, "default_mode"@)
            })
            &&& !has_key(o, "signed_at"@)
            &&& !has_key(o, "key_fingerprint"@)
            &&& !stale_signature(o)
            &&& !is_removed_kind(str_or_empty(get(o, "kind"@)))
            &&& keys_unique(o)
            &&& (config_members(o) matches Some(c) ==> keys_unique(c))
        },
{
    lemma_member_names_distinct();
    lemma_config_names_distinct();
    lemma_kind_names_distinct();
    let o = v->Obj_0;
    let sv = "schema_version"@;
    let o1 = insert(o, sv, Json::Str("2"@));
    lemma_insert_unique(o, sv, Json::Str("2"@));
    lemma_get_insert(o, sv, Json::Str("2"@), "config"@);
    let k = str_or_empty(get(o1, "kind"@));
    let o2 = convert_kind(o1, k);
    let o3 = migrate_config(o2);
    let o4 = strip_signing(o3);
    // shape of o2: unique members, unique config members, and its kind
    if is_v1_bundle(o1, k) {
        let kind_v = Json::Str("aagent"@);
        let a = insert(o1, "kind"@, kind_v);
        let refs = bundle_components(a).map_values(|r: Json| ref_object(r));
        let b = insert(a, "config"@, aagent_placeholder_config());
        lemma_insert_unique(o1, "kind"@, kind_v);
        lemma_insert_unique(a, "config"@, aagent_placeholder_config());
        lemma_insert_unique(b, "components"@, Json::Arr(refs));
        lemma_get_insert(o1, "kind"@, kind_v, "kind"@);
        lemma_get_insert(a, "config"@, aagent_placeholder_config(), "kind"@);
        lemma_get_insert(b, "components"@, Json::Arr(refs), "kind"@);
        lemma_get_insert(a, "config"@, aagent_placeholder_config(), "config"@);
        lemma_get_insert(b, "components"@, Json::Arr(refs), "config"@);
        lemma_placeholder_unique();
        assert(str_or_empty(get(o2, "kind"@)) == "aagent"@);
    } else if let Some(nk) = retagged_kind(o1, k) {
        let a = insert(o1, "kind"@, Json::Str(nk));
        lemma_insert_unique(o1, "kind"@, Json::Str(nk));
        lemma_get_insert(o1, "kind"@, Json::Str(nk), "kind"@);
        lemma_get_insert(o1, "kind"@, Json::Str(nk), "config"@);
        if let Some(c) = config_members(a) {
            let c2 = insert(c, "kind"@, Json::Str(nk));
            lemma_insert_unique(c, "kind"@, Json::Str(nk));
            lemma_insert_unique(a, "config"@, Json::Obj(c2));
            lemma_get_insert(a, "config"@, Json::Obj(c2), "kind"@);
            lemma_get_insert(a, "config"@, Json::Obj(c2), "config"@);
        }
        assert(str_or_empty(get(o2, "kind"@)) == nk);
    }
    assert(keys_unique(o2));
    assert(config_members(o2) matches Some(c) ==> keys_unique(c));
    // the config step
    lemma_migrate_config_keeps(o2, "kind"@);
    if let Some(c) = config_members(o2) {
        lemma_config_members_clean(c);
        lemma_insert_unique(o2, "config"@, Json::Obj(migrate_config_members(c)));
        lemma_get_insert(o2, "config"@, Json::Obj(migrate_config_members(c)), "config"@);
    }
    assert(keys_unique(o3));
    // the signing step
    lemma_strip_signing_keeps(o3, "kind"@);
    lemma_strip_signing_keeps(o3, "config"@);
    let s1 = drop_member(o3, "signed_at"@);
    let s2 = drop_member(s1, "key_fingerprint"@);
    if has_key(o3, "signed_at"@) {
        lemma_remove_unique(o3, "signed_at"@);
    }
    assert(!has_key(s1, "signed_at"@));
    assert(keys_unique(s1));
    if has_key(s1, "key_fingerprint"@) {
        lemma_remove_unique(s1, "key_fingerprint"@);
        lemma_get_remove(s1, "key_fingerprint"@, "signed_at"@);
    }
    assert(!has_key(s2, "signed_at"@));
    assert(!has_key(s2, "key_fingerprint"@));
    assert(keys_unique(s2));
    if stale_signature(s2) {
        lemma_get_remove(s2, "signature"@, "signed_at"@);
        lemma_get_remove(s2, "signature"@, "key_fingerprint"@);
        lemma_remove_unique(s2, "signature"@);
    }
    assert(keys_unique(o4));
    assert(!stale_signature(o4));
    // the kind of the result
    let k4 = str_or_empty(get(o4, "kind"@));
    assert(get(o4, "kind"@) == get(o2, "kind"@));
    assert(config_members(o4) == config_members(o3));
    if !is_v1_bundle(o1, k) && retagged_kind(o1, k) is None {
        assert(k4 == k);
        if k == "bundle"@ {
            let c = config_members(o1).unwrap();
            lemma_config_members_clean(c);
        }
    }
    assert(!is_removed_kind(k4));
}

/// Migration is idempotent: migrating the result of a migration without
/// errors, of an object whose members and config members have distinct names,
/// gives that result back and reports no error.
pub proof fn law_migrate_idempotent(v: Json)
    requires
        v is Obj,
        keys_unique(v->Obj_0),
        config_members(v->Obj_0) matches Some(c) ==> keys_unique(c),
        migrate_spec(v).2.len() == 0,
    ensures
        migrate_spec(migrate_spec(v).0).0 == migrate_spec(v).0,
        migrate_spec(migrate_spec(v).0).2.len() == 0,
{
    law_migrate_leaves_no_v1_fields(v);
    law_migrate_sets_schema_version(v);
    let o = migrate_spec(v).0->Obj_0;
    let sv = "schema_version"@;
    lemma_insert_same(o, sv, Json::Str("2"@));
    let o1 = insert(o, sv, Json::Str("2"@));
    assert(o1 == o);
    let k = str_or_empty(get(o1, "kind"@));
    assert(!is_removed_kind(k));
    let o2 = convert_kind(o1, k);
    assert(o2 == o);
    if let Some(c) = config_members(o) {
        lemma_remove_absent(c, "llm"@);
        lemma_remove_absent(c, "model_hint"@);
        lemma_remove_absent(c, "tags"@);
        lemma_remove_absent(c, "default_mode"@);
        assert(migrate_config_members(c) == c);
        lemma_insert_same(o, "config"@, Json::Obj(c));
    }
    let o3 = migrate_config(o2);
    assert(o3 == o);
    lemma_remove_absent(o, "signed_at"@);
    lemma_remove_absent(o, "key_fingerprint"@);
    assert(strip_signing(o3) == o);
}

proof fn lemma_dependency_warnings_contain(ds: Seq<Json>, i: int)
    requires
        0 <= i < ds.len(),
        version_missing(ds[i]),
    ensures
        dependency_warnings_of(ds).contains(dependency_warning(dependency_name(ds[i]))),
    decreases ds.len(),
{
    let w = dependency_warning(dependency_name(ds[i]));
    let pre = dependency_warnings_of(ds.drop_last());
    let last = when(version_missing(ds.last()), dependency_warning(dependency_name(ds.last())));
    assert(dependency_warnings_of(ds) == pre + last);
    if i == ds.len() - 1 {
        assert(last == seq![w]);
        assert((pre + last)[pre.len() as int] == w);
    } else {
        assert(ds.drop_last()[i] == ds[i]);
        lemma_dependency_warnings_contain(ds.drop_last(), i);
        let j = choose|j: int| 0 <= j < pre.len() && pre[j] == w;
        assert((pre + last)[j] == w);
    }
}

/// Migration reports every dependency of the migrated manifest whose version
/// is absent, `null` or empty: a dependency object named `n` gives the warning
/// "dependency 'n' missing version field; add before publishing" (with `?`
/// for a dependency without a string name).
pub proof fn law_migrate_reports_versionless_dependencies(v: Json)
    requires
        migrate_spec(v).2.len() == 0,
    ensures
        migrate_spec(v).0 matches Json::Obj(o) && (get(o, "dependencies"@) matches Some(Json::Arr(ds))
            ==> forall|i: int|
            0 <= i < ds.len() && (#[trigger] ds[i]) is Obj && (get(ds[i]->Obj_0, "version"@) is None
                || get(ds[i]->Obj_0, "version"@) == Some(Json::Null) || get(ds[i]->Obj_0, "version"@)
                == Some(Json::Str(Seq::empty()))) ==> migrate_spec(v).1.contains(
                "dependency '"@ + (match get(ds[i]->Obj_0, "name"@) {
                    Some(Json::Str(n)) => n,
                    _ => "?"@,
                }) + "' missing version field; add before publishing"@,
            )),
{
    law_migrate_errors(v);
    let o = v->Obj_0;
    let o1 = insert(o, "schema_version"@, Json::Str("2"@));
    let k = str_or_empty(get(o1, "kind"@));
    let o2 = convert_kind(o1, k);
    let o3 = migrate_config(o2);
    let o4 = strip_signing(o3);
    let pre = convert_kind_warnings(o1, k) + migrate_config_step_warnings(o2) + strip_signing_warnings(
        o3,
    );
    assert(migrate_spec(v).1 == pre + dependency_warnings(o4));
    if let Some(Json::Arr(ds)) = get(o4, "dependencies"@) {
        assert forall|i: int|
            0 <= i < ds.len() && (#[trigger] ds[i]) is Obj && (get(ds[i]->Obj_0, "version"@) is None
                || get(ds[i]->Obj_0, "version"@) == Some(Json::Null) || get(ds[i]->Obj_0, "version"@)
                == Some(Json::Str(Seq::empty()))) implies migrate_spec(v).1.contains(
            "dependency '"@ + (match get(ds[i]->Obj_0, "name"@) {
                Some(Json::Str(n)) => n,
                _ => "?"@,
            }) + "' missing version field; add before publishing"@,
        ) by {
            lemma_dependency_warnings_contain(ds, i);
            let w = dependency_warning(dependency_name(ds[i]));
            let dw = dependency_warnings(o4);
            let j = choose|j: int| 0 <= j < dw.len() && dw[j] == w;
            assert((pre + dw)[pre.len() + j] == w);
        }
    }
}

} // verus!

//! A JSON value type and its mathematical model.
use vstd::prelude::*;

verus! {

/// A JSON number as read from a document.
#[derive(Debug, Clone, PartialEq)]
pub enum JsonNumber {
    /// A non-negative integer.
    UInt(u64),
    /// A negative integer.
    NegInt(i64),
    /// Any other number, kept as its decimal text.
    Float(String),
}

/// A JSON value. Objects keep their members in order.
#[derive(Debug, PartialEq)]
pub enum JsonValue {
    Null,
    Bool(bool),
    Number(JsonNumber),
    Str(String),
    Array(Vec<JsonValue>),
    Object(Vec<(String, JsonValue)>),
}

/// Model of a JSON number.
pub enum NumModel {
    UInt(u64),
    NegInt(i64),
    Float(Seq<char>),
}

/// Model of a JSON value.
pub enum Json {
    Null,
    Bool(bool),
    Num(NumModel),
    Str(Seq<char>),
    Arr(Seq<Json>),
    Obj(Seq<(Seq<char>, Json)>),
}

impl JsonNumber {
    pub open spec fn view(&self) -> NumModel {
        match self {
            JsonNumber::UInt(n) => NumModel::UInt(*n),
            JsonNumber::NegInt(n) => NumModel::NegInt(*n),
            JsonNumber::Float(s) => NumModel::Float(s@),
        }
    }
}

impl JsonValue {
    pub open spec fn view(&self) -> Json
        decreases self,
    {
        match self {
            JsonValue::Null => Json::Null,
            JsonValue::Bool(b) => Json::Bool(*b),
            JsonValue::Number(n) => Json::Num(n.view()),
            JsonValue::Str(s) => Json::Str(s@),
            JsonValue::Array(v) => Json::Arr(
                Seq::new(
                    v@.len(),
                    |i: int|
                        if 0 <= i < v@.len() {
                            proof {
                                assert(decreases_to!(v => v@));
                                assert(decreases_to!(v@ => v@[i]));
                            }
                            v@[i].view()
                        } else {
                            Json::Null
                        },
                ),
            ),
            JsonValue::Object(v) => Json::Obj(
                Seq::new(
                    v@.len(),
                    |i: int|
                        if 0 <= i < v@.len() {
                            proof {
                                assert(decreases_to!(v => v@));
                                assert(decreases_to!(v@ => v@[i]));
                            }
                            (v@[i].0@, v@[i].1.view())
                        } else {
                            (Seq::empty(), Json::Null)
                        },
                ),
            ),
        }
    }
}


/// The model of a list of object members.
pub open spec fn members_view(s: Seq<(String, JsonValue)>) -> Seq<(Seq<char>, Json)> {
    Seq::new(s.len(), |i: int| (s[i].0@, s[i].1.view()))
}

/// The model of a list of array items.
pub open spec fn items_view(s: Seq<JsonValue>) -> Seq<Json> {
    Seq::new(s.len(), |i: int| s[i].view())
}

pub proof fn lemma_object_view(v: Vec<(String, JsonValue)>)
    ensures
        JsonValue::Object(v).view() == Json::Obj(members_view(v@)),
{
    assert(members_view(v@) =~= JsonValue::Object(v).view()->Obj_0);
}

pub proof fn lemma_array_view(v: Vec<JsonValue>)
    ensures
        JsonValue::Array(v).view() == Json::Arr(items_view(v@)),
{
    assert(items_view(v@) =~= JsonValue::Array(v).view()->Arr_0);
}

/// `i` is the position of the first member named `k`.
pub open spec fn is_first_key(o: Seq<(Seq<char>, Json)>, k: Seq<char>, i: int) -> bool {
    &&& 0 <= i < o.len()
    &&& o[i].0 == k
    &&& forall|j: int| 0 <= j < i ==> #[trigger] o[j].0 != k
}

/// Position of the first member named `k`, or -1 when there is none.
#[verifier::opaque]
pub open spec fn key_pos(o: Seq<(Seq<char>, Json)>, k: Seq<char>) -> int {
    if exists|i: int| is_first_key(o, k, i) {
        choose|i: int| is_first_key(o, k, i)
    } else {
        -1
    }
}

/// The value of the first member named `k`.
pub open spec fn get(o: Seq<(Seq<char>, Json)>, k: Seq<char>) -> Option<Json> {
    let p = key_pos(o, k);
    if p >= 0 {
        Some(o[p].1)
    } else {
        None
    }
}

/// Set member `k` to `v`: the first member of that name is replaced in place,
/// or a new member is appended.
pub open spec fn insert(o: Seq<(Seq<char>, Json)>, k: Seq<char>, v: Json) -> Seq<(Seq<char>, Json)> {
    let p = key_pos(o, k);
    if p >= 0 {
        o.update(p, (k, v))
    } else {
        o.push((k, v))
    }
}

/// Drop the first member named `k`, if any.
pub open spec fn remove(o: Seq<(Seq<char>, Json)>, k: Seq<char>) -> Seq<(Seq<char>, Json)> {
    let p = key_pos(o, k);
    if p >= 0 {
        o.remove(p)
    } else {
        o
    }
}

/// Whether member `k` is present.
pub open spec fn has_key(o: Seq<(Seq<char>, Json)>, k: Seq<char>) -> bool {
    get(o, k) is Some
}

pub proof fn lemma_key_pos_found(o: Seq<(Seq<char>, Json)>, k: Seq<char>, i: int)
    requires
        is_first_key(o, k, i),
    ensures
        key_pos(o, k) == i,
{
    reveal(key_pos);
    let p = choose|i: int| is_first_key(o, k, i);
    assert(is_first_key(o, k, p));
    if p < i {
        assert(o[p].0 != k);
    } else if p > i {
        assert(o[i].0 != k);
    }
}

pub proof fn lemma_key_pos_absent(o: Seq<(Seq<char>, Json)>, k: Seq<char>)
    requires
        forall|j: int| 0 <= j < o.len() ==> #[trigger] o[j].0 != k,
    ensures
        key_pos(o, k) == -1,
{
    reveal(key_pos);
}

proof fn lemma_first_key_exists(o: Seq<(Seq<char>, Json)>, k: Seq<char>, j: int)
    requires
        0 <= j < o.len(),
        o[j].0 == k,
    ensures
        exists|m: int| is_first_key(o, k, m),
    decreases j,
{
    if forall|l: int| 0 <= l < j ==> #[trigger] o[l].0 != k {
        assert(is_first_key(o, k, j));
    } else {
        let l = choose|l: int| 0 <= l < j && #[trigger] o[l].0 == k;
        lemma_first_key_exists(o, k, l);
    }
}

pub proof fn lemma_key_pos_range(o: Seq<(Seq<char>, Json)>, k: Seq<char>)
    ensures
        -1 <= key_pos(o, k) < o.len(),
        key_pos(o, k) >= 0 ==> is_first_key(o, k, key_pos(o, k)),
        key_pos(o, k) < 0 ==> forall|j: int| 0 <= j < o.len() ==> #[trigger] o[j].0 != k,
{
    reveal(key_pos);
    if key_pos(o, k) < 0 {
        assert forall|j: int| 0 <= j < o.len() implies #[trigger] o[j].0 != k by {
            if o[j].0 == k {
                lemma_first_key_exists(o, k, j);
            }
        }
    }
}


/// Replace the value of the first member named `k` by `null`, keeping its place.
pub open spec fn take(o: Seq<(Seq<char>, Json)>, k: Seq<char>) -> Seq<(Seq<char>, Json)> {
    let p = key_pos(o, k);
    if p >= 0 {
        o.update(p, (k, Json::Null))
    } else {
        o
    }
}

pub proof fn lemma_take_then_insert(o: Seq<(Seq<char>, Json)>, k: Seq<char>, v: Json)
    requires
        has_key(o, k),
    ensures
        insert(take(o, k), k, v) == insert(o, k, v),
        key_pos(take(o, k), k) == key_pos(o, k),
{
    lemma_key_pos_range(o, k);
    let p = key_pos(o, k);
    let t = take(o, k);
    assert(is_first_key(t, k, p));
    lemma_key_pos_found(t, k, p);
    assert(t.update(p, (k, v)) =~= o.update(p, (k, v)));
}

pub proof fn lemma_take_then_restore(o: Seq<(Seq<char>, Json)>, k: Seq<char>)
    requires
        has_key(o, k),
    ensures
        insert(take(o, k), k, get(o, k).unwrap()) == o,
{
    lemma_take_then_insert(o, k, get(o, k).unwrap());
    lemma_key_pos_range(o, k);
    assert(o.update(key_pos(o, k), (k, get(o, k).unwrap())) =~= o);
}

/// No two members share a name.
pub open spec fn keys_unique(o: Seq<(Seq<char>, Json)>) -> bool {
    forall|i: int, j: int| 0 <= i < j < o.len() ==> #[trigger] o[i].0 != #[trigger] o[j].0
}

pub proof fn lemma_get_insert(o: Seq<(Seq<char>, Json)>, k: Seq<char>, v: Json, k2: Seq<char>)
    ensures
        get(insert(o, k, v), k2) == if k2 == k {
            Some(v)
        } else {
            get(o, k2)
        },
{
    lemma_key_pos_range(o, k);
    lemma_key_pos_range(o, k2);
    let n = insert(o, k, v);
    let p = key_pos(o, k);
    if k2 == k {
        if p >= 0 {
            assert(is_first_key(n, k, p));
            lemma_key_pos_found(n, k, p);
        } else {
            assert(is_first_key(n, k, o.len() as int));
            lemma_key_pos_found(n, k, o.len() as int);
        }
    } else {
        let q = key_pos(o, k2);
        if q >= 0 {
            assert(is_first_key(n, k2, q));
            lemma_key_pos_found(n, k2, q);
        } else {
            assert forall|j: int| 0 <= j < n.len() implies #[trigger] n[j].0 != k2 by {
                if j < o.len() && j != p {
                    assert(n[j] == o[j]);
                }
            }
            lemma_key_pos_absent(n, k2);
        }
    }
}

pub proof fn lemma_get_remove(o: Seq<(Seq<char>, Json)>, k: Seq<char>, k2: Seq<char>)
    requires
        k2 != k,
    ensures
        get(remove(o, k), k2) == get(o, k2),
{
    lemma_key_pos_range(o, k);
    lemma_key_pos_range(o, k2);
    let n = remove(o, k);
    let p = key_pos(o, k);
    let q = key_pos(o, k2);
    if p >= 0 {
        if q >= 0 {
            let q2 = if q < p {
                q
            } else {
                q - 1
            };
            assert(n[q2] == o[q]);
            assert forall|j: int| 0 <= j < q2 implies #[trigger] n[j].0 != k2 by {
                if j < p {
                    assert(n[j] == o[j]);
                } else {
                    assert(n[j] == o[j + 1]);
                }
            }
            assert(is_first_key(n, k2, q2));
            lemma_key_pos_found(n, k2, q2);
        } else {
            assert forall|j: int| 0 <= j < n.len() implies #[trigger] n[j].0 != k2 by {
                if j < p {
                    assert(n[j] == o[j]);
                } else {
                    assert(n[j] == o[j + 1]);
                }
            }
            lemma_key_pos_absent(n, k2);
        }
    }
}

/// Two member lists with the same names in the same places, and the same
/// values but maybe at place `q`, find a name at the same place; there the
/// value is the same unless the place is `q`.
pub proof fn lemma_same_keys_get(o1: Seq<(Seq<char>, Json)>, o2: Seq<(Seq<char>, Json)>, q: int, k: Seq<char>)
    requires
        o1.len() == o2.len(),
        forall|i: int| 0 <= i < o1.len() ==> (#[trigger] o1[i]).0 == o2[i].0,
        forall|i: int| 0 <= i < o1.len() && i != q ==> (#[trigger] o1[i]).1 == o2[i].1,
    ensures
        key_pos(o1, k) == key_pos(o2, k),
        key_pos(o1, k) != q ==> get(o1, k) == get(o2, k),
        key_pos(o1, k) == q && 0 <= q ==> get(o2, k) == Some(o2[q].1),
{
    lemma_key_pos_range(o1, k);
    lemma_key_pos_range(o2, k);
    let p1 = key_pos(o1, k);
    if p1 >= 0 {
        assert forall|j: int| 0 <= j < p1 implies #[trigger] o2[j].0 != k by {
            assert(o1[j].0 != k);
        }
        assert(o2[p1].0 == o1[p1].0);
        lemma_key_pos_found(o2, k, p1);
    } else {
        assert forall|j: int| 0 <= j < o2.len() implies #[trigger] o2[j].0 != k by {
            assert(o1[j].0 != k);
        }
        lemma_key_pos_absent(o2, k);
    }
}

/// Looking a name up in two member lists one after the other finds it in
/// the first when it is there, else in the second.
pub proof fn lemma_get_concat(a: Seq<(Seq<char>, Json)>, b: Seq<(Seq<char>, Json)>, k: Seq<char>)
    ensures
        get(a + b, k) == if get(a, k) is Some {
            get(a, k)
        } else {
            get(b, k)
        },
{
    let o = a + b;
    lemma_key_pos_range(a, k);
    lemma_key_pos_range(b, k);
    let p = key_pos(a, k);
    if p >= 0 {
        assert forall|j: int| 0 <= j < p implies #[trigger] o[j].0 != k by {
            assert(o[j] == a[j]);
        }
        assert(o[p] == a[p]);
        lemma_key_pos_found(o, k, p);
    } else {
        let q = key_pos(b, k);
        if q >= 0 {
            assert forall|j: int| 0 <= j < a.len() + q implies #[trigger] o[j].0 != k by {
                if j < a.len() {
                    assert(o[j] == a[j]);
                } else {
                    assert(o[j] == b[j - a.len()]);
                }
            }
            assert(o[a.len() + q] == b[q]);
            lemma_key_pos_found(o, k, a.len() + q);
        } else {
            assert forall|j: int| 0 <= j < o.len() implies #[trigger] o[j].0 != k by {
                if j < a.len() {
                    assert(o[j] == a[j]);
                } else {
                    assert(o[j] == b[j - a.len()]);
                }
            }
            lemma_key_pos_absent(o, k);
        }
    }
}

/// A single member is found by its own name only.
pub proof fn lemma_get_single(k2: Seq<char>, v: Json, k: Seq<char>)
    ensures
        get(seq![(k2, v)], k) == if k2 == k {
            Some(v)
        } else {
            None::<Json>
        },
{
    let o = seq![(k2, v)];
    if k2 == k {
        lemma_key_pos_found(o, k, 0);
    } else {
        lemma_key_pos_absent(o, k);
    }
}

/// Setting a member to the value it already has changes nothing.
pub proof fn lemma_insert_same(o: Seq<(Seq<char>, Json)>, k: Seq<char>, v: Json)
    requires
        get(o, k) == Some(v),
    ensures
        insert(o, k, v) == o,
{
    lemma_key_pos_range(o, k);
    let p = key_pos(o, k);
    assert(o.update(p, (k, v)) =~= o);
}

/// Dropping an absent member changes nothing.
pub proof fn lemma_remove_absent(o: Seq<(Seq<char>, Json)>, k: Seq<char>)
    requires
        !has_key(o, k),
    ensures
        remove(o, k) == o,
{
}

pub proof fn lemma_remove_unique(o: Seq<(Seq<char>, Json)>, k: Seq<char>)
    requires
        keys_unique(o),
    ensures
        !has_key(remove(o, k), k),
        keys_unique(remove(o, k)),
{
    lemma_key_pos_range(o, k);
    let n = remove(o, k);
    let p = key_pos(o, k);
    if p >= 0 {
        assert forall|j: int| 0 <= j < n.len() implies #[trigger] n[j].0 != k by {
            if j < p {
                assert(n[j] == o[j]);
            } else {
                assert(n[j] == o[j + 1]);
            }
        }
        assert forall|i: int, j: int| 0 <= i < j < n.len() implies #[trigger] n[i].0 != #[trigger] n[j].0 by {
            let oi = if i < p { i } else { i + 1 };
            let oj = if j < p { j } else { j + 1 };
            assert(n[i] == o[oi]);
            assert(n[j] == o[oj]);
        }
    }
    lemma_key_pos_range(n, k);
}

pub proof fn lemma_insert_unique(o: Seq<(Seq<char>, Json)>, k: Seq<char>, v: Json)
    requires
        keys_unique(o),
    ensures
        keys_unique(insert(o, k, v)),
{
    lemma_key_pos_range(o, k);
    let n = insert(o, k, v);
    let p = key_pos(o, k);
    assert forall|i: int, j: int| 0 <= i < j < n.len() implies #[trigger] n[i].0 != #[trigger] n[j].0 by {
        if p >= 0 {
            if i != p && j != p {
                assert(n[i] == o[i] && n[j] == o[j]);
            } else if i == p {
                assert(n[j] == o[j]);
            } else {
                assert(n[i] == o[i]);
            }
        } else {
            if j < o.len() {
                assert(n[i] == o[i] && n[j] == o[j]);
            } else {
                assert(n[i] == o[i]);
            }
        }
    }
}

/// Whether two string slices hold the same characters.
pub fn str_eq(a: &str, b: &str) -> (r: bool)
    ensures
        r == (a@ == b@),
{
    let x = String::from_str(a);
    let y = String::from_str(b);
    x == y
}

/// Position of the first member named `key`.
pub fn find_key(o: &Vec<(String, JsonValue)>, key: &str) -> (r: Option<usize>)
    ensures
        match r {
            Some(i) => key_pos(members_view(o@), key@) == i as int && i < o@.len() && o@[i as int].0@
                == key@,
            None => key_pos(members_view(o@), key@) == -1,
        },
{
    let ghost m = members_view(o@);
    let mut i: usize = 0;
    while i < o.len()
        invariant
            i <= o@.len(),
            m == members_view(o@),
            forall|j: int| 0 <= j < i ==> #[trigger] m[j].0 != key@,
        decreases o@.len() - i,
    {
        if str_eq(o[i].0.as_str(), key) {
            proof {
                assert(is_first_key(m, key@, i as int));
                lemma_key_pos_found(m, key@, i as int);
            }
            return Some(i);
        }
        i = i + 1;
    }
    proof {
        lemma_key_pos_absent(m, key@);
    }
    None
}

/// The value of the first member named `key`.
pub fn obj_get<'a>(o: &'a Vec<(String, JsonValue)>, key: &str) -> (r: Option<&'a JsonValue>)
    ensures
        match r {
            Some(v) => get(members_view(o@), key@) == Some(v.view()),
            None => get(members_view(o@), key@) is None,
        },
{
    match find_key(o, key) {
        Some(i) => Some(&o[i].1),
        None => None,
    }
}

/// Set member `key` to `val` (see [`insert`]).
pub fn obj_insert(o: &mut Vec<(String, JsonValue)>, key: &str, val: JsonValue)
    ensures
        members_view(final(o)@) == insert(members_view(old(o)@), key@, val.view()),
{
    let k = String::from_str(key);
    match find_key(o, key) {
        Some(i) => {
            o.set(i, (k, val));
            assert(members_view(o@) =~= insert(members_view(old(o)@), key@, val.view()));
        },
        None => {
            o.push((k, val));
            assert(members_view(o@) =~= insert(members_view(old(o)@), key@, val.view()));
        },
    }
}

/// Remove the first member named `key` and hand back its value.
pub fn obj_remove(o: &mut Vec<(String, JsonValue)>, key: &str) -> (r: Option<JsonValue>)
    ensures
        members_view(final(o)@) == remove(members_view(old(o)@), key@),
        match r {
            Some(v) => get(members_view(old(o)@), key@) == Some(v.view()),
            None => get(members_view(old(o)@), key@) is None,
        },
{
    match find_key(o, key) {
        Some(i) => {
            let (_, v) = o.remove(i);
            assert(members_view(o@) =~= remove(members_view(old(o)@), key@));
            Some(v)
        },
        None => None,
    }
}

/// Take the value of the first member named `key` out, leaving `null` in its place.
pub fn obj_take(o: &mut Vec<(String, JsonValue)>, key: &str) -> (r: Option<JsonValue>)
    ensures
        members_view(final(o)@) == take(members_view(old(o)@), key@),
        match r {
            Some(v) => get(members_view(old(o)@), key@) == Some(v.view()),
            None => get(members_view(old(o)@), key@) is None,
        },
{
    match find_key(o, key) {
        Some(i) => {
            let (k, v) = o.remove(i);
            o.insert(i, (k, JsonValue::Null));
            assert(members_view(o@) =~= take(members_view(old(o)@), key@));
            Some(v)
        },
        None => None,
    }
}


impl Clone for JsonValue {
    fn clone(&self) -> (r: JsonValue)
        ensures
            r.view() == self.view(),
    {
        self.deep_clone()
    }
}

impl JsonValue {
    /// The string `s`.
    pub fn string(s: &str) -> (r: JsonValue)
        ensures
            r.view() == Json::Str(s@),
    {
        JsonValue::Str(String::from_str(s))
    }

    /// The value of member `key`, when this is an object that has one.
    pub fn get(&self, key: &str) -> (r: Option<&JsonValue>)
        ensures
            match r {
                Some(v) => self.view() matches Json::Obj(m) && get(m, key@) == Some(v.view()),
                None => !(self.view() matches Json::Obj(m) && get(m, key@) is Some),
            },
    {
        match self {
            JsonValue::Object(m) => {
                proof {
                    lemma_object_view(*m);
                }
                obj_get(m, key)
            },
            _ => None,
        }
    }

    /// The text, when this is a string.
    pub fn as_str(&self) -> (r: Option<&str>)
        ensures
            match r {
                Some(s) => self.view() == Json::Str(s@),
                None => !(self.view() is Str),
            },
    {
        match self {
            JsonValue::Str(s) => Some(s.as_str()),
            _ => None,
        }
    }

    /// The items, when this is an array.
    pub fn as_array(&self) -> (r: Option<&Vec<JsonValue>>)
        ensures
            match r {
                Some(v) => self.view() == Json::Arr(items_view(v@)),
                None => !(self.view() is Arr),
            },
    {
        match self {
            JsonValue::Array(v) => {
                proof {
                    lemma_array_view(*v);
                }
                Some(v)
            },
            _ => None,
        }
    }

    /// A copy of this value.
    pub fn deep_clone(&self) -> (r: JsonValue)
        ensures
            r.view() == self.view(),
        decreases self,
    {
        match self {
            JsonValue::Null => JsonValue::Null,
            JsonValue::Bool(b) => JsonValue::Bool(*b),
            JsonValue::Number(n) => JsonValue::Number(
                match n {
                    JsonNumber::UInt(u) => JsonNumber::UInt(*u),
                    JsonNumber::NegInt(i) => JsonNumber::NegInt(*i),
                    JsonNumber::Float(s) => JsonNumber::Float(s.clone()),
                },
            ),
            JsonValue::Str(s) => JsonValue::Str(s.clone()),
            JsonValue::Array(v) => {
                let mut out: Vec<JsonValue> = Vec::new();
                let mut i: usize = 0;
                while i < v.len()
                    invariant
                        *self == JsonValue::Array(*v),
                        i <= v@.len(),
                        out@.len() == i,
                        forall|j: int| 0 <= j < i ==> #[trigger] out@[j].view() == v@[j].view(),
                    decreases v@.len() - i,
                {
                    proof {
                        assert(decreases_to!(*self => (*self)->Array_0));
                        assert(decreases_to!(*v => v@));
                        assert(decreases_to!(v@ => v@[i as int]));
                    }
                    let c = v[i].deep_clone();
                    out.push(c);
                    i = i + 1;
                }
                proof {
                    lemma_array_view(out);
                    lemma_array_view(*v);
                    assert(items_view(out@) =~= items_view(v@));
                }
                JsonValue::Array(out)
            },
            JsonValue::Object(v) => {
                let mut out: Vec<(String, JsonValue)> = Vec::new();
                let mut i: usize = 0;
                while i < v.len()
                    invariant
                        *self == JsonValue::Object(*v),
                        i <= v@.len(),
                        out@.len() == i,
                        forall|j: int|
                            0 <= j < i ==> #[trigger] out@[j].1.view() == v@[j].1.view() && out@[j].0@
                                == v@[j].0@,
                    decreases v@.len() - i,
                {
                    proof {
                        assert(decreases_to!(*self => (*self)->Object_0));
                        assert(decreases_to!(*v => v@));
                        assert(decreases_to!(v@ => v@[i as int]));
                        assert(decreases_to!(v@[i as int] => v@[i as int].1));
                    }
                    let c = v[i].1.deep_clone();
                    let k = v[i].0.clone();
                    out.push((k, c));
                    i = i + 1;
                }
                proof {
                    lemma_object_view(out);
                    lemma_object_view(*v);
                    assert(members_view(out@) =~= members_view(v@));
                }
                JsonValue::Object(out)
            },
        }
    }
}

} // verus!

//! A JSON document model: the values the workflow logic reads and builds.
//!
//! `JsonValue` is the executable tree; its view `Json` is the mathematical
//! value that contracts speak of. Objects keep their members in order, and a
//! lookup finds the first member with the key.

use vstd::prelude::*;

verus! {

/// A JSON number, as the parser classifies it: a non-negative integer, a
/// negative integer, or a double, written as a decimal literal that parses
/// back to it.
#[derive(Debug, PartialEq)]
pub enum JsonNumber {
    PosInt(u64),
    NegInt(i64),
    Float(String),
}

/// The mathematical value of a JSON number.
pub enum Num {
    PosInt(u64),
    NegInt(i64),
    Float(Seq<char>),
}

impl View for JsonNumber {
    type V = Num;

    open spec fn view(&self) -> Num {
        match self {
            JsonNumber::PosInt(u) => Num::PosInt(*u),
            JsonNumber::NegInt(i) => Num::NegInt(*i),
            JsonNumber::Float(t) => Num::Float(t@),
        }
    }
}

impl JsonNumber {
    /// A copy with the same view.
    pub fn clone_num(&self) -> (r: JsonNumber)
        ensures
            r@ == self@,
    {
        match self {
            JsonNumber::PosInt(u) => JsonNumber::PosInt(*u),
            JsonNumber::NegInt(i) => JsonNumber::NegInt(*i),
            JsonNumber::Float(t) => JsonNumber::Float(t.clone()),
        }
    }
}

/// The bit pattern of the double that `str::parse` reads from `text`.
pub uninterp spec fn parsed_double_bits(text: Seq<char>) -> u64;

/// `str::parse` into a double, as the bit pattern of the double read; text
/// that does not parse gives zero. The contract names the result; it does
/// not spell out decimal-to-binary rounding.
#[verifier::external_body]
pub(crate) fn double_bits_of_text(text: &str) -> (r: u64)
    ensures
        r == parsed_double_bits(text@),
{
    let x = text.parse().unwrap_or_default();
    // `from_f64` takes a double: the call only fixes the type `parse` reads.
    let _ = serde_json::Number::from_f64(x);
    x.to_bits()
}

/// The mathematical value of a JSON document.
pub enum Json {
    Null,
    Bool(bool),
    Number(Num),
    Str(Seq<char>),
    Arr(Seq<Json>),
    Obj(Seq<(Seq<char>, Json)>),
}

/// An executable JSON value.
#[derive(Debug, PartialEq)]
pub enum JsonValue {
    Null,
    Bool(bool),
    Number(JsonNumber),
    String(String),
    Array(Vec<JsonValue>),
    Object(Vec<(String, JsonValue)>),
}

impl JsonValue {
    pub open spec fn view(&self) -> Json
        decreases self,
    {
        match self {
            JsonValue::Null => Json::Null,
            JsonValue::Bool(b) => Json::Bool(*b),
            JsonValue::Number(n) => Json::Number(n@),
            JsonValue::String(s) => Json::Str(s@),
            JsonValue::Array(v) => Json::Arr(view_items(v@)),
            JsonValue::Object(e) => Json::Obj(view_entries(e@)),
        }
    }
}

/// The views of a sequence of values.
pub open spec fn view_items(s: Seq<JsonValue>) -> Seq<Json>
    decreases s,
{
    if s.len() == 0 {
        Seq::empty()
    } else {
        view_items(s.drop_last()).push(s.last().view())
    }
}

/// The views of a sequence of object members.
pub open spec fn view_entries(s: Seq<(String, JsonValue)>) -> Seq<(Seq<char>, Json)>
    decreases s,
{
    if s.len() == 0 {
        Seq::empty()
    } else {
        view_entries(s.drop_last()).push((s.last().0@, s.last().1.view()))
    }
}


/// `view_items` keeps the length and views each element.
pub proof fn lemma_view_items(s: Seq<JsonValue>)
    ensures
        view_items(s).len() == s.len(),
        forall|i: int| 0 <= i < s.len() ==> #[trigger] view_items(s)[i] == s[i].view(),
    decreases s.len(),
{
    if s.len() > 0 {
        lemma_view_items(s.drop_last());
    }
}

/// `view_entries` keeps the length and views each member.
pub proof fn lemma_view_entries(s: Seq<(String, JsonValue)>)
    ensures
        view_entries(s).len() == s.len(),
        forall|i: int|
            0 <= i < s.len() ==> #[trigger] view_entries(s)[i] == (s[i].0@, s[i].1.view()),
    decreases s.len(),
{
    if s.len() > 0 {
        lemma_view_entries(s.drop_last());
    }
}

/// The object members have a member named `k`.
pub open spec fn has_key(e: Seq<(Seq<char>, Json)>, k: Seq<char>) -> bool {
    exists|i: int| 0 <= i < e.len() && e[i].0 == k
}

/// `i` is the index of the first member named `k`.
pub open spec fn is_first_key(e: Seq<(Seq<char>, Json)>, k: Seq<char>, i: int) -> bool {
    0 <= i < e.len() && e[i].0 == k && forall|j: int| 0 <= j < i ==> e[j].0 != k
}

/// Index of the first member named `k` (meaningful when `has_key`).
pub open spec fn key_index(e: Seq<(Seq<char>, Json)>, k: Seq<char>) -> int {
    choose|i: int| is_first_key(e, k, i)
}

/// The value of member `k` (`Map::get`).
pub open spec fn get(e: Seq<(Seq<char>, Json)>, k: Seq<char>) -> Option<Json> {
    if has_key(e, k) {
        Some(e[key_index(e, k)].1)
    } else {
        None
    }
}

/// `Map::insert`: the member `k` is replaced in place, or appended.
pub open spec fn insert(e: Seq<(Seq<char>, Json)>, k: Seq<char>, v: Json) -> Seq<(Seq<char>, Json)> {
    if has_key(e, k) {
        e.update(key_index(e, k), (k, v))
    } else {
        e.push((k, v))
    }
}

/// `Map::remove`: every member named `k` is dropped.
pub open spec fn remove(e: Seq<(Seq<char>, Json)>, k: Seq<char>) -> Seq<(Seq<char>, Json)>
    decreases e.len(),
{
    if e.len() == 0 {
        e
    } else if e.last().0 == k {
        remove(e.drop_last(), k)
    } else {
        remove(e.drop_last(), k).push(e.last())
    }
}

/// The value of object member `k` of `j`, if `j` is an object.
pub open spec fn member(j: Json, k: Seq<char>) -> Option<Json> {
    match j {
        Json::Obj(e) => get(e, k),
        _ => None,
    }
}

/// The string of `j`, if `j` is a string (`Value::as_str`).
pub open spec fn as_str(j: Json) -> Option<Seq<char>> {
    match j {
        Json::Str(s) => Some(s),
        _ => None,
    }
}

/// `Value::as_i64`.
pub open spec fn as_i64(j: Json) -> Option<i64> {
    match j {
        Json::Number(Num::PosInt(u)) => if u <= i64::MAX {
            Some(u as i64)
        } else {
            None
        },
        Json::Number(Num::NegInt(i)) => Some(i),
        _ => None,
    }
}

/// `Value::as_bool`.
pub open spec fn as_bool(j: Json) -> Option<bool> {
    match j {
        Json::Bool(b) => Some(b),
        _ => None,
    }
}

/// The view of an optional borrowed value.
pub open spec fn opt_view(o: Option<&JsonValue>) -> Option<Json> {
    match o {
        Some(v) => Some(v.view()),
        None => None,
    }
}

proof fn lemma_first_key_unique(e: Seq<(Seq<char>, Json)>, k: Seq<char>, i: int)
    requires
        is_first_key(e, k, i),
    ensures
        has_key(e, k),
        key_index(e, k) == i,
{
    let j = key_index(e, k);
    assert(is_first_key(e, k, j));
    if j < i {
        assert(e[j].0 != k);
    } else if j > i {
        assert(e[i].0 != k);
    }
}

/// After `insert`, the member has the inserted value.
/// Two member lists with the same keys in the same places find a key at the
/// same place.
pub proof fn lemma_same_keys(e: Seq<(Seq<char>, Json)>, f: Seq<(Seq<char>, Json)>, k: Seq<char>)
    requires
        e.len() == f.len(),
        forall|j: int| 0 <= j < e.len() ==> (#[trigger] e[j]).0 == f[j].0,
    ensures
        has_key(f, k) == has_key(e, k),
        has_key(e, k) ==> key_index(f, k) == key_index(e, k) && 0 <= key_index(e, k) < e.len(),
{
    if has_key(e, k) {
        let w = choose|w: int| 0 <= w < e.len() && e[w].0 == k;
        lemma_first_key_exists(e, k, w);
        let i = key_index(e, k);
        assert(f[w].0 == k);
        assert(e[i].0 == f[i].0);
        assert forall|j: int| 0 <= j < i implies f[j].0 != k by {
            assert(e[j].0 == f[j].0);
        }
        assert(is_first_key(f, k, i));
        lemma_first_key_unique(f, k, i);
    }
    if has_key(f, k) {
        let w = choose|w: int| 0 <= w < f.len() && f[w].0 == k;
        assert(e[w].0 == k);
    }
}

pub proof fn lemma_get_insert_same(e: Seq<(Seq<char>, Json)>, k: Seq<char>, v: Json)
    ensures
        get(insert(e, k, v), k) == Some(v),
        has_key(insert(e, k, v), k),
{
    let n = insert(e, k, v);
    if has_key(e, k) {
        let w = choose|w: int| 0 <= w < e.len() && e[w].0 == k;
        lemma_first_key_exists(e, k, w);
        let i = key_index(e, k);
        assert(is_first_key(n, k, i));
        lemma_first_key_unique(n, k, i);
    } else {
        assert(is_first_key(n, k, e.len() as int));
        lemma_first_key_unique(n, k, e.len() as int);
    }
}

/// `insert` leaves the other members as they are.
pub proof fn lemma_get_insert_other(e: Seq<(Seq<char>, Json)>, k: Seq<char>, v: Json, k2: Seq<char>)
    requires
        k2 != k,
    ensures
        get(insert(e, k, v), k2) == get(e, k2),
        has_key(insert(e, k, v), k2) == has_key(e, k2),
{
    let n = insert(e, k, v);
    if has_key(e, k) {
        let w = choose|w: int| 0 <= w < e.len() && e[w].0 == k;
        lemma_first_key_exists(e, k, w);
        let i = key_index(e, k);
        assert forall|j: int| 0 <= j < n.len() implies (#[trigger] n[j]).0 == e[j].0 by {
            if j == i {
            }
        }
    }
    if has_key(e, k2) {
        let w = choose|w: int| 0 <= w < e.len() && e[w].0 == k2;
        lemma_first_key_exists(e, k2, w);
        let j = key_index(e, k2);
        assert(is_first_key(n, k2, j));
        lemma_first_key_unique(n, k2, j);
    }
    if has_key(n, k2) {
        let w = choose|w: int| 0 <= w < n.len() && n[w].0 == k2;
        assert(e[w].0 == k2);
    }
}

/// Inserting the value a member already has changes nothing.
pub proof fn lemma_insert_present(e: Seq<(Seq<char>, Json)>, k: Seq<char>, v: Json)
    requires
        get(e, k) == Some(v),
    ensures
        insert(e, k, v) == e,
{
    let w = choose|w: int| 0 <= w < e.len() && e[w].0 == k;
    lemma_first_key_exists(e, k, w);
    let i = key_index(e, k);
    assert(e[i] == (k, v));
    assert(insert(e, k, v) =~= e);
}

/// A member named `k` makes a first one.
proof fn lemma_first_key_exists(e: Seq<(Seq<char>, Json)>, k: Seq<char>, w: int)
    requires
        0 <= w < e.len(),
        e[w].0 == k,
    ensures
        is_first_key(e, k, key_index(e, k)),
    decreases w,
{
    if forall|j: int| 0 <= j < w ==> e[j].0 != k {
        assert(is_first_key(e, k, w));
    } else {
        let j = choose|j: int| 0 <= j < w && e[j].0 == k;
        lemma_first_key_exists(e, k, j);
    }
}

/// Index of the first member named `k`, if any.
pub fn obj_index(e: &Vec<(String, JsonValue)>, k: &str) -> (r: Option<usize>)
    ensures
        r is None <==> !has_key(view_entries(e@), k@),
        r matches Some(i) ==> i < e@.len() && i == key_index(view_entries(e@), k@) && e@[i as int].0@ == k@,
{
    let ks = String::from_str(k);
    let ghost ev = view_entries(e@);
    proof {
        lemma_view_entries(e@);
    }
    let mut i: usize = 0;
    while i < e.len()
        invariant
            ev == view_entries(e@),
            ks@ == k@,
            i <= e@.len(),
            forall|j: int| 0 <= j < i ==> ev[j].0 != k@,
            forall|j: int| 0 <= j < e@.len() ==> #[trigger] ev[j] == (e@[j].0@, e@[j].1.view()),
            ev.len() == e@.len(),
        decreases e@.len() - i,
    {
        assert(ev[i as int] == (e@[i as int].0@, e@[i as int].1.view()));
        if e[i].0 == ks {
            proof {
                lemma_first_key_unique(ev, k@, i as int);
            }
            return Some(i);
        }
        i = i + 1;
    }
    None
}

/// `Map::get`.
pub fn obj_get<'a>(e: &'a Vec<(String, JsonValue)>, k: &str) -> (r: Option<&'a JsonValue>)
    ensures
        opt_view(r) == get(view_entries(e@), k@),
{
    proof {
        lemma_view_entries(e@);
    }
    match obj_index(e, k) {
        Some(i) => Some(&e[i].1),
        None => None,
    }
}

/// `Map::contains_key`.
pub fn obj_contains_key(e: &Vec<(String, JsonValue)>, k: &str) -> (r: bool)
    ensures
        r == has_key(view_entries(e@), k@),
{
    obj_index(e, k).is_some()
}

/// `Map::insert`.
pub fn obj_insert(e: &mut Vec<(String, JsonValue)>, k: String, v: JsonValue)
    ensures
        view_entries(final(e)@) == insert(view_entries(old(e)@), k@, v@),
{
    let ghost ov = view_entries(e@);
    proof {
        lemma_view_entries(e@);
    }
    match obj_index(e, k.as_str()) {
        Some(i) => {
            let ghost kv = k@;
            let ghost vv = v@;
            e.set(i, (k, v));
            proof {
                lemma_view_entries(e@);
            }
            assert(view_entries(e@) =~= ov.update(i as int, (kv, vv)));
        },
        None => {
            let ghost kv = k@;
            let ghost vv = v@;
            e.push((k, v));
            proof {
                lemma_view_entries(e@);
            }
            assert(view_entries(e@) =~= ov.push((kv, vv)));
        },
    }
}

/// `Map::remove`.
pub fn obj_remove(e: &mut Vec<(String, JsonValue)>, k: &str)
    ensures
        view_entries(final(e)@) == remove(view_entries(old(e)@), k@),
{
    let ks = String::from_str(k);
    let mut rest: Vec<(String, JsonValue)> = Vec::new();
    std::mem::swap(e, &mut rest);
    let ghost orig = rest@;
    let ghost n = orig.len();
    let total = rest.len();
    let mut i: usize = 0;
    while rest.len() > 0
        invariant
            ks@ == k@,
            i <= n,
            n == orig.len(),
            total == n,
            rest@ == orig.subrange(i as int, n as int),
            view_entries(e@) == remove(view_entries(orig.subrange(0, i as int)), k@),
        decreases rest@.len(),
    {
        let x = rest.remove(0);
        proof {
            let p = orig.subrange(0, i + 1);
            assert(p.drop_last() =~= orig.subrange(0, i as int));
            assert(view_entries(p).drop_last() =~= view_entries(orig.subrange(0, i as int)));
        }
        proof {
            let p = orig.subrange(0, i + 1);
            lemma_view_entries(p);
            assert(view_entries(p).last() == (x.0@, x.1.view()));
        }
        let ghost ex = (x.0@, x.1.view());
        if x.0 != ks {
            let ghost old_e = e@;
            e.push(x);
            proof {
                assert(e@.drop_last() =~= old_e);
                assert(view_entries(e@) == view_entries(old_e).push(ex));
            }
        }
        i = i + 1;
        assert(rest@ =~= orig.subrange(i as int, n as int));
    }
    assert(orig.subrange(0, n as int) =~= orig);
}

impl JsonValue {
    /// A deep copy with the same view.
    #[verifier::loop_isolation(false)]
    pub fn deep_clone(&self) -> (r: JsonValue)
        ensures
            r@ == self@,
        decreases self,
    {
        match self {
            JsonValue::Null => JsonValue::Null,
            JsonValue::Bool(b) => JsonValue::Bool(*b),
            JsonValue::Number(n) => JsonValue::Number(n.clone_num()),
            JsonValue::String(s) => JsonValue::String(s.clone()),
            JsonValue::Array(v) => {
                let mut out: Vec<JsonValue> = Vec::new();
                let mut i: usize = 0;
                while i < v.len()
                    invariant
                        i <= v@.len(),
                        view_items(out@) == view_items(v@.subrange(0, i as int)),
                    decreases v@.len() - i,
                {
                    proof {
                        assert(decreases_to!(*v => v[i as int]));
                    }
                    let c = v[i].deep_clone();
                    let ghost old_out = out@;
                    out.push(c);
                    proof {
                        assert(out@.drop_last() =~= old_out);
                        assert(v@.subrange(0, i + 1).drop_last() =~= v@.subrange(0, i as int));
                    }
                    i = i + 1;
                }
                assert(v@.subrange(0, v@.len() as int) =~= v@);
                JsonValue::Array(out)
            },
            JsonValue::Object(e) => {
                let mut out: Vec<(String, JsonValue)> = Vec::new();
                let mut i: usize = 0;
                while i < e.len()
                    invariant
                        i <= e@.len(),
                        view_entries(out@) == view_entries(e@.subrange(0, i as int)),
                    decreases e@.len() - i,
                {
                    proof {
                        assert(decreases_to!(*e => e[i as int]));
                    }
                    let c = e[i].1.deep_clone();
                    let key = e[i].0.clone();
                    let ghost old_out = out@;
                    out.push((key, c));
                    proof {
                        assert(out@.drop_last() =~= old_out);
                        assert(e@.subrange(0, i + 1).drop_last() =~= e@.subrange(0, i as int));
                    }
                    i = i + 1;
                }
                assert(e@.subrange(0, e@.len() as int) =~= e@);
                JsonValue::Object(out)
            },
        }
    }
}

} // verus!

verus! {

/// A deep copy of a sequence of values.
pub fn clone_items(v: &Vec<JsonValue>) -> (r: Vec<JsonValue>)
    ensures
        view_items(r@) == view_items(v@),
{
    let mut out: Vec<JsonValue> = Vec::new();
    let mut i: usize = 0;
    while i < v.len()
        invariant
            i <= v@.len(),
            view_items(out@) == view_items(v@.subrange(0, i as int)),
        decreases v@.len() - i,
    {
        let c = v[i].deep_clone();
        let ghost old_out = out@;
        out.push(c);
        proof {
            assert(out@.drop_last() =~= old_out);
            assert(v@.subrange(0, i + 1).drop_last() =~= v@.subrange(0, i as int));
        }
        i = i + 1;
    }
    assert(v@.subrange(0, v@.len() as int) =~= v@);
    out
}

/// A deep copy of a sequence of object members.
pub fn clone_entries(e: &Vec<(String, JsonValue)>) -> (r: Vec<(String, JsonValue)>)
    ensures
        view_entries(r@) == view_entries(e@),
{
    let mut out: Vec<(String, JsonValue)> = Vec::new();
    let mut i: usize = 0;
    while i < e.len()
        invariant
            i <= e@.len(),
            view_entries(out@) == view_entries(e@.subrange(0, i as int)),
        decreases e@.len() - i,
    {
        let c = e[i].1.deep_clone();
        let key = e[i].0.clone();
        let ghost old_out = out@;
        out.push((key, c));
        proof {
            assert(out@.drop_last() =~= old_out);
            assert(e@.subrange(0, i + 1).drop_last() =~= e@.subrange(0, i as int));
        }
        i = i + 1;
    }
    assert(e@.subrange(0, e@.len() as int) =~= e@);
    out
}

} // verus!

verus! {

/// The double of bit pattern `b` is a NaN.
pub open spec fn is_nan_bits(b: u64) -> bool {
    (b >> 52) & 0x7ff == 0x7ff && b & 0xf_ffff_ffff_ffff != 0
}

/// The double of bit pattern `b` is a zero of either sign.
pub open spec fn is_zero_bits(b: u64) -> bool {
    b & 0x7fff_ffff_ffff_ffff == 0
}

/// `f64 ==` on bit patterns: NaN equals nothing, and the two zeros are equal.
pub open spec fn f64_eq_bits(a: u64, b: u64) -> bool {
    !is_nan_bits(a) && !is_nan_bits(b) && (a == b || (is_zero_bits(a) && is_zero_bits(b)))
}

/// `serde_json::Number ==`.
pub open spec fn number_eq(a: Num, b: Num) -> bool {
    match (a, b) {
        (Num::PosInt(x), Num::PosInt(y)) => x == y,
        (Num::NegInt(x), Num::NegInt(y)) => x == y,
        (Num::Float(x), Num::Float(y)) => f64_eq_bits(parsed_double_bits(x), parsed_double_bits(y)),
        _ => false,
    }
}

/// `serde_json::Value ==`: arrays element by element, objects member by member
/// regardless of order.
pub open spec fn json_eq(a: Json, b: Json) -> bool
    decreases a,
{
    match a {
        Json::Null => b is Null,
        Json::Bool(x) => b == Json::Bool(x),
        Json::Number(x) => match b {
            Json::Number(y) => number_eq(x, y),
            _ => false,
        },
        Json::Str(x) => b == Json::Str(x),
        Json::Arr(x) => match b {
            Json::Arr(y) => x.len() == y.len() && items_eq(x, y),
            _ => false,
        },
        Json::Obj(x) => match b {
            Json::Obj(y) => x.len() == y.len() && members_in(x, y),
            _ => false,
        },
    }
}

/// Each item of `x` equals the item of `y` at its index.
pub open spec fn items_eq(x: Seq<Json>, y: Seq<Json>) -> bool
    decreases x,
{
    if x.len() == 0 {
        true
    } else {
        items_eq(x.drop_last(), y) && x.len() <= y.len() && json_eq(x.last(), y[x.len() - 1])
    }
}

/// Each member of `x` is a member of `y` with an equal value.
pub open spec fn members_in(x: Seq<(Seq<char>, Json)>, y: Seq<(Seq<char>, Json)>) -> bool
    decreases x,
{
    if x.len() == 0 {
        true
    } else {
        members_in(x.drop_last(), y) && match get(y, x.last().0) {
            Some(w) => json_eq(x.last().1, w),
            None => false,
        }
    }
}

/// Equality of items holds of every prefix.
proof fn lemma_items_eq_prefix(x: Seq<Json>, y: Seq<Json>, j: int)
    requires
        items_eq(x, y),
        0 <= j <= x.len(),
    ensures
        items_eq(x.subrange(0, j), y),
    decreases x.len(),
{
    if j < x.len() {
        lemma_items_eq_prefix(x.drop_last(), y, j);
        assert(x.drop_last().subrange(0, j) =~= x.subrange(0, j));
    } else {
        assert(x.subrange(0, j) =~= x);
    }
}

/// Inclusion of members holds of every prefix.
proof fn lemma_members_in_prefix(x: Seq<(Seq<char>, Json)>, y: Seq<(Seq<char>, Json)>, j: int)
    requires
        members_in(x, y),
        0 <= j <= x.len(),
    ensures
        members_in(x.subrange(0, j), y),
    decreases x.len(),
{
    if j < x.len() {
        lemma_members_in_prefix(x.drop_last(), y, j);
        assert(x.drop_last().subrange(0, j) =~= x.subrange(0, j));
    } else {
        assert(x.subrange(0, j) =~= x);
    }
}

/// `f64 ==` on bit patterns, computed.
pub fn f64_eq_bits_exec(a: u64, b: u64) -> (r: bool)
    ensures
        r == f64_eq_bits(a, b),
{
    let a_nan = (a >> 52u64) & 0x7ff == 0x7ff && a & 0xf_ffff_ffff_ffff != 0;
    let b_nan = (b >> 52u64) & 0x7ff == 0x7ff && b & 0xf_ffff_ffff_ffff != 0;
    !a_nan && !b_nan && (a == b || (a & 0x7fff_ffff_ffff_ffff == 0 && b & 0x7fff_ffff_ffff_ffff
        == 0))
}

/// `serde_json::Number ==`, computed.
pub fn number_eq_exec(a: &JsonNumber, b: &JsonNumber) -> (r: bool)
    ensures
        r == number_eq(a@, b@),
{
    match (a, b) {
        (JsonNumber::PosInt(x), JsonNumber::PosInt(y)) => *x == *y,
        (JsonNumber::NegInt(x), JsonNumber::NegInt(y)) => *x == *y,
        (JsonNumber::Float(x), JsonNumber::Float(y)) => f64_eq_bits_exec(
            double_bits_of_text(x.as_str()),
            double_bits_of_text(y.as_str()),
        ),
        _ => false,
    }
}

/// Whether two strings are equal.
pub fn string_eq(a: &String, b: &String) -> (r: bool)
    ensures
        r == (a@ == b@),
{
    *a == *b
}

impl JsonValue {
    /// `serde_json::Value ==`.
    #[verifier::loop_isolation(false)]
    pub fn json_eq(&self, other: &JsonValue) -> (r: bool)
        ensures
            r == json_eq(self@, other@),
        decreases self,
    {
        match (self, other) {
            (JsonValue::Null, JsonValue::Null) => true,
            (JsonValue::Bool(x), JsonValue::Bool(y)) => *x == *y,
            (JsonValue::Number(x), JsonValue::Number(y)) => number_eq_exec(x, y),
            (JsonValue::String(x), JsonValue::String(y)) => string_eq(x, y),
            (JsonValue::Array(x), JsonValue::Array(y)) => {
                proof {
                    lemma_view_items(x@);
                    lemma_view_items(y@);
                }
                let ghost xs = view_items(x@);
                let ghost ys = view_items(y@);
                if x.len() != y.len() {
                    return false;
                }
                let mut i: usize = 0;
                while i < x.len()
                    invariant
                        i <= x@.len(),
                        x@.len() == y@.len(),
                        items_eq(xs.subrange(0, i as int), ys),
                    decreases x@.len() - i,
                {
                    proof {
                        assert(decreases_to!(*x => x[i as int]));
                        let p = xs.subrange(0, i + 1);
                        assert(p.drop_last() =~= xs.subrange(0, i as int));
                    }
                    if !x[i].json_eq(&y[i]) {
                        proof {
                            if items_eq(xs, ys) {
                                lemma_items_eq_prefix(xs, ys, i + 1);
                            }
                        }
                        return false;
                    }
                    i = i + 1;
                }
                assert(xs.subrange(0, x@.len() as int) =~= xs);
                true
            },
            (JsonValue::Object(x), JsonValue::Object(y)) => {
                proof {
                    lemma_view_entries(x@);
                    lemma_view_entries(y@);
                }
                let ghost xs = view_entries(x@);
                let ghost ys = view_entries(y@);
                if x.len() != y.len() {
                    return false;
                }
                let mut i: usize = 0;
                while i < x.len()
                    invariant
                        i <= x@.len(),
                        x@.len() == y@.len(),
                        members_in(xs.subrange(0, i as int), ys),
                    decreases x@.len() - i,
                {
                    proof {
                        assert(decreases_to!(*x => x[i as int]));
                        let p = xs.subrange(0, i + 1);
                        assert(p.drop_last() =~= xs.subrange(0, i as int));
                    }
                    match obj_get(y, x[i].0.as_str()) {
                        Some(w) => {
                            if !x[i].1.json_eq(w) {
                                proof {
                                    if members_in(xs, ys) {
                                        lemma_members_in_prefix(xs, ys, i + 1);
                                    }
                                }
                                return false;
                            }
                        },
                        None => {
                            proof {
                                if members_in(xs, ys) {
                                    lemma_members_in_prefix(xs, ys, i + 1);
                                }
                            }
                            return false;
                        },
                    }
                    i = i + 1;
                }
                assert(xs.subrange(0, x@.len() as int) =~= xs);
                true
            },
            _ => false,
        }
    }
}

} // verus!

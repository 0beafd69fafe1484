//! The JSON document model the library works on.

use vstd::prelude::*;

use crate::text::{seq_lt, str_lt};

verus! {

/// A JSON number, kept in the three shapes a JSON decoder distinguishes.
#[derive(Debug)]
pub enum JsonNumber {
    /// A non-negative integer.
    PosInt(u64),
    /// A negative integer.
    NegInt(i64),
    /// Any other number, held as its decimal text.
    Float(String),
}

/// A JSON value.
#[derive(Debug)]
pub enum JsonValue {
    Null,
    Bool(bool),
    Number(JsonNumber),
    String(String),
    Array(Vec<JsonValue>),
    Object(JsonMap),
}

/// A JSON object: entries kept in ascending key order, each key once.
#[derive(Debug)]
pub struct JsonMap {
    entries: Vec<(String, JsonValue)>,
}

/// The mathematical model of a JSON number.
pub ghost enum Num {
    PosInt(u64),
    NegInt(i64),
    Float(Seq<char>),
}

/// The mathematical model of a JSON value. Objects are their entry lists.
pub ghost enum Json {
    Null,
    Bool(bool),
    Number(Num),
    Str(Seq<char>),
    Array(Seq<Json>),
    Object(Seq<(Seq<char>, Json)>),
}

pub open spec fn num_view(n: JsonNumber) -> Num {
    match n {
        JsonNumber::PosInt(u) => Num::PosInt(u),
        JsonNumber::NegInt(i) => Num::NegInt(i),
        JsonNumber::Float(s) => Num::Float(s@),
    }
}

pub open spec fn json_view(v: JsonValue) -> Json
    decreases v,
{
    match v {
        JsonValue::Null => Json::Null,
        JsonValue::Bool(b) => Json::Bool(b),
        JsonValue::Number(n) => Json::Number(num_view(n)),
        JsonValue::String(s) => Json::Str(s@),
        JsonValue::Array(a) => Json::Array(json_view_seq(a@)),
        JsonValue::Object(m) => Json::Object(m.model()),
    }
}

pub open spec fn json_view_seq(s: Seq<JsonValue>) -> Seq<Json>
    decreases s,
{
    if s.len() == 0 {
        Seq::empty()
    } else {
        seq![json_view(s[0])] + json_view_seq(s.drop_first())
    }
}

pub open spec fn entries_view(s: Seq<(String, JsonValue)>) -> Seq<(Seq<char>, Json)>
    decreases s,
{
    if s.len() == 0 {
        Seq::empty()
    } else {
        seq![(s[0].0@, json_view(s[0].1))] + entries_view(s.drop_first())
    }
}

/// Keys strictly ascending, hence distinct.
pub open spec fn keys_sorted(es: Seq<(Seq<char>, Json)>) -> bool {
    forall|i: int, j: int| 0 <= i < j < es.len() ==> seq_lt(#[trigger] es[i].0, #[trigger] es[j].0)
}

impl JsonMap {
    #[verifier::type_invariant]
    closed spec fn sorted(self) -> bool {
        keys_sorted(entries_view(self.entries@))
    }

    /// The entries of the object, in order.
    pub closed spec fn model(self) -> Seq<(Seq<char>, Json)>
        decreases self,
    {
        entries_view(self.entries@)
    }
}

impl View for JsonNumber {
    type V = Num;

    open spec fn view(&self) -> Num {
        num_view(*self)
    }
}

impl View for JsonValue {
    type V = Json;

    open spec fn view(&self) -> Json {
        json_view(*self)
    }
}

impl View for JsonMap {
    type V = Seq<(Seq<char>, Json)>;

    open spec fn view(&self) -> Seq<(Seq<char>, Json)> {
        self.model()
    }
}

/// The value of the first entry under key `k`.
pub open spec fn obj_get(es: Seq<(Seq<char>, Json)>, k: Seq<char>) -> Option<Json>
    decreases es.len(),
{
    if es.len() == 0 {
        None
    } else if es[0].0 == k {
        Some(es[0].1)
    } else {
        obj_get(es.drop_first(), k)
    }
}

/// Whether some entry has key `k`.
pub open spec fn obj_has(es: Seq<(Seq<char>, Json)>, k: Seq<char>) -> bool {
    obj_get(es, k) is Some
}

/// The entries with `k` set to `v`: an existing entry is replaced in place,
/// otherwise the pair goes before the first greater key (keys stay sorted).
pub open spec fn obj_insert(es: Seq<(Seq<char>, Json)>, k: Seq<char>, v: Json) -> Seq<
    (Seq<char>, Json),
>
    decreases es.len(),
{
    if es.len() == 0 {
        seq![(k, v)]
    } else if es[0].0 == k {
        seq![(k, v)] + es.drop_first()
    } else if seq_lt(k, es[0].0) {
        seq![(k, v)] + es
    } else {
        seq![es[0]] + obj_insert(es.drop_first(), k, v)
    }
}

/// The entries without the first one under key `k`.
pub open spec fn obj_remove(es: Seq<(Seq<char>, Json)>, k: Seq<char>) -> Seq<(Seq<char>, Json)>
    decreases es.len(),
{
    if es.len() == 0 {
        es
    } else if es[0].0 == k {
        es.drop_first()
    } else {
        seq![es[0]] + obj_remove(es.drop_first(), k)
    }
}

/// The string member `k`, if present and a string.
pub open spec fn obj_get_str(es: Seq<(Seq<char>, Json)>, k: Seq<char>) -> Option<Seq<char>> {
    match obj_get(es, k) {
        Some(Json::Str(s)) => Some(s),
        _ => None,
    }
}

/// The object member `k`, if present and an object.
pub open spec fn obj_get_obj(es: Seq<(Seq<char>, Json)>, k: Seq<char>) -> Option<Seq<(Seq<char>, Json)>> {
    match obj_get(es, k) {
        Some(Json::Object(m)) => Some(m),
        _ => None,
    }
}

/// The keys of the entries, in order.
pub open spec fn obj_keys(es: Seq<(Seq<char>, Json)>) -> Seq<Seq<char>> {
    es.map_values(|e: (Seq<char>, Json)| e.0)
}

/// The object built by inserting `pairs`, first to last, into `es`.
pub open spec fn obj_insert_all(es: Seq<(Seq<char>, Json)>, pairs: Seq<(Seq<char>, Json)>) -> Seq<
    (Seq<char>, Json),
>
    decreases pairs.len(),
{
    if pairs.len() == 0 {
        es
    } else {
        obj_insert(obj_insert_all(es, pairs.drop_last()), pairs.last().0, pairs.last().1)
    }
}

/// The object holding `pairs`, later pairs overriding earlier ones.
pub open spec fn obj_from(pairs: Seq<(Seq<char>, Json)>) -> Seq<(Seq<char>, Json)> {
    obj_insert_all(Seq::empty(), pairs)
}

/// One pair when the value is present, none otherwise.
pub open spec fn opt_pair(k: Seq<char>, v: Option<Json>) -> Seq<(Seq<char>, Json)> {
    match v {
        Some(x) => seq![(k, x)],
        None => Seq::empty(),
    }
}

/// Inserting one more pair.
pub proof fn lemma_insert_all_push(es: Seq<(Seq<char>, Json)>, pairs: Seq<(Seq<char>, Json)>, p: (Seq<char>, Json))
    ensures
        obj_insert_all(es, pairs.push(p)) == obj_insert(obj_insert_all(es, pairs), p.0, p.1),
{
    assert(pairs.push(p).drop_last() =~= pairs);
}

/// Inserting the pairs of `a` then those of `b`.
pub proof fn lemma_insert_all_concat(es: Seq<(Seq<char>, Json)>, a: Seq<(Seq<char>, Json)>, b: Seq<(Seq<char>, Json)>)
    ensures
        obj_insert_all(es, a + b) == obj_insert_all(obj_insert_all(es, a), b),
    decreases b.len(),
{
    if b.len() == 0 {
        assert(a + b =~= a);
    } else {
        lemma_insert_all_concat(es, a, b.drop_last());
        assert((a + b).drop_last() =~= a + b.drop_last());
        assert((a + b).last() == b.last());
    }
}

impl Json {
    /// The member `k` of an object; `None` for other values.
    pub open spec fn get(self, k: Seq<char>) -> Option<Json> {
        match self {
            Json::Object(es) => obj_get(es, k),
            _ => None,
        }
    }

    pub open spec fn as_str(self) -> Option<Seq<char>> {
        match self {
            Json::Str(s) => Some(s),
            _ => None,
        }
    }

    pub open spec fn as_object(self) -> Option<Seq<(Seq<char>, Json)>> {
        match self {
            Json::Object(es) => Some(es),
            _ => None,
        }
    }

    pub open spec fn as_array(self) -> Option<Seq<Json>> {
        match self {
            Json::Array(a) => Some(a),
            _ => None,
        }
    }

    /// The entries of an object, or no entries for any other value.
    pub open spec fn entries_or_empty(self) -> Seq<(Seq<char>, Json)> {
        match self {
            Json::Object(es) => es,
            _ => Seq::empty(),
        }
    }

    /// The string member `k` of an object, if it is there and is a string.
    pub open spec fn get_str(self, k: Seq<char>) -> Option<Seq<char>> {
        match self.get(k) {
            Some(v) => v.as_str(),
            None => None,
        }
    }

    /// The object member `k` of an object, if it is there and is an object.
    pub open spec fn get_object(self, k: Seq<char>) -> Option<Seq<(Seq<char>, Json)>> {
        match self.get(k) {
            Some(v) => v.as_object(),
            None => None,
        }
    }
}

/// Entry-wise view of a sequence of values.
pub proof fn lemma_view_seq(s: Seq<JsonValue>)
    ensures
        json_view_seq(s).len() == s.len(),
        forall|i: int| 0 <= i < s.len() ==> #[trigger] json_view_seq(s)[i] == json_view(s[i]),
    decreases s.len(),
{
    if s.len() > 0 {
        lemma_view_seq(s.drop_first());
        assert forall|i: int| 0 <= i < s.len() implies #[trigger] json_view_seq(s)[i] == json_view(
            s[i],
        ) by {
            if i > 0 {
                assert(s.drop_first()[i - 1] == s[i]);
            }
        }
    }
}

/// Entry-wise view of a sequence of entries.
pub proof fn lemma_entries_view(s: Seq<(String, JsonValue)>)
    ensures
        entries_view(s).len() == s.len(),
        forall|i: int|
            0 <= i < s.len() ==> #[trigger] entries_view(s)[i] == (s[i].0@, json_view(s[i].1)),
    decreases s.len(),
{
    if s.len() > 0 {
        lemma_entries_view(s.drop_first());
        assert forall|i: int| 0 <= i < s.len() implies #[trigger] entries_view(s)[i] == (
            s[i].0@,
            json_view(s[i].1),
        ) by {
            if i > 0 {
                assert(s.drop_first()[i - 1] == s[i]);
            }
        }
    }
}

/// `seq_lt` is irreflexive.
pub proof fn lemma_lt_irreflexive(a: Seq<char>)
    ensures
        !seq_lt(a, a),
    decreases a.len(),
{
    if a.len() > 0 {
        lemma_lt_irreflexive(a.drop_first());
    }
}

/// `seq_lt` is asymmetric.
pub proof fn lemma_lt_asymmetric(a: Seq<char>, b: Seq<char>)
    ensures
        seq_lt(a, b) ==> !seq_lt(b, a),
    decreases a.len(),
{
    if a.len() > 0 && b.len() > 0 && a[0] == b[0] {
        lemma_lt_asymmetric(a.drop_first(), b.drop_first());
    }
}

/// `seq_lt` is total on distinct sequences.
pub proof fn lemma_lt_total(a: Seq<char>, b: Seq<char>)
    ensures
        a != b ==> seq_lt(a, b) || seq_lt(b, a),
    decreases a.len(),
{
    if a.len() > 0 && b.len() > 0 && a[0] == b[0] {
        lemma_lt_total(a.drop_first(), b.drop_first());
        if a != b {
            assert(a.drop_first() != b.drop_first()) by {
                if a.drop_first() == b.drop_first() {
                    assert(a =~= seq![a[0]] + a.drop_first());
                    assert(b =~= seq![b[0]] + b.drop_first());
                }
            }
        }
    } else if a.len() > 0 && b.len() > 0 {
        assert((a[0] as int) != (b[0] as int));
    } else if a.len() == 0 && b.len() == 0 {
        assert(a =~= b);
    }
}

proof fn lemma_insert_prefix(es: Seq<(Seq<char>, Json)>, k: Seq<char>, v: Json, i: int)
    requires
        0 <= i <= es.len(),
        forall|j: int| 0 <= j < i ==> seq_lt(#[trigger] es[j].0, k),
    ensures
        obj_insert(es, k, v) == es.take(i) + obj_insert(es.skip(i), k, v),
        obj_get(es, k) == obj_get(es.skip(i), k),
    decreases i,
{
    if i == 0 {
        assert(es.skip(0) =~= es);
        assert(es.take(0) + obj_insert(es, k, v) =~= obj_insert(es, k, v));
    } else {
        lemma_lt_irreflexive(k);
        lemma_lt_asymmetric(es[0].0, k);
        let t = es.drop_first();
        assert forall|j: int| 0 <= j < i - 1 implies seq_lt(#[trigger] t[j].0, k) by {
            assert(t[j] == es[j + 1]);
        }
        lemma_insert_prefix(t, k, v, i - 1);
        assert(t.skip(i - 1) =~= es.skip(i));
        assert(es.take(i) =~= seq![es[0]] + t.take(i - 1));
    }
}

/// Reading a key just written gives the written value.
pub proof fn lemma_get_insert_same(es: Seq<(Seq<char>, Json)>, k: Seq<char>, v: Json)
    ensures
        obj_get(obj_insert(es, k, v), k) == Some(v),
    decreases es.len(),
{
    if es.len() > 0 && es[0].0 != k && !seq_lt(k, es[0].0) {
        lemma_get_insert_same(es.drop_first(), k, v);
        let r = obj_insert(es, k, v);
        assert(r.drop_first() =~= obj_insert(es.drop_first(), k, v));
    } else if es.len() > 0 && es[0].0 == k {
        let r = obj_insert(es, k, v);
        assert(r[0] == (k, v));
    } else {
        let r = obj_insert(es, k, v);
        assert(r[0] == (k, v));
    }
}

/// Writing a key leaves every other key as it was.
pub proof fn lemma_get_insert_other(es: Seq<(Seq<char>, Json)>, k: Seq<char>, v: Json, k2: Seq<char>)
    requires
        k != k2,
    ensures
        obj_get(obj_insert(es, k, v), k2) == obj_get(es, k2),
    decreases es.len(),
{
    let r = obj_insert(es, k, v);
    if es.len() == 0 {
        assert(r =~= seq![(k, v)]);
        assert(r.drop_first().len() == 0);
        assert(obj_get(r, k2) == obj_get(r.drop_first(), k2));
    } else if es[0].0 == k {
        assert(r =~= seq![(k, v)] + es.drop_first());
        assert(r.drop_first() =~= es.drop_first());
        assert(obj_get(r, k2) == obj_get(r.drop_first(), k2));
    } else if seq_lt(k, es[0].0) {
        assert(r =~= seq![(k, v)] + es);
        assert(r.drop_first() =~= es);
        assert(obj_get(r, k2) == obj_get(r.drop_first(), k2));
    } else {
        lemma_get_insert_other(es.drop_first(), k, v, k2);
        assert(r =~= seq![es[0]] + obj_insert(es.drop_first(), k, v));
        assert(r.drop_first() =~= obj_insert(es.drop_first(), k, v));
        if es[0].0 != k2 {
            assert(obj_get(r, k2) == obj_get(r.drop_first(), k2));
        }
    }
}

/// Removing a key makes it absent (when keys are distinct) and leaves
/// every other key as it was.
pub proof fn lemma_get_remove_other(es: Seq<(Seq<char>, Json)>, k: Seq<char>, k2: Seq<char>)
    requires
        k != k2,
    ensures
        obj_get(obj_remove(es, k), k2) == obj_get(es, k2),
    decreases es.len(),
{
    if es.len() > 0 && es[0].0 != k {
        lemma_get_remove_other(es.drop_first(), k, k2);
        let r = obj_remove(es, k);
        assert(r.drop_first() =~= obj_remove(es.drop_first(), k));
    }
}

/// `seq_lt` is transitive.
pub proof fn lemma_lt_transitive(a: Seq<char>, b: Seq<char>, c: Seq<char>)
    requires
        seq_lt(a, b),
        seq_lt(b, c),
    ensures
        seq_lt(a, c),
    decreases a.len(),
{
    if a.len() > 0 && b.len() > 0 && c.len() > 0 && a[0] == b[0] && b[0] == c[0] {
        lemma_lt_transitive(a.drop_first(), b.drop_first(), c.drop_first());
    }
}

/// A key that no entry carries reads as absent.
pub proof fn lemma_get_absent(es: Seq<(Seq<char>, Json)>, k: Seq<char>)
    requires
        forall|j: int| 0 <= j < es.len() ==> #[trigger] es[j].0 != k,
    ensures
        obj_get(es, k) is None,
    decreases es.len(),
{
    if es.len() > 0 {
        let t = es.drop_first();
        assert forall|j: int| 0 <= j < t.len() implies #[trigger] t[j].0 != k by {
            assert(t[j] == es[j + 1]);
        }
        lemma_get_absent(t, k);
    }
}

proof fn lemma_insert_sorted_at(es: Seq<(Seq<char>, Json)>, k: Seq<char>, v: Json, i: int)
    requires
        keys_sorted(es),
        0 <= i <= es.len(),
        forall|j: int| 0 <= j < i ==> seq_lt(#[trigger] es[j].0, k),
        i < es.len() ==> seq_lt(k, es[i].0),
    ensures
        keys_sorted(es.insert(i, (k, v))),
        forall|j: int| 0 <= j < es.len() ==> #[trigger] es[j].0 != k,
{
    let r = es.insert(i, (k, v));
    assert forall|a: int, b: int| 0 <= a < b < r.len() implies seq_lt(#[trigger] r[a].0, #[trigger] r[b].0) by {
        if b < i {
        } else if a < i && b == i {
        } else if a < i && b > i {
            assert(r[b] == es[b - 1]);
            if b - 1 > i {
                lemma_lt_transitive(k, es[i].0, es[b - 1].0);
            }
            lemma_lt_transitive(es[a].0, k, es[b - 1].0);
        } else if a == i {
            assert(r[b] == es[b - 1]);
            if b - 1 > i {
                lemma_lt_transitive(k, es[i].0, es[b - 1].0);
            }
        } else {
            assert(r[a] == es[a - 1]);
            assert(r[b] == es[b - 1]);
        }
    }
    assert forall|j: int| 0 <= j < es.len() implies #[trigger] es[j].0 != k by {
        if j < i {
            lemma_lt_irreflexive(k);
        } else {
            lemma_lt_irreflexive(k);
            if j > i {
                lemma_lt_transitive(k, es[i].0, es[j].0);
            }
        }
    }
}

proof fn lemma_sorted_update(es: Seq<(Seq<char>, Json)>, i: int, v: Json)
    requires
        keys_sorted(es),
        0 <= i < es.len(),
    ensures
        keys_sorted(es.update(i, (es[i].0, v))),
{
}

proof fn lemma_sorted_remove(es: Seq<(Seq<char>, Json)>, i: int)
    requires
        keys_sorted(es),
        0 <= i < es.len(),
    ensures
        keys_sorted(es.remove(i)),
{
    let r = es.remove(i);
    assert forall|a: int, b: int| 0 <= a < b < r.len() implies seq_lt(#[trigger] r[a].0, #[trigger] r[b].0) by {
        if a >= i {
            assert(r[a] == es[a + 1]);
        }
        if b >= i {
            assert(r[b] == es[b + 1]);
        }
    }
}

/// In a sorted object the first match is the only one.
pub proof fn lemma_get_sorted_at(es: Seq<(Seq<char>, Json)>, k: Seq<char>, i: int)
    requires
        keys_sorted(es),
        0 <= i < es.len(),
        es[i].0 == k,
    ensures
        obj_get(es, k) == Some(es[i].1),
    decreases i,
{
    if i > 0 {
        lemma_lt_irreflexive(k);
        let t = es.drop_first();
        assert(t[i - 1] == es[i]);
        assert(keys_sorted(t)) by {
            assert forall|a: int, b: int| 0 <= a < b < t.len() implies seq_lt(#[trigger] t[a].0, #[trigger] t[b].0) by {
                assert(t[a] == es[a + 1]);
                assert(t[b] == es[b + 1]);
            }
        }
        assert(es[0].0 != k);
        lemma_get_sorted_at(t, k, i - 1);
    }
}

impl JsonMap {
    /// An empty object.
    pub fn new() -> (m: JsonMap)
        ensures
            m@ == Seq::<(Seq<char>, Json)>::empty(),
    {
        let m = JsonMap { entries: Vec::new() };
        proof {
            lemma_entries_view(m.entries@);
        }
        assert(m@ =~= Seq::<(Seq<char>, Json)>::empty());
        m
    }

    /// The number of entries.
    pub fn len(&self) -> (n: usize)
        ensures
            n == self@.len(),
    {
        proof {
            lemma_entries_view(self.entries@);
        }
        self.entries.len()
    }

    /// The entries, in key order.
    pub fn entries(&self) -> (r: &Vec<(String, JsonValue)>)
        ensures
            entries_view(r@) == self@,
            keys_sorted(self@),
    {
        proof {
            use_type_invariant(self);
        }
        &self.entries
    }

    /// The value under `k`.
    pub fn get(&self, k: &str) -> (r: Option<&JsonValue>)
        ensures
            match r {
                Some(v) => obj_get(self@, k@) == Some(v@),
                None => obj_get(self@, k@) is None,
            },
    {
        let n = self.entries.len();
        let ghost m = self@;
        proof {
            lemma_entries_view(self.entries@);
            assert(m.skip(0) =~= m);
        }
        let key = String::from_str(k);
        let mut i: usize = 0;
        while i < n
            invariant
                n == self.entries@.len(),
                key@ == k@,
                m == self@,
                m == entries_view(self.entries@),
                m.len() == n,
                forall|j: int|
                    0 <= j < n ==> #[trigger] m[j] == (
                        self.entries@[j].0@,
                        json_view(self.entries@[j].1),
                    ),
                i <= n,
                obj_get(m, k@) == obj_get(m.skip(i as int), k@),
            decreases n - i,
        {
            assert(m.skip(i as int)[0] == m[i as int]);
            if self.entries[i].0 == key {
                return Some(&self.entries[i].1);
            }
            assert(m.skip(i as int).drop_first() =~= m.skip(i + 1));
            i = i + 1;
        }
        None
    }

    /// The string member `k`, if present and a string.
    pub fn get_str(&self, k: &str) -> (r: Option<&String>)
        ensures
            match r {
                Some(s) => obj_get_str(self@, k@) == Some(s@),
                None => obj_get_str(self@, k@) is None,
            },
    {
        match self.get(k) {
            Some(JsonValue::String(s)) => Some(s),
            _ => None,
        }
    }

    /// The object member `k`, if present and an object.
    pub fn get_obj(&self, k: &str) -> (r: Option<&JsonMap>)
        ensures
            match r {
                Some(m) => obj_get_obj(self@, k@) == Some(m@),
                None => obj_get_obj(self@, k@) is None,
            },
    {
        match self.get(k) {
            Some(JsonValue::Object(m)) => Some(m),
            _ => None,
        }
    }

    /// Whether some entry has key `k`.
    pub fn contains_key(&self, k: &str) -> (r: bool)
        ensures
            r == obj_has(self@, k@),
    {
        self.get(k).is_some()
    }

    /// Set `k` to `v`, keeping keys sorted. Returns the value it replaced.
    pub fn insert(&mut self, k: String, v: JsonValue) -> (r: Option<JsonValue>)
        ensures
            final(self)@ == obj_insert(old(self)@, k@, v@),
            match r {
                Some(p) => obj_get(old(self)@, k@) == Some(p@),
                None => obj_get(old(self)@, k@) is None,
            },
    {
        proof {
            use_type_invariant(&*self);
        }
        let ghost m = self@;
        let ghost vv = v@;
        let mut es: Vec<(String, JsonValue)> = Vec::new();
        std::mem::swap(&mut es, &mut self.entries);
        let n = es.len();
        proof {
            lemma_entries_view(es@);
        }
        let mut i: usize = 0;
        while i < n && str_lt(es[i].0.as_str(), k.as_str())
            invariant
                n == es@.len(),
                m == entries_view(es@),
                keys_sorted(m),
                m.len() == n,
                forall|j: int| 0 <= j < n ==> #[trigger] m[j] == (es@[j].0@, json_view(es@[j].1)),
                i <= n,
                forall|j: int| 0 <= j < i ==> seq_lt(#[trigger] m[j].0, k@),
            decreases n - i,
        {
            i = i + 1;
        }
        proof {
            lemma_insert_prefix(m, k@, vv, i as int);
        }
        if i < n && es[i].0 == k {
            let ghost before = es@;
            let old_entry = es.remove(i);
            assert(old_entry == before[i as int]);
            es.insert(i, (k, v));
            proof {
                lemma_entries_view(es@);
                assert(m.skip(i as int).drop_first() =~= m.skip(i + 1));
                assert(m.skip(i as int)[0] == m[i as int]);
                assert(entries_view(es@) =~= m.take(i as int) + (seq![(k@, vv)] + m.skip(i + 1)));
                assert(entries_view(es@) =~= m.update(i as int, (m[i as int].0, vv)));
                lemma_sorted_update(m, i as int, vv);
                lemma_get_sorted_at(m, k@, i as int);
            }
            self.entries = es;
            Some(old_entry.1)
        } else {
            proof {
                if i < n {
                    assert(m.skip(i as int)[0] == m[i as int]);
                    lemma_lt_total(m[i as int].0, k@);
                }
                lemma_insert_sorted_at(m, k@, vv, i as int);
                lemma_get_absent(m, k@);
            }
            es.insert(i, (k, v));
            proof {
                lemma_entries_view(es@);
                assert(entries_view(es@) =~= m.take(i as int) + (seq![(k@, vv)] + m.skip(i as int)));
                assert(entries_view(es@) =~= m.insert(i as int, (k@, vv)));
                if i == n {
                    assert(m.skip(i as int).len() == 0);
                }
            }
            self.entries = es;
            None
        }
    }

    /// Remove the entry under `k`. Returns its value.
    pub fn remove(&mut self, k: &str) -> (r: Option<JsonValue>)
        ensures
            final(self)@ == obj_remove(old(self)@, k@),
            match r {
                Some(p) => obj_get(old(self)@, k@) == Some(p@),
                None => obj_get(old(self)@, k@) is None,
            },
    {
        proof {
            use_type_invariant(&*self);
        }
        let ghost m = self@;
        let mut es: Vec<(String, JsonValue)> = Vec::new();
        std::mem::swap(&mut es, &mut self.entries);
        let n = es.len();
        proof {
            lemma_entries_view(es@);
            assert(m.skip(0) =~= m);
            assert(m.take(0) + obj_remove(m, k@) =~= obj_remove(m, k@));
        }
        let key = String::from_str(k);
        let mut i: usize = 0;
        while i < n
            invariant
                n == es@.len(),
                key@ == k@,
                m == entries_view(es@),
                keys_sorted(m),
                m.len() == n,
                forall|j: int| 0 <= j < n ==> #[trigger] m[j] == (es@[j].0@, json_view(es@[j].1)),
                i <= n,
                forall|j: int| 0 <= j < i ==> #[trigger] m[j].0 != k@,
                m == old(self)@,
                obj_get(m, k@) == obj_get(m.skip(i as int), k@),
                obj_remove(m, k@) == m.take(i as int) + obj_remove(m.skip(i as int), k@),
            decreases n - i,
        {
            assert(m.skip(i as int)[0] == m[i as int]);
            assert(m.skip(i as int).drop_first() =~= m.skip(i + 1));
            if es[i].0 == key {
                let ghost before = es@;
                assert(m[i as int].0 == k@);
                assert(obj_get(m.skip(i as int), k@) == Some(m[i as int].1));
                assert(obj_remove(m.skip(i as int), k@) == m.skip(i as int).drop_first());
                let e = es.remove(i);
                assert(e == before[i as int]);
                proof {
                    lemma_entries_view(es@);
                    assert(entries_view(es@) =~= m.remove(i as int));
                    assert(obj_remove(m.skip(i as int), k@) =~= m.skip(i + 1));
                    assert(entries_view(es@) =~= m.take(i as int) + m.skip(i + 1));
                    lemma_sorted_remove(m, i as int);
                }
                self.entries = es;
                return Some(e.1);
            }
            assert(m.take(i + 1) =~= m.take(i as int) + seq![m[i as int]]);
            i = i + 1;
        }
        assert(m.take(n as int) =~= m);
        assert(m.skip(n as int).len() == 0);
        self.entries = es;
        None
    }
}

impl JsonMap {
    /// The object whose entries are `entries`, given in ascending key order.
    pub(crate) fn from_sorted(entries: Vec<(String, JsonValue)>) -> (m: JsonMap)
        requires
            keys_sorted(entries_view(entries@)),
        ensures
            m@ == entries_view(entries@),
    {
        JsonMap { entries }
    }

    /// The object holding `pairs`, later pairs overriding earlier ones.
    pub fn from_pairs(pairs: &Vec<(String, JsonValue)>) -> (m: JsonMap)
        ensures
            m@ == obj_from(entries_view(pairs@)),
    {
        let mut m = JsonMap::new();
        let n = pairs.len();
        let ghost ps = entries_view(pairs@);
        proof {
            lemma_entries_view(pairs@);
            assert(ps.take(0) =~= Seq::<(Seq<char>, Json)>::empty());
        }
        let mut i: usize = 0;
        while i < n
            invariant
                n == pairs@.len(),
                ps == entries_view(pairs@),
                ps.len() == n,
                forall|j: int| 0 <= j < n ==> #[trigger] ps[j] == (pairs@[j].0@, json_view(pairs@[j].1)),
                i <= n,
                m@ == obj_from(ps.take(i as int)),
            decreases n - i,
        {
            let k = pairs[i].0.clone();
            let v = pairs[i].1.clone();
            m.insert(k, v);
            proof {
                lemma_insert_all_push(Seq::empty(), ps.take(i as int), ps[i as int]);
                assert(ps.take(i as int).push(ps[i as int]) =~= ps.take(i + 1));
            }
            i = i + 1;
        }
        assert(ps.take(n as int) =~= ps);
        m
    }
}

impl JsonValue {
    /// The member `k` of an object; `None` for other values.
    pub fn get(&self, k: &str) -> (r: Option<&JsonValue>)
        ensures
            match r {
                Some(v) => self@.get(k@) == Some(v@),
                None => self@.get(k@) is None,
            },
    {
        match self {
            JsonValue::Object(m) => m.get(k),
            _ => None,
        }
    }

    pub fn as_str(&self) -> (r: Option<&String>)
        ensures
            match r {
                Some(s) => self@.as_str() == Some(s@),
                None => self@.as_str() is None,
            },
    {
        match self {
            JsonValue::String(s) => Some(s),
            _ => None,
        }
    }

    pub fn as_object(&self) -> (r: Option<&JsonMap>)
        ensures
            match r {
                Some(m) => self@.as_object() == Some(m@),
                None => self@.as_object() is None,
            },
    {
        match self {
            JsonValue::Object(m) => Some(m),
            _ => None,
        }
    }

    pub fn as_array(&self) -> (r: Option<&Vec<JsonValue>>)
        ensures
            match r {
                Some(a) => self@.as_array() == Some(json_view_seq(a@)),
                None => self@.as_array() is None,
            },
    {
        match self {
            JsonValue::Array(a) => Some(a),
            _ => None,
        }
    }

    pub fn is_object(&self) -> (r: bool)
        ensures
            r == (self@ is Object),
    {
        match self {
            JsonValue::Object(_) => true,
            _ => false,
        }
    }

    /// The string member `k` of an object, if present and a string.
    pub fn get_str(&self, k: &str) -> (r: Option<&String>)
        ensures
            match r {
                Some(s) => self@.get_str(k@) == Some(s@),
                None => self@.get_str(k@) is None,
            },
    {
        match self.get(k) {
            Some(v) => v.as_str(),
            None => None,
        }
    }

    /// The object member `k` of an object, if present and an object.
    pub fn get_object(&self, k: &str) -> (r: Option<&JsonMap>)
        ensures
            match r {
                Some(m) => self@.get_object(k@) == Some(m@),
                None => self@.get_object(k@) is None,
            },
    {
        match self.get(k) {
            Some(v) => v.as_object(),
            None => None,
        }
    }

    /// A string value.
    pub fn from_str(s: &str) -> (r: JsonValue)
        ensures
            r@ == Json::Str(s@),
    {
        JsonValue::String(String::from_str(s))
    }
}

impl Clone for JsonNumber {
    fn clone(&self) -> (r: Self)
        ensures
            r@ == self@,
    {
        match self {
            JsonNumber::PosInt(u) => JsonNumber::PosInt(*u),
            JsonNumber::NegInt(i) => JsonNumber::NegInt(*i),
            JsonNumber::Float(s) => JsonNumber::Float(s.clone()),
        }
    }
}

impl Clone for JsonValue {
    fn clone(&self) -> (r: Self)
        ensures
            r@ == self@,
        decreases self,
    {
        match self {
            JsonValue::Null => JsonValue::Null,
            JsonValue::Bool(b) => JsonValue::Bool(*b),
            JsonValue::Number(n) => JsonValue::Number(n.clone()),
            JsonValue::String(s) => JsonValue::String(s.clone()),
            JsonValue::Array(a) => {
                let mut out: Vec<JsonValue> = Vec::new();
                let n = a.len();
                let mut i: usize = 0;
                while i < n
                    invariant
                        n == a@.len(),
                        *self == JsonValue::Array(*a),
                        i <= n,
                        out@.len() == i,
                        forall|j: int| 0 <= j < i ==> #[trigger] json_view(out@[j]) == json_view(a@[j]),
                    decreases n - i,
                {
                    proof {
                        assert(self->Array_0 == *a);
                        assert(decreases_to!(*self => self->Array_0));
                        assert(decreases_to!(*a => a@[i as int]));
                    }
                    let c = a[i].clone();
                    out.push(c);
                    i = i + 1;
                }
                proof {
                    lemma_view_seq(a@);
                    lemma_view_seq(out@);
                    assert(json_view_seq(out@) =~= json_view_seq(a@));
                }
                JsonValue::Array(out)
            },
            JsonValue::Object(m) => JsonValue::Object(m.clone()),
        }
    }
}

impl Clone for JsonMap {
    fn clone(&self) -> (r: Self)
        ensures
            r@ == self@,
        decreases self,
    {
        let mut out: Vec<(String, JsonValue)> = Vec::new();
        let n = self.entries.len();
        let mut i: usize = 0;
        while i < n
            invariant
                n == self.entries@.len(),
                i <= n,
                out@.len() == i,
                forall|j: int|
                    0 <= j < i ==> #[trigger] out@[j].0@ == self.entries@[j].0@ && json_view(
                        out@[j].1,
                    ) == json_view(self.entries@[j].1),
            decreases n - i,
        {
            proof {
                assert(decreases_to!(self => self.entries));
                assert(decreases_to!(self.entries => self.entries@[i as int]));
                assert(decreases_to!(self.entries@[i as int] => self.entries@[i as int].1));
            }
            let k = self.entries[i].0.clone();
            let v = self.entries[i].1.clone();
            out.push((k, v));
            i = i + 1;
        }
        proof {
            use_type_invariant(self);
            lemma_entries_view(out@);
            lemma_entries_view(self.entries@);
            assert(entries_view(out@) =~= entries_view(self.entries@));
        }
        JsonMap { entries: out }
    }
}

/// After an insert, a key is present iff it was inserted or was present.
pub proof fn lemma_has_insert(es: Seq<(Seq<char>, Json)>, k: Seq<char>, v: Json, k2: Seq<char>)
    ensures
        obj_has(obj_insert(es, k, v), k2) == (k2 == k || obj_has(es, k2)),
{
    if k2 == k {
        lemma_get_insert_same(es, k, v);
    } else {
        lemma_get_insert_other(es, k, v, k2);
    }
}

/// A key is present iff some entry carries it.
pub proof fn lemma_has_iff_entry(es: Seq<(Seq<char>, Json)>, k: Seq<char>)
    ensures
        obj_has(es, k) == exists|i: int| 0 <= i < es.len() && #[trigger] es[i].0 == k,
    decreases es.len(),
{
    if es.len() > 0 {
        lemma_has_iff_entry(es.drop_first(), k);
        if es[0].0 != k {
            if exists|i: int| 0 <= i < es.len() && #[trigger] es[i].0 == k {
                let i = choose|i: int| 0 <= i < es.len() && #[trigger] es[i].0 == k;
                assert(es.drop_first()[i - 1].0 == k);
            }
            if exists|i: int| 0 <= i < es.drop_first().len() && #[trigger] es.drop_first()[i].0 == k {
                let i = choose|i: int| 0 <= i < es.drop_first().len() && #[trigger] es.drop_first()[i].0 == k;
                assert(es[i + 1].0 == k);
            }
        }
    }
}

/// Inserting pairs that do not carry `k` leaves `k` as it was.
pub proof fn lemma_insert_all_absent(es: Seq<(Seq<char>, Json)>, b: Seq<(Seq<char>, Json)>, k: Seq<char>)
    requires
        forall|j: int| 0 <= j < b.len() ==> #[trigger] b[j].0 != k,
    ensures
        obj_get(obj_insert_all(es, b), k) == obj_get(es, k),
    decreases b.len(),
{
    if b.len() > 0 {
        assert forall|j: int| 0 <= j < b.drop_last().len() implies #[trigger] b.drop_last()[j].0 != k by {
            assert(b.drop_last()[j] == b[j]);
        }
        lemma_insert_all_absent(es, b.drop_last(), k);
        assert(b.last() == b[b.len() - 1]);
        lemma_get_insert_other(obj_insert_all(es, b.drop_last()), b.last().0, b.last().1, k);
    }
}

/// Inserting the same pairs into two objects that agree on `k` leaves
/// them agreeing on `k`.
pub proof fn lemma_insert_all_agree(
    es1: Seq<(Seq<char>, Json)>,
    es2: Seq<(Seq<char>, Json)>,
    b: Seq<(Seq<char>, Json)>,
    k: Seq<char>,
)
    requires
        obj_get(es1, k) == obj_get(es2, k),
    ensures
        obj_get(obj_insert_all(es1, b), k) == obj_get(obj_insert_all(es2, b), k),
    decreases b.len(),
{
    if b.len() > 0 {
        lemma_insert_all_agree(es1, es2, b.drop_last(), k);
        let p = b.last();
        if p.0 == k {
            lemma_get_insert_same(obj_insert_all(es1, b.drop_last()), p.0, p.1);
            lemma_get_insert_same(obj_insert_all(es2, b.drop_last()), p.0, p.1);
        } else {
            lemma_get_insert_other(obj_insert_all(es1, b.drop_last()), p.0, p.1, k);
            lemma_get_insert_other(obj_insert_all(es2, b.drop_last()), p.0, p.1, k);
        }
    }
}

/// A key greater than every key goes at the end.
pub proof fn lemma_insert_last(es: Seq<(Seq<char>, Json)>, k: Seq<char>, v: Json)
    requires
        forall|j: int| 0 <= j < es.len() ==> seq_lt(#[trigger] es[j].0, k),
    ensures
        obj_insert(es, k, v) == es.push((k, v)),
    decreases es.len(),
{
    if es.len() > 0 {
        lemma_lt_irreflexive(k);
        lemma_lt_asymmetric(es[0].0, k);
        assert forall|j: int| 0 <= j < es.drop_first().len() implies seq_lt(
            #[trigger] es.drop_first()[j].0,
            k,
        ) by {
            assert(es.drop_first()[j] == es[j + 1]);
        }
        lemma_insert_last(es.drop_first(), k, v);
        assert(seq![es[0]] + es.drop_first().push((k, v)) =~= es.push((k, v)));
    } else {
        assert(seq![(k, v)] =~= es.push((k, v)));
    }
}

/// Building an object from sorted entries gives those entries.
pub proof fn lemma_obj_from_sorted(es: Seq<(Seq<char>, Json)>)
    requires
        keys_sorted(es),
    ensures
        obj_from(es) == es,
    decreases es.len(),
{
    if es.len() > 0 {
        let d = es.drop_last();
        assert(keys_sorted(d)) by {
            assert forall|a: int, b: int| 0 <= a < b < d.len() implies seq_lt(
                #[trigger] d[a].0,
                #[trigger] d[b].0,
            ) by {
                assert(d[a] == es[a]);
                assert(d[b] == es[b]);
            }
        }
        lemma_obj_from_sorted(d);
        assert forall|j: int| 0 <= j < d.len() implies seq_lt(#[trigger] d[j].0, es.last().0) by {
            assert(d[j] == es[j]);
            assert(es.last() == es[es.len() - 1]);
        }
        lemma_insert_last(d, es.last().0, es.last().1);
        assert(d.push(es.last()) =~= es);
    }
}

/// Every key of an insert is the inserted key or a key of the object.
proof fn lemma_insert_keys(es: Seq<(Seq<char>, Json)>, k: Seq<char>, v: Json, b: Seq<char>)
    requires
        seq_lt(b, k),
        forall|j: int| 0 <= j < es.len() ==> seq_lt(b, #[trigger] es[j].0),
    ensures
        forall|j: int|
            0 <= j < obj_insert(es, k, v).len() ==> seq_lt(b, #[trigger] obj_insert(es, k, v)[j].0),
    decreases es.len(),
{
    let r = obj_insert(es, k, v);
    if es.len() == 0 {
    } else if es[0].0 == k {
        assert forall|j: int| 0 <= j < r.len() implies seq_lt(b, #[trigger] r[j].0) by {
            if j > 0 {
                assert(r[j] == es[j]);
            }
        }
    } else if seq_lt(k, es[0].0) {
        assert forall|j: int| 0 <= j < r.len() implies seq_lt(b, #[trigger] r[j].0) by {
            if j > 0 {
                assert(r[j] == es[j - 1]);
            }
        }
    } else {
        let t = es.drop_first();
        assert forall|j: int| 0 <= j < t.len() implies seq_lt(b, #[trigger] t[j].0) by {
            assert(t[j] == es[j + 1]);
        }
        lemma_insert_keys(t, k, v, b);
        assert forall|j: int| 0 <= j < r.len() implies seq_lt(b, #[trigger] r[j].0) by {
            if j > 0 {
                assert(r[j] == obj_insert(t, k, v)[j - 1]);
            }
        }
    }
}

/// Inserting keeps the keys sorted.
pub proof fn lemma_insert_sorted(es: Seq<(Seq<char>, Json)>, k: Seq<char>, v: Json)
    requires
        keys_sorted(es),
    ensures
        keys_sorted(obj_insert(es, k, v)),
    decreases es.len(),
{
    let r = obj_insert(es, k, v);
    if es.len() == 0 {
    } else if es[0].0 == k {
        assert forall|a: int, b: int| 0 <= a < b < r.len() implies seq_lt(
            #[trigger] r[a].0,
            #[trigger] r[b].0,
        ) by {
            assert(r[b] == es[b]);
            if a > 0 {
                assert(r[a] == es[a]);
            }
        }
    } else if seq_lt(k, es[0].0) {
        assert forall|a: int, b: int| 0 <= a < b < r.len() implies seq_lt(
            #[trigger] r[a].0,
            #[trigger] r[b].0,
        ) by {
            assert(r[b] == es[b - 1]);
            if a > 0 {
                assert(r[a] == es[a - 1]);
            } else if b - 1 > 0 {
                lemma_lt_transitive(k, es[0].0, es[b - 1].0);
            }
        }
    } else {
        let t = es.drop_first();
        assert(keys_sorted(t)) by {
            assert forall|a: int, b: int| 0 <= a < b < t.len() implies seq_lt(
                #[trigger] t[a].0,
                #[trigger] t[b].0,
            ) by {
                assert(t[a] == es[a + 1]);
                assert(t[b] == es[b + 1]);
            }
        }
        lemma_insert_sorted(t, k, v);
        lemma_lt_total(k, es[0].0);
        assert forall|j: int| 0 <= j < t.len() implies seq_lt(es[0].0, #[trigger] t[j].0) by {
            assert(t[j] == es[j + 1]);
        }
        lemma_insert_keys(t, k, v, es[0].0);
        let it = obj_insert(t, k, v);
        assert(r == seq![es[0]] + it);
        assert forall|a: int, b: int| 0 <= a < b < r.len() implies seq_lt(
            #[trigger] r[a].0,
            #[trigger] r[b].0,
        ) by {
            assert(r[b] == it[b - 1]);
            if a > 0 {
                assert(r[a] == it[a - 1]);
            }
        }
    }
}

/// An object built by inserts from a sorted one is sorted.
pub proof fn lemma_insert_all_sorted(es: Seq<(Seq<char>, Json)>, b: Seq<(Seq<char>, Json)>)
    requires
        keys_sorted(es),
    ensures
        keys_sorted(obj_insert_all(es, b)),
    decreases b.len(),
{
    if b.len() > 0 {
        lemma_insert_all_sorted(es, b.drop_last());
        lemma_insert_sorted(obj_insert_all(es, b.drop_last()), b.last().0, b.last().1);
    }
}

/// Two sorted objects that agree on every key are the same.
pub proof fn lemma_sorted_ext(a: Seq<(Seq<char>, Json)>, b: Seq<(Seq<char>, Json)>)
    requires
        keys_sorted(a),
        keys_sorted(b),
        forall|k: Seq<char>| #[trigger] obj_get(a, k) == obj_get(b, k),
    ensures
        a == b,
    decreases a.len(),
{
    if a.len() == 0 {
        if b.len() > 0 {
            assert(obj_get(b, b[0].0) is Some);
            assert(obj_get(a, b[0].0) is None);
        }
        assert(a =~= b);
    } else if b.len() == 0 {
        assert(obj_get(a, a[0].0) is Some);
        assert(obj_get(b, a[0].0) is None);
    } else {
        let ka = a[0].0;
        let kb = b[0].0;
        assert(obj_get(a, ka) == Some(a[0].1));
        assert(obj_get(b, kb) == Some(b[0].1));
        if ka != kb {
            lemma_has_iff_entry(b, ka);
            lemma_has_iff_entry(a, kb);
            assert(obj_has(b, ka));
            assert(obj_has(a, kb));
            let j = choose|j: int| 0 <= j < b.len() && #[trigger] b[j].0 == ka;
            let i = choose|i: int| 0 <= i < a.len() && #[trigger] a[i].0 == kb;
            assert(j > 0);
            assert(i > 0);
            assert(seq_lt(kb, ka));
            assert(seq_lt(ka, kb));
            lemma_lt_asymmetric(ka, kb);
        }
        assert(a[0] == b[0]);
        let ta = a.drop_first();
        let tb = b.drop_first();
        assert(keys_sorted(ta)) by {
            assert forall|x: int, y: int| 0 <= x < y < ta.len() implies seq_lt(
                #[trigger] ta[x].0,
                #[trigger] ta[y].0,
            ) by {
                assert(ta[x] == a[x + 1]);
                assert(ta[y] == a[y + 1]);
            }
        }
        assert(keys_sorted(tb)) by {
            assert forall|x: int, y: int| 0 <= x < y < tb.len() implies seq_lt(
                #[trigger] tb[x].0,
                #[trigger] tb[y].0,
            ) by {
                assert(tb[x] == b[x + 1]);
                assert(tb[y] == b[y + 1]);
            }
        }
        assert forall|k: Seq<char>| #[trigger] obj_get(ta, k) == obj_get(tb, k) by {
            if k == ka {
                lemma_lt_irreflexive(ka);
                assert forall|j: int| 0 <= j < ta.len() implies #[trigger] ta[j].0 != k by {
                    assert(ta[j] == a[j + 1]);
                }
                assert forall|j: int| 0 <= j < tb.len() implies #[trigger] tb[j].0 != k by {
                    assert(tb[j] == b[j + 1]);
                }
                lemma_get_absent(ta, k);
                lemma_get_absent(tb, k);
            } else {
                assert(obj_get(a, k) == obj_get(ta, k));
                assert(obj_get(b, k) == obj_get(tb, k));
            }
        }
        lemma_sorted_ext(ta, tb);
        assert(a =~= seq![a[0]] + ta);
        assert(b =~= seq![b[0]] + tb);
    }
}

/// A member found in an object is smaller than the object.
pub proof fn lemma_obj_get_decreases(es: Seq<(Seq<char>, Json)>, k: Seq<char>)
    ensures
        obj_get(es, k) matches Some(v) ==> decreases_to!(es => v),
    decreases es.len(),
{
    if es.len() > 0 {
        if es[0].0 == k {
            assert(decreases_to!(es => es[0]));
            assert(decreases_to!(es[0] => es[0].1));
        } else {
            lemma_obj_get_decreases(es.drop_first(), k);
            assert(decreases_to!(es => es.drop_first()));
        }
    }
}

} // verus!

//! The XARF v4 JSON schemas: the registry built from their texts, the field
//! metadata drawn from them, and the strict-mode transform that turns
//! recommended properties into required ones.

use vstd::prelude::*;

use crate::json::{
    entries_view, json_view, json_view_seq, keys_sorted, lemma_entries_view, lemma_get_insert_other, lemma_get_insert_same,
    lemma_has_iff_entry, lemma_has_insert, lemma_lt_transitive, lemma_obj_get_decreases, lemma_view_seq, obj_get, obj_has, obj_insert, obj_keys,
    Json, JsonMap, JsonValue,
};
use crate::engine::{decode_json, decoded_json, pairs_view, schema_errors, CompiledSchema};
use crate::error::{XarfError, XarfErrorModel};
use crate::model::{clone_strings, string_array, strings_view};
use crate::text::{concat, decimal, decimal_string, owned, seq_contains, seq_lt, str_contains, str_eq};

verus! {

broadcast use {
    vstd::seq_lib::lemma_seq_concat_contains_all_elements,
    vstd::seq_lib::lemma_seq_contains_after_push,
};

/// Description and recommendation flag of one optional field.
#[derive(Debug)]
pub struct FieldMeta {
    pub name: String,
    pub description: String,
    pub recommended: bool,
}

/// The model of a [`FieldMeta`].
pub ghost struct FieldMetaModel {
    pub name: Seq<char>,
    pub description: Seq<char>,
    pub recommended: bool,
}

impl View for FieldMeta {
    type V = FieldMetaModel;

    open spec fn view(&self) -> FieldMetaModel {
        FieldMetaModel { name: self.name@, description: self.description@, recommended: self.recommended }
    }
}

pub open spec fn metas_view(v: Seq<FieldMeta>) -> Seq<FieldMetaModel> {
    v.map_values(|m: FieldMeta| m@)
}

impl Clone for FieldMeta {
    fn clone(&self) -> (r: Self)
        ensures
            r@ == self@,
    {
        FieldMeta {
            name: self.name.clone(),
            description: self.description.clone(),
            recommended: self.recommended,
        }
    }
}

// ---------------------------------------------------------------------------
// Reading schema nodes
// ---------------------------------------------------------------------------

/// The object member `k` of `j`, or no entries.
pub open spec fn member_object(j: Json, k: Seq<char>) -> Seq<(Seq<char>, Json)> {
    match j.get(k) {
        Some(Json::Object(m)) => m,
        _ => Seq::empty(),
    }
}

/// The array member `k` of `j`, or no items.
pub open spec fn member_array(j: Json, k: Seq<char>) -> Seq<Json> {
    match j.get(k) {
        Some(Json::Array(a)) => a,
        _ => Seq::empty(),
    }
}

/// The strings among `a`, in order.
pub open spec fn string_items(a: Seq<Json>) -> Seq<Seq<char>>
    decreases a.len(),
{
    if a.len() == 0 {
        Seq::empty()
    } else {
        let rest = string_items(a.drop_last());
        match a.last() {
            Json::Str(s) => rest.push(s),
            _ => rest,
        }
    }
}

/// The names listed in the `required` array of a schema node.
pub open spec fn required_of(j: Json) -> Seq<Seq<char>> {
    string_items(member_array(j, "required"@))
}

/// A property schema carrying `"x-recommended": true`.
pub open spec fn flagged_recommended(j: Json) -> bool {
    j.get("x-recommended"@) == Some(Json::Bool(true))
}

/// The names of the properties whose schema is flagged recommended, in order.
pub open spec fn recommended_names(props: Seq<(Seq<char>, Json)>) -> Seq<Seq<char>>
    decreases props.len(),
{
    if props.len() == 0 {
        Seq::empty()
    } else {
        let rest = recommended_names(props.drop_last());
        if flagged_recommended(props.last().1) {
            rest.push(props.last().0)
        } else {
            rest
        }
    }
}

/// `existing` followed by each name of `add` not already present.
pub open spec fn merge_names(existing: Seq<Seq<char>>, add: Seq<Seq<char>>) -> Seq<Seq<char>>
    decreases add.len(),
{
    if add.len() == 0 {
        existing
    } else {
        let r = merge_names(existing, add.drop_last());
        if r.contains(add.last()) {
            r
        } else {
            r.push(add.last())
        }
    }
}

/// Strings as JSON strings.
pub open spec fn strs_json(s: Seq<Seq<char>>) -> Seq<Json> {
    s.map_values(|t: Seq<char>| Json::Str(t))
}

// ---------------------------------------------------------------------------
// Strict mode: promoting recommended properties to required ones
// ---------------------------------------------------------------------------

/// The recommended properties of the object node `m`.
pub open spec fn node_recommended(m: Seq<(Seq<char>, Json)>) -> Seq<Seq<char>> {
    recommended_names(member_object(Json::Object(m), "properties"@))
}

/// The `required` list of `m` once its recommended properties are added.
pub open spec fn promoted_required(m: Seq<(Seq<char>, Json)>) -> Seq<Seq<char>> {
    merge_names(required_of(Json::Object(m)), node_recommended(m))
}

/// `es` with the `required` member of `m` rewritten when `m` has
/// recommended properties; `es` unchanged otherwise.
pub open spec fn with_required(m: Seq<(Seq<char>, Json)>, es: Seq<(Seq<char>, Json)>) -> Seq<
    (Seq<char>, Json),
> {
    if node_recommended(m).len() > 0 {
        obj_insert(es, "required"@, Json::Array(strs_json(promoted_required(m))))
    } else {
        es
    }
}

/// Members that hold a map from names to subschemas.
pub open spec fn is_map_key(k: Seq<char>) -> bool {
    k == "properties"@ || k == "$defs"@
}

/// Members that hold a list of subschemas.
pub open spec fn is_list_key(k: Seq<char>) -> bool {
    k == "allOf"@ || k == "anyOf"@ || k == "oneOf"@
}

/// Members that hold one subschema.
pub open spec fn is_single_key(k: Seq<char>) -> bool {
    k == "items"@ || k == "if"@ || k == "then"@ || k == "else"@ || k == "not"@ || k
        == "additionalProperties"@
}

/// A schema node with every object node in it promoted, itself included.
pub open spec fn promote(j: Json) -> Json
    decreases j,
{
    match j {
        Json::Object(m) => Json::Object(with_required(m, promote_entries(m))),
        _ => j,
    }
}

/// The member `k` of a node, its subschemas promoted.
pub open spec fn promote_member(k: Seq<char>, v: Json) -> Json
    decreases v,
{
    if is_map_key(k) {
        match v {
            Json::Object(sub) => Json::Object(promote_values(sub)),
            _ => v,
        }
    } else if is_list_key(k) {
        match v {
            Json::Array(a) => Json::Array(promote_items(a)),
            _ => v,
        }
    } else if is_single_key(k) {
        match v {
            Json::Object(sub) => Json::Object(with_required(sub, promote_entries(sub))),
            _ => v,
        }
    } else {
        v
    }
}

pub open spec fn promote_entries(es: Seq<(Seq<char>, Json)>) -> Seq<(Seq<char>, Json)>
    decreases es,
{
    if es.len() == 0 {
        es
    } else {
        seq![(es[0].0, promote_member(es[0].0, es[0].1))] + promote_entries(es.drop_first())
    }
}

pub open spec fn promote_values(es: Seq<(Seq<char>, Json)>) -> Seq<(Seq<char>, Json)>
    decreases es,
{
    if es.len() == 0 {
        es
    } else {
        seq![(es[0].0, promote(es[0].1))] + promote_values(es.drop_first())
    }
}

pub open spec fn promote_items(a: Seq<Json>) -> Seq<Json>
    decreases a,
{
    if a.len() == 0 {
        a
    } else {
        seq![promote(a[0])] + promote_items(a.drop_first())
    }
}

proof fn lemma_promote_entries(es: Seq<(Seq<char>, Json)>)
    ensures
        promote_entries(es).len() == es.len(),
        forall|i: int|
            0 <= i < es.len() ==> #[trigger] promote_entries(es)[i] == (
                es[i].0,
                promote_member(es[i].0, es[i].1),
            ),
    decreases es.len(),
{
    if es.len() > 0 {
        lemma_promote_entries(es.drop_first());
        assert forall|i: int| 0 <= i < es.len() implies #[trigger] promote_entries(es)[i] == (
            es[i].0,
            promote_member(es[i].0, es[i].1),
        ) by {
            if i > 0 {
                assert(es.drop_first()[i - 1] == es[i]);
            }
        }
    }
}

proof fn lemma_promote_values(es: Seq<(Seq<char>, Json)>)
    ensures
        promote_values(es).len() == es.len(),
        forall|i: int|
            0 <= i < es.len() ==> #[trigger] promote_values(es)[i] == (es[i].0, promote(es[i].1)),
    decreases es.len(),
{
    if es.len() > 0 {
        lemma_promote_values(es.drop_first());
        assert forall|i: int| 0 <= i < es.len() implies #[trigger] promote_values(es)[i] == (
            es[i].0,
            promote(es[i].1),
        ) by {
            if i > 0 {
                assert(es.drop_first()[i - 1] == es[i]);
            }
        }
    }
}

proof fn lemma_promote_items(a: Seq<Json>)
    ensures
        promote_items(a).len() == a.len(),
        forall|i: int| 0 <= i < a.len() ==> #[trigger] promote_items(a)[i] == promote(a[i]),
    decreases a.len(),
{
    if a.len() > 0 {
        lemma_promote_items(a.drop_first());
        assert forall|i: int| 0 <= i < a.len() implies #[trigger] promote_items(a)[i] == promote(
            a[i],
        ) by {
            if i > 0 {
                assert(a.drop_first()[i - 1] == a[i]);
            }
        }
    }
}

proof fn lemma_get_promote_entries(es: Seq<(Seq<char>, Json)>, k: Seq<char>)
    ensures
        obj_get(promote_entries(es), k) == match obj_get(es, k) {
            Some(v) => Some(promote_member(k, v)),
            None => None::<Json>,
        },
    decreases es.len(),
{
    if es.len() > 0 {
        lemma_get_promote_entries(es.drop_first(), k);
        assert(promote_entries(es).drop_first() =~= promote_entries(es.drop_first()));
    }
}

proof fn lemma_string_items_strs(s: Seq<Seq<char>>)
    ensures
        string_items(strs_json(s)) == s,
    decreases s.len(),
{
    if s.len() > 0 {
        lemma_string_items_strs(s.drop_last());
        assert(strs_json(s).drop_last() =~= strs_json(s.drop_last()));
        assert(s.drop_last().push(s.last()) =~= s);
    } else {
        assert(strs_json(s) =~= Seq::<Json>::empty());
    }
}

proof fn lemma_merge_keeps(existing: Seq<Seq<char>>, add: Seq<Seq<char>>)
    ensures
        forall|x: Seq<char>| existing.contains(x) ==> merge_names(existing, add).contains(x),
        forall|x: Seq<char>| add.contains(x) ==> merge_names(existing, add).contains(x),
    decreases add.len(),
{
    if add.len() > 0 {
        lemma_merge_keeps(existing, add.drop_last());
        let r = merge_names(existing, add.drop_last());
        assert forall|x: Seq<char>| add.contains(x) implies merge_names(existing, add).contains(x) by {
            let j = choose|j: int| 0 <= j < add.len() && add[j] == x;
            if j < add.len() - 1 {
                assert(add.drop_last()[j] == x);
                assert(add.drop_last().contains(x));
                assert(r.contains(x));
                if !r.contains(add.last()) {
                    let k = choose|k: int| 0 <= k < r.len() && r[k] == x;
                    assert(r.push(add.last())[k] == x);
                }
            } else {
                assert(x == add.last());
                if !r.contains(x) {
                    assert(r.push(x)[r.len() as int] == x);
                }
            }
        }
        assert forall|x: Seq<char>| existing.contains(x) implies merge_names(existing, add).contains(
            x,
        ) by {
            if !r.contains(add.last()) {
                let j = choose|j: int| 0 <= j < r.len() && r[j] == x;
                assert(r.push(add.last())[j] == x);
            }
        }
    }
}

// ---------------------------------------------------------------------------
// Promotion is idempotent
// ---------------------------------------------------------------------------

/// Merging names a second time adds nothing.
proof fn lemma_merge_absorbs(r: Seq<Seq<char>>, add: Seq<Seq<char>>)
    requires
        forall|x: Seq<char>| add.contains(x) ==> r.contains(x),
    ensures
        merge_names(r, add) == r,
    decreases add.len(),
{
    if add.len() > 0 {
        assert forall|x: Seq<char>| add.drop_last().contains(x) implies r.contains(x) by {
            let j = choose|j: int| 0 <= j < add.drop_last().len() && add.drop_last()[j] == x;
            assert(add[j] == x);
        }
        lemma_merge_absorbs(r, add.drop_last());
        assert(add.contains(add.last())) by {
            assert(add[add.len() - 1] == add.last());
        }
    }
}

/// Inserting the same member twice is inserting it once.
proof fn lemma_insert_twice(es: Seq<(Seq<char>, Json)>, k: Seq<char>, v: Json)
    ensures
        obj_insert(obj_insert(es, k, v), k, v) == obj_insert(es, k, v),
    decreases es.len(),
{
    if es.len() == 0 {
    } else if es[0].0 == k {
        let once = obj_insert(es, k, v);
        assert(once[0].0 == k);
        assert(obj_insert(once, k, v) =~= seq![(k, v)] + once.drop_first());
        assert(once.drop_first() =~= es.drop_first());
    } else if seq_lt(k, es[0].0) {
        let once = obj_insert(es, k, v);
        assert(once[0] == (k, v));
        assert(once.drop_first() =~= es);
        assert(obj_insert(once, k, v) =~= seq![(k, v)] + once.drop_first());
    } else {
        let once = obj_insert(es, k, v);
        let rest = obj_insert(es.drop_first(), k, v);
        assert(once == seq![es[0]] + rest);
        assert(once[0] == es[0]);
        assert(once.drop_first() =~= rest);
        lemma_insert_twice(es.drop_first(), k, v);
        assert(obj_insert(once, k, v) =~= seq![es[0]] + obj_insert(rest, k, v));
    }
}

/// Promoting the members after an insertion is inserting the promoted member.
proof fn lemma_promote_entries_insert(es: Seq<(Seq<char>, Json)>, k: Seq<char>, v: Json)
    ensures
        promote_entries(obj_insert(es, k, v)) == obj_insert(promote_entries(es), k, promote_member(k, v)),
    decreases es.len(),
{
    let pes = promote_entries(es);
    if es.len() == 0 {
        lemma_promote_entries(seq![(k, v)]);
        assert(promote_entries(seq![(k, v)]) =~= seq![(k, promote_member(k, v))]);
    } else {
        assert(pes[0].0 == es[0].0);
        assert(pes.drop_first() =~= promote_entries(es.drop_first()));
        let ins = obj_insert(es, k, v);
        if es[0].0 == k {
            assert(ins.drop_first() =~= es.drop_first());
            assert(promote_entries(ins).drop_first() =~= promote_entries(ins.drop_first()));
            assert(promote_entries(ins) =~= obj_insert(pes, k, promote_member(k, v)));
        } else if seq_lt(k, es[0].0) {
            assert(ins.drop_first() =~= es);
            assert(promote_entries(ins).drop_first() =~= promote_entries(ins.drop_first()));
            assert(promote_entries(ins) =~= obj_insert(pes, k, promote_member(k, v)));
        } else {
            lemma_promote_entries_insert(es.drop_first(), k, v);
            assert(ins.drop_first() =~= obj_insert(es.drop_first(), k, v));
            assert(promote_entries(ins).drop_first() =~= promote_entries(ins.drop_first()));
            assert(promote_entries(ins) =~= obj_insert(pes, k, promote_member(k, v)));
        }
    }
}

/// Promotion leaves the `x-recommended` flag of a node as it was.
proof fn lemma_flag_kept(j: Json)
    ensures
        flagged_recommended(promote(j)) == flagged_recommended(j),
{
    if let Json::Object(m) = j {
        reveal_strlit("x-recommended");
        reveal_strlit("required");
        reveal_strlit("properties");
        reveal_strlit("$defs");
        reveal_strlit("allOf");
        reveal_strlit("anyOf");
        reveal_strlit("oneOf");
        reveal_strlit("items");
        reveal_strlit("if");
        reveal_strlit("then");
        reveal_strlit("else");
        reveal_strlit("not");
        reveal_strlit("additionalProperties");
        let xr = "x-recommended"@;
        assert(xr.len() == 13);
        assert(!is_map_key(xr) && !is_list_key(xr) && !is_single_key(xr));
        lemma_get_promote_entries(m, xr);
        if node_recommended(m).len() > 0 {
            assert(xr != "required"@);
            lemma_get_insert_other(
                promote_entries(m),
                "required"@,
                Json::Array(strs_json(promoted_required(m))),
                xr,
            );
        }
    }
}

/// Promoting property schemas keeps which of them are recommended.
proof fn lemma_recommended_names_kept(s: Seq<(Seq<char>, Json)>)
    ensures
        recommended_names(promote_values(s)) == recommended_names(s),
    decreases s.len(),
{
    if s.len() > 0 {
        let p = promote_values(s);
        lemma_promote_values(s);
        lemma_promote_values(s.drop_last());
        assert(p.drop_last() =~= promote_values(s.drop_last()));
        lemma_recommended_names_kept(s.drop_last());
        lemma_flag_kept(s.last().1);
        assert(p.last() == (s.last().0, promote(s.last().1)));
    }
}

/// The facts about the object node `m` and its promoted members that the
/// idempotence proof needs: the recommended properties and the `required`
/// list read the same after promoting the members.
proof fn lemma_promoted_node_facts(m: Seq<(Seq<char>, Json)>)
    ensures
        node_recommended(promote_entries(m)) == node_recommended(m),
        required_of(Json::Object(promote_entries(m))) == required_of(Json::Object(m)),
        promote_member("required"@, Json::Array(strs_json(promoted_required(m)))) == Json::Array(
            strs_json(promoted_required(m)),
        ),
        node_recommended(obj_insert(promote_entries(m), "required"@, Json::Array(strs_json(promoted_required(m)))))
            == node_recommended(m),
        required_of(Json::Object(obj_insert(promote_entries(m), "required"@, Json::Array(strs_json(promoted_required(m))))))
            == promoted_required(m),
{
    reveal_strlit("required");
    reveal_strlit("properties");
    reveal_strlit("$defs");
    reveal_strlit("allOf");
    reveal_strlit("anyOf");
    reveal_strlit("oneOf");
    reveal_strlit("items");
    reveal_strlit("if");
    reveal_strlit("then");
    reveal_strlit("else");
    reveal_strlit("not");
    reveal_strlit("additionalProperties");
    let rq = "required"@;
    let pr = "properties"@;
    assert(rq.len() == 8 && pr.len() == 10);
    assert(rq != pr);
    assert(!is_map_key(rq) && !is_list_key(rq) && !is_single_key(rq));
    assert(is_map_key(pr));
    let pe = promote_entries(m);
    let req = Json::Array(strs_json(promoted_required(m)));
    lemma_get_promote_entries(m, pr);
    lemma_get_promote_entries(m, rq);
    lemma_get_insert_other(pe, rq, req, pr);
    lemma_get_insert_same(pe, rq, req);
    lemma_string_items_strs(promoted_required(m));
    match obj_get(m, pr) {
        Some(Json::Object(sub)) => {
            lemma_recommended_names_kept(sub);
        },
        _ => {},
    }
}

/// Promoting a promoted node changes nothing, and a node that is not an
/// object is never changed.
pub proof fn lemma_promote_idempotent(j: Json)
    ensures
        promote(promote(j)) == promote(j),
        !(j is Object) ==> promote(j) == j,
    decreases j, 2int,
{
    if let Json::Object(m) = j {
        lemma_promote_object_idempotent(m);
    }
}

proof fn lemma_promote_object_idempotent(m: Seq<(Seq<char>, Json)>)
    ensures
        promote(promote(Json::Object(m))) == promote(Json::Object(m)),
    decreases m, 1int,
{
    lemma_promote_entries_idempotent(m);
    lemma_promoted_node_facts(m);
    let pe = promote_entries(m);
    if node_recommended(m).len() > 0 {
        let req = Json::Array(strs_json(promoted_required(m)));
        let p = obj_insert(pe, "required"@, req);
        lemma_merge_keeps(required_of(Json::Object(m)), node_recommended(m));
        lemma_merge_absorbs(promoted_required(m), node_recommended(m));
        assert(promoted_required(p) == promoted_required(m));
        lemma_promote_entries_insert(pe, "required"@, req);
        lemma_insert_twice(pe, "required"@, req);
    }
}

/// Promoting the members of an object twice is promoting them once.
proof fn lemma_promote_entries_idempotent(es: Seq<(Seq<char>, Json)>)
    ensures
        promote_entries(promote_entries(es)) == promote_entries(es),
    decreases es, 0int,
{
    let p = promote_entries(es);
    lemma_promote_entries(es);
    lemma_promote_entries(p);
    assert forall|i: int| 0 <= i < es.len() implies #[trigger] promote_entries(p)[i] == p[i] by {
        lemma_promote_member_idempotent(es[i].0, es[i].1);
    }
    assert(promote_entries(p) =~= p);
}

proof fn lemma_promote_member_idempotent(k: Seq<char>, v: Json)
    ensures
        promote_member(k, promote_member(k, v)) == promote_member(k, v),
    decreases v, 2int,
{
    if is_map_key(k) {
        if let Json::Object(sub) = v {
            lemma_promote_values_idempotent(sub);
        }
    } else if is_list_key(k) {
        if let Json::Array(a) = v {
            lemma_promote_items_idempotent(a);
        }
    } else if is_single_key(k) {
        if let Json::Object(sub) = v {
            lemma_promote_object_idempotent(sub);
        }
    }
}

proof fn lemma_promote_values_idempotent(es: Seq<(Seq<char>, Json)>)
    ensures
        promote_values(promote_values(es)) == promote_values(es),
    decreases es, 0int,
{
    let p = promote_values(es);
    lemma_promote_values(es);
    lemma_promote_values(p);
    assert forall|i: int| 0 <= i < es.len() implies #[trigger] promote_values(p)[i] == p[i] by {
        lemma_promote_idempotent(es[i].1);
    }
    assert(promote_values(p) =~= p);
}

proof fn lemma_promote_items_idempotent(a: Seq<Json>)
    ensures
        promote_items(promote_items(a)) == promote_items(a),
    decreases a, 0int,
{
    let p = promote_items(a);
    lemma_promote_items(a);
    lemma_promote_items(p);
    assert forall|i: int| 0 <= i < a.len() implies #[trigger] promote_items(p)[i] == p[i] by {
        lemma_promote_idempotent(a[i]);
    }
    assert(promote_items(p) =~= p);
}

/// After promotion, the `required` list of an object node holds every
/// property the node flags `x-recommended: true`, and every name it listed
/// before.
pub proof fn lemma_promote_requires_recommended(m: Seq<(Seq<char>, Json)>)
    ensures
        forall|n: Seq<char>|
            node_recommended(m).contains(n) ==> required_of(promote(Json::Object(m))).contains(n),
        forall|n: Seq<char>|
            required_of(Json::Object(m)).contains(n) ==> required_of(
                promote(Json::Object(m)),
            ).contains(n),
{
    let es = promote_entries(m);
    if node_recommended(m).len() > 0 {
        lemma_get_insert_same(es, "required"@, Json::Array(strs_json(promoted_required(m))));
        lemma_string_items_strs(promoted_required(m));
        lemma_merge_keeps(required_of(Json::Object(m)), node_recommended(m));
    } else {
        reveal_strlit("required");
        reveal_strlit("properties");
        reveal_strlit("$defs");
        reveal_strlit("allOf");
        reveal_strlit("anyOf");
        reveal_strlit("oneOf");
        reveal_strlit("items");
        reveal_strlit("if");
        reveal_strlit("then");
        reveal_strlit("else");
        reveal_strlit("not");
        reveal_strlit("additionalProperties");
        lemma_get_promote_entries(m, "required"@);
        assert("required"@.len() == 8);
        assert("required"@ != "properties"@);
        assert("required"@ != "$defs"@);
        assert("required"@ != "allOf"@);
        assert("required"@ != "anyOf"@);
        assert("required"@ != "oneOf"@);
        assert("required"@ != "items"@);
        assert("required"@ != "if"@);
        assert("required"@ != "then"@);
        assert("required"@ != "else"@);
        assert("required"@ != "not"@);
        assert("required"@ != "additionalProperties"@);
    }
}

// ---------------------------------------------------------------------------
// After promotion, every sub-schema requires its recommended properties
// ---------------------------------------------------------------------------

/// At the object node `m`, every recommended property is required.
pub open spec fn node_requires_recommended(m: Seq<(Seq<char>, Json)>) -> bool {
    forall|n: Seq<char>|
        #[trigger] node_recommended(m).contains(n) ==> required_of(Json::Object(m)).contains(n)
}

/// Every object node of the schema `j` that promotion visits (the node
/// itself and the sub-schemas under `properties`, `$defs`, `allOf`,
/// `anyOf`, `oneOf`, `items`, `if`, `then`, `else`, `not` and
/// `additionalProperties`) requires its recommended properties.
pub open spec fn requires_recommended_everywhere(j: Json) -> bool
    decreases j,
{
    match j {
        Json::Object(m) => node_requires_recommended(m) && members_ok(m),
        _ => true,
    }
}

/// Each member's sub-schemas require their recommended properties.
pub open spec fn members_ok(es: Seq<(Seq<char>, Json)>) -> bool
    decreases es,
{
    if es.len() == 0 {
        true
    } else {
        member_ok(es[0].0, es[0].1) && members_ok(es.drop_first())
    }
}

pub open spec fn member_ok(k: Seq<char>, v: Json) -> bool
    decreases v,
{
    if is_map_key(k) {
        match v {
            Json::Object(sub) => values_ok(sub),
            _ => true,
        }
    } else if is_list_key(k) {
        match v {
            Json::Array(a) => items_ok(a),
            _ => true,
        }
    } else if is_single_key(k) {
        match v {
            Json::Object(sub) => node_requires_recommended(sub) && members_ok(sub),
            _ => true,
        }
    } else {
        true
    }
}

pub open spec fn values_ok(es: Seq<(Seq<char>, Json)>) -> bool
    decreases es,
{
    if es.len() == 0 {
        true
    } else {
        requires_recommended_everywhere(es[0].1) && values_ok(es.drop_first())
    }
}

pub open spec fn items_ok(a: Seq<Json>) -> bool
    decreases a,
{
    if a.len() == 0 {
        true
    } else {
        requires_recommended_everywhere(a[0]) && items_ok(a.drop_first())
    }
}

/// Inserting a member whose sub-schemas are fine keeps the members fine.
proof fn lemma_members_ok_insert(es: Seq<(Seq<char>, Json)>, k: Seq<char>, v: Json)
    requires
        members_ok(es),
        member_ok(k, v),
    ensures
        members_ok(obj_insert(es, k, v)),
    decreases es.len(),
{
    let r = obj_insert(es, k, v);
    if es.len() == 0 {
        assert(r == seq![(k, v)]);
        assert(r[0] == (k, v));
        assert(r.drop_first() =~= Seq::<(Seq<char>, Json)>::empty());
        assert(members_ok(r.drop_first()));
        assert(members_ok(r));
    } else if es[0].0 == k {
        assert(r == seq![(k, v)] + es.drop_first());
        assert(r[0] == (k, v));
        assert(r.drop_first() =~= es.drop_first());
        assert(members_ok(es.drop_first()));
        assert(members_ok(r));
    } else if seq_lt(k, es[0].0) {
        assert(r == seq![(k, v)] + es);
        assert(r[0] == (k, v));
        assert(r.drop_first() =~= es);
        assert(members_ok(r));
    } else {
        assert(members_ok(es.drop_first()));
        lemma_members_ok_insert(es.drop_first(), k, v);
        assert(r == seq![es[0]] + obj_insert(es.drop_first(), k, v));
        assert(r[0] == es[0]);
        assert(r.drop_first() =~= obj_insert(es.drop_first(), k, v));
        assert(members_ok(r));
    }
}

/// After promotion, every sub-schema that promotion visits requires each of
/// its `x-recommended` properties.
pub proof fn lemma_promote_requires_recommended_everywhere(j: Json)
    ensures
        requires_recommended_everywhere(promote(j)),
    decreases j, 2int,
{
    if let Json::Object(m) = j {
        lemma_promoted_object_ok(m);
    }
}

proof fn lemma_promoted_object_ok(m: Seq<(Seq<char>, Json)>)
    ensures
        node_requires_recommended(with_required(m, promote_entries(m))),
        members_ok(with_required(m, promote_entries(m))),
    decreases m, 1int,
{
    lemma_promote_requires_recommended(m);
    lemma_promoted_node_facts(m);
    lemma_promoted_members_ok(m);
    if node_recommended(m).len() > 0 {
        reveal_strlit("required");
        reveal_strlit("properties");
        reveal_strlit("$defs");
        reveal_strlit("allOf");
        reveal_strlit("anyOf");
        reveal_strlit("oneOf");
        reveal_strlit("items");
        reveal_strlit("if");
        reveal_strlit("then");
        reveal_strlit("else");
        reveal_strlit("not");
        reveal_strlit("additionalProperties");
        assert("required"@.len() == 8);
        assert(!is_map_key("required"@) && !is_list_key("required"@) && !is_single_key("required"@));
        lemma_members_ok_insert(
            promote_entries(m),
            "required"@,
            Json::Array(strs_json(promoted_required(m))),
        );
    }
    assert(promote(Json::Object(m)) == Json::Object(with_required(m, promote_entries(m))));
}

proof fn lemma_promoted_members_ok(es: Seq<(Seq<char>, Json)>)
    ensures
        members_ok(promote_entries(es)),
    decreases es, 0int,
{
    if es.len() > 0 {
        lemma_promoted_member_ok(es[0].0, es[0].1);
        lemma_promoted_members_ok(es.drop_first());
        assert(promote_entries(es).drop_first() =~= promote_entries(es.drop_first()));
    }
}

proof fn lemma_promoted_member_ok(k: Seq<char>, v: Json)
    ensures
        member_ok(k, promote_member(k, v)),
    decreases v, 2int,
{
    if is_map_key(k) {
        if let Json::Object(sub) = v {
            lemma_promoted_values_ok(sub);
        }
    } else if is_list_key(k) {
        if let Json::Array(a) = v {
            lemma_promoted_items_ok(a);
        }
    } else if is_single_key(k) {
        if let Json::Object(sub) = v {
            lemma_promoted_object_ok(sub);
        }
    }
}

proof fn lemma_promoted_values_ok(es: Seq<(Seq<char>, Json)>)
    ensures
        values_ok(promote_values(es)),
    decreases es, 0int,
{
    if es.len() > 0 {
        lemma_promote_requires_recommended_everywhere(es[0].1);
        lemma_promoted_values_ok(es.drop_first());
        assert(promote_values(es).drop_first() =~= promote_values(es.drop_first()));
    }
}

proof fn lemma_promoted_items_ok(a: Seq<Json>)
    ensures
        items_ok(promote_items(a)),
    decreases a, 0int,
{
    if a.len() > 0 {
        lemma_promote_requires_recommended_everywhere(a[0]);
        lemma_promoted_items_ok(a.drop_first());
        assert(promote_items(a).drop_first() =~= promote_items(a.drop_first()));
    }
}

// ---------------------------------------------------------------------------
// Field names declared by a schema
// ---------------------------------------------------------------------------

/// The core fields every report may carry.
pub open spec fn is_core_name(k: Seq<char>) -> bool {
    k == "xarf_version"@ || k == "report_id"@ || k == "timestamp"@ || k == "reporter"@ || k
        == "sender"@ || k == "source_identifier"@ || k == "source_port"@ || k == "category"@ || k
        == "type"@ || k == "evidence_source"@ || k == "evidence"@ || k == "tags"@ || k
        == "confidence"@ || k == "description"@ || k == "legacy_version"@ || k == "_internal"@
}

/// Whether `k` names a core field.
pub fn is_core_field(k: &str) -> (r: bool)
    ensures
        r == is_core_name(k@),
{
    str_eq(k, "xarf_version") || str_eq(k, "report_id") || str_eq(k, "timestamp") || str_eq(
        k,
        "reporter",
    ) || str_eq(k, "sender") || str_eq(k, "source_identifier") || str_eq(k, "source_port")
        || str_eq(k, "category") || str_eq(k, "type") || str_eq(k, "evidence_source") || str_eq(
        k,
        "evidence",
    ) || str_eq(k, "tags") || str_eq(k, "confidence") || str_eq(k, "description") || str_eq(
        k,
        "legacy_version",
    ) || str_eq(k, "_internal")
}

/// The `$ref` of a subschema, when it is a string.
pub open spec fn ref_of(j: Json) -> Option<Seq<char>> {
    match j.get("$ref"@) {
        Some(Json::Str(h)) => Some(h),
        _ => None,
    }
}

/// Counts down once the base schema has been entered.
pub open spec fn base_rank(base: Option<Json>) -> int {
    if base is Some {
        1
    } else {
        0
    }
}

/// The property names a schema declares: its own `properties`, and those
/// of its `allOf` members, a `$ref` to the content base standing for the
/// names of `base` (and a `$ref` to the core schema for none). A base
/// schema's own `$ref`s to the content base are not followed again: such a
/// reference would lead back to the same schema without end, and it adds
/// no name that the first visit did not.
pub open spec fn names_in(schema: Json, base: Option<Json>) -> Seq<Seq<char>>
    decreases base_rank(base), schema,
{
    match schema {
        Json::Object(m) => {
            let own = obj_keys(member_object(schema, "properties"@));
            match obj_get(m, "allOf"@) {
                Some(Json::Array(a)) => {
                    proof {
                        lemma_obj_get_decreases(m, "allOf"@);
                        assert(decreases_to!(schema => m));
                    }
                    own + names_in_all(a, base)
                },
                _ => own,
            }
        },
        _ => Seq::empty(),
    }
}

/// The property names declared through the `allOf` members `items`.
pub open spec fn names_in_all(items: Seq<Json>, base: Option<Json>) -> Seq<Seq<char>>
    decreases base_rank(base), items,
{
    if items.len() == 0 {
        Seq::empty()
    } else {
        let rest = names_in_all(items.drop_last(), base);
        let sub = items.last();
        match ref_of(sub) {
            Some(href) => if seq_contains(href, "../xarf-core.json"@) {
                rest
            } else if seq_contains(href, "content-base.json"@) {
                match base {
                    Some(b) => rest + names_in(b, None),
                    None => rest,
                }
            } else {
                rest
            },
            None => rest + names_in(sub, base),
        }
    }
}

/// Names kept in a set: the keys of an object whose values are `null`.
pub open spec fn holds_name(set: Seq<(Seq<char>, Json)>, k: Seq<char>) -> bool {
    obj_has(set, k)
}

fn add_name(set: &mut JsonMap, k: &str)
    ensures
        forall|x: Seq<char>| holds_name(final(set)@, x) == (x == k@ || holds_name(old(set)@, x)),
{
    set.insert(owned(k), JsonValue::Null);
    proof {
        assert forall|x: Seq<char>| holds_name(set@, x) == (x == k@ || holds_name(old(set)@, x)) by {
            lemma_has_insert(old(set)@, k@, Json::Null, x);
        }
    }
}

fn add_names(set: &mut JsonMap, keys: &JsonMap)
    ensures
        forall|x: Seq<char>|
            holds_name(final(set)@, x) == (obj_keys(keys@).contains(x) || holds_name(old(set)@, x)),
{
    let es = keys.entries();
    let ghost ke = keys@;
    let n = es.len();
    proof {
        lemma_entries_view(es@);
    }
    let mut i: usize = 0;
    while i < n
        invariant
            n == es@.len(),
            ke == keys@,
            ke == entries_view(es@),
            ke.len() == n,
            forall|j: int| 0 <= j < n ==> #[trigger] ke[j] == (es@[j].0@, json_view(es@[j].1)),
            i <= n,
            forall|x: Seq<char>|
                holds_name(set@, x) == (obj_keys(ke.take(i as int)).contains(x) || holds_name(
                    old(set)@,
                    x,
                )),
        decreases n - i,
    {
        add_name(set, es[i].0.as_str());
        proof {
            assert forall|x: Seq<char>|
                obj_keys(ke.take(i + 1)).contains(x) == (x == ke[i as int].0 || obj_keys(
                    ke.take(i as int),
                ).contains(x)) by {
                assert(obj_keys(ke.take(i + 1)) =~= obj_keys(ke.take(i as int)).push(ke[i as int].0));
            }
        }
        i = i + 1;
    }
    assert(ke.take(n as int) =~= ke);
}

/// The optional base, viewed.
pub open spec fn opt_view(base: Option<&JsonValue>) -> Option<Json> {
    match base {
        Some(b) => Some(b@),
        None => None,
    }
}

/// Add to `set` every property name `schema` declares.
fn collect_property_names(schema: &JsonValue, base: Option<&JsonValue>, set: &mut JsonMap)
    ensures
        forall|x: Seq<char>|
            holds_name(final(set)@, x) == (names_in(schema@, opt_view(base)).contains(x)
                || holds_name(old(set)@, x)),
    decreases base_rank(opt_view(base)), schema@,
{
    let m = match schema {
        JsonValue::Object(m) => m,
        _ => {
            return;
        },
    };
    let empty = JsonMap::new();
    let props = match m.get_obj("properties") {
        Some(p) => p,
        None => &empty,
    };
    assert(props@ == member_object(schema@, "properties"@));
    add_names(set, props);
    let ghost own = obj_keys(props@);
    let ghost ob = opt_view(base);
    match m.get("allOf") {
        Some(JsonValue::Array(a)) => {
            let ghost av = json_view_seq(a@);
            let ghost arr = Json::Array(av);
            let n = a.len();
            proof {
                lemma_view_seq(a@);
                lemma_obj_get_decreases(m@, "allOf"@);
                assert(av.take(0) =~= Seq::<Json>::empty());
                assert(names_in(schema@, ob) == own + names_in_all(av, ob));
            }
            let mut i: usize = 0;
            while i < n
                invariant
                    n == a@.len(),
                    av == json_view_seq(a@),
                    av.len() == n,
                    forall|j: int| 0 <= j < n ==> #[trigger] av[j] == json_view(a@[j]),
                    obj_get(m@, "allOf"@) == Some(arr),
                    arr == Json::Array(av),
                    decreases_to!(m@ => arr),
                    schema@ == Json::Object(m@),
                    ob == opt_view(base),
                    i <= n,
                    forall|x: Seq<char>|
                        #[trigger] holds_name(set@, x) == (names_in_all(av.take(i as int), ob).contains(x)
                            || own.contains(x) || holds_name(old(set)@, x)),
                decreases n - i,
            {
                let sub = &a[i];
                let ghost rest = names_in_all(av.take(i as int), ob);
                let ghost before = set@;
                proof {
                    assert(av.take(i + 1).drop_last() =~= av.take(i as int));
                    assert(av.take(i + 1).last() == av[i as int]);
                    assert(sub@ == av[i as int]);
                }
                match sub.get("$ref") {
                    Some(JsonValue::String(href)) => {
                        assert(ref_of(sub@) == Some(href@));
                        if str_contains(href.as_str(), "../xarf-core.json") {
                            assert(names_in_all(av.take(i + 1), ob) == rest);
                        } else if str_contains(href.as_str(), "content-base.json") {
                            match base {
                                Some(b) => {
                                    assert(names_in_all(av.take(i + 1), ob) == rest + names_in(b@, None));
                                    collect_property_names(b, None, set);
                                },
                                None => {
                                    assert(names_in_all(av.take(i + 1), ob) == rest);
                                },
                            }
                        } else {
                            assert(names_in_all(av.take(i + 1), ob) == rest);
                        }
                    },
                    _ => {
                        assert(ref_of(sub@) is None);
                        assert(names_in_all(av.take(i + 1), ob) == rest + names_in(sub@, ob));
                        proof {
                            assert(decreases_to!(schema@ => schema@->Object_0));
                            assert(decreases_to!(arr => arr->Array_0));
                            assert(decreases_to!(av => av[i as int]));
                        }
                        collect_property_names(sub, base, set);
                    },
                }
                i = i + 1;
            }
            assert(av.take(n as int) =~= av);
        },
        _ => {
            assert(names_in(schema@, ob) == own);
        },
    }
}

fn add_core_names(set: &mut JsonMap)
    ensures
        forall|x: Seq<char>| holds_name(final(set)@, x) == (is_core_name(x) || holds_name(old(set)@, x)),
{
    add_name(set, "xarf_version");
    add_name(set, "report_id");
    add_name(set, "timestamp");
    add_name(set, "reporter");
    add_name(set, "sender");
    add_name(set, "source_identifier");
    add_name(set, "source_port");
    add_name(set, "category");
    add_name(set, "type");
    add_name(set, "evidence_source");
    add_name(set, "evidence");
    add_name(set, "tags");
    add_name(set, "confidence");
    add_name(set, "description");
    add_name(set, "legacy_version");
    add_name(set, "_internal");
}

/// The keys of `m`, in order.
fn key_list(m: &JsonMap) -> (r: Vec<String>)
    ensures
        strings_view(r@) == obj_keys(m@),
        keys_sorted(m@),
{
    let es = m.entries();
    let ghost me = m@;
    let n = es.len();
    proof {
        lemma_entries_view(es@);
    }
    let mut out: Vec<String> = Vec::new();
    let mut i: usize = 0;
    while i < n
        invariant
            n == es@.len(),
            me == m@,
            me == entries_view(es@),
            me.len() == n,
            forall|j: int| 0 <= j < n ==> #[trigger] me[j] == (es@[j].0@, json_view(es@[j].1)),
            i <= n,
            out@.len() == i,
            forall|j: int| 0 <= j < i ==> #[trigger] out@[j]@ == me[j].0,
        decreases n - i,
    {
        out.push(es[i].0.clone());
        i = i + 1;
    }
    assert(strings_view(out@) =~= obj_keys(me));
    out
}

/// Names strictly ascending, hence each once.
pub open spec fn names_sorted(s: Seq<Seq<char>>) -> bool {
    forall|i: int, j: int| 0 <= i < j < s.len() ==> seq_lt(#[trigger] s[i], #[trigger] s[j])
}

/// The known fields of a type schema: every name it declares (through
/// `base` too) and every core name, ascending, each once.
pub open spec fn known_fields_of(fields: Seq<Seq<char>>, schema: Json, base: Json) -> bool {
    &&& names_sorted(fields)
    &&& forall|k: Seq<char>|
        #[trigger] fields.contains(k) == (names_in(schema, Some(base)).contains(k) || is_core_name(k))
}

/// The sorted set of field names `schema` declares, core names included.
fn build_known_fields(schema: &JsonValue, base: &JsonValue) -> (r: Vec<String>)
    ensures
        known_fields_of(strings_view(r@), schema@, base@),
{
    let mut set = JsonMap::new();
    let ghost s0 = set@;
    collect_property_names(schema, Some(base), &mut set);
    let ghost s1 = set@;
    assert(forall|x: Seq<char>| holds_name(s1, x) == (names_in(schema@, Some(base@)).contains(x) || holds_name(s0, x)));
    add_core_names(&mut set);
    assert(forall|x: Seq<char>| holds_name(set@, x) == (is_core_name(x) || holds_name(s1, x)));
    let r = key_list(&set);
    proof {
        let ks = obj_keys(set@);
        assert forall|k: Seq<char>| #[trigger] ks.contains(k) == (names_in(
            schema@,
            Some(base@),
        ).contains(k) || is_core_name(k)) by {
            lemma_has_iff_entry(set@, k);
            assert(holds_name(set@, k) == (is_core_name(k) || holds_name(s1, k)));
            assert(holds_name(s1, k) == (names_in(schema@, Some(base@)).contains(k) || holds_name(s0, k)));
            assert(!holds_name(s0, k));
            if ks.contains(k) {
                let i = choose|i: int| 0 <= i < ks.len() && ks[i] == k;
                assert(set@[i].0 == k);
            }
            if holds_name(set@, k) {
                let i = choose|i: int| 0 <= i < set@.len() && #[trigger] set@[i].0 == k;
                assert(ks[i] == k);
                assert(ks.contains(k));
            }
        }
    }
    r
}

// ---------------------------------------------------------------------------
// Optional fields and their descriptions
// ---------------------------------------------------------------------------

/// The description a property schema gives, or a default naming the field.
pub open spec fn description_of(k: Seq<char>, v: Json) -> Seq<char> {
    match v.get("description"@) {
        Some(Json::Str(d)) => d,
        _ => "Optional field: "@ + k,
    }
}

/// The metadata of property `k` with schema `v`.
pub open spec fn optional_entry(k: Seq<char>, v: Json) -> FieldMetaModel {
    FieldMetaModel { name: k, description: description_of(k, v), recommended: flagged_recommended(v) }
}

/// The names of a list of field metadata.
pub open spec fn names_of(out: Seq<FieldMetaModel>) -> Seq<Seq<char>> {
    out.map_values(|m: FieldMetaModel| m.name)
}

/// `out` extended, in order, by the properties of `props` that are neither
/// core fields, nor in `req`, nor already listed.
pub open spec fn props_optional(
    props: Seq<(Seq<char>, Json)>,
    req: Seq<Seq<char>>,
    out: Seq<FieldMetaModel>,
) -> Seq<FieldMetaModel>
    decreases props.len(),
{
    if props.len() == 0 {
        out
    } else {
        let o = props_optional(props.drop_last(), req, out);
        let k = props.last().0;
        if is_core_name(k) || req.contains(k) || names_of(o).contains(k) {
            o
        } else {
            o.push(optional_entry(k, props.last().1))
        }
    }
}

/// `out` extended by the optional fields of a type schema: its own
/// properties, then those of its `allOf` members (a `$ref` to the content
/// base standing for `base`, other `$ref`s for nothing). Names required by
/// the node or an enclosing node are left out. Inside the content base its
/// own `$ref`s to the content base are not followed again: that would lead
/// back to the same schema without end.
pub open spec fn type_optional(
    schema: Json,
    base: Option<Json>,
    req: Seq<Seq<char>>,
    out: Seq<FieldMetaModel>,
) -> Seq<FieldMetaModel>
    decreases base_rank(base), schema,
{
    match schema {
        Json::Object(m) => {
            let req2 = req + required_of(schema);
            let o = props_optional(member_object(schema, "properties"@), req2, out);
            match obj_get(m, "allOf"@) {
                Some(Json::Array(a)) => {
                    proof {
                        lemma_obj_get_decreases(m, "allOf"@);
                        assert(decreases_to!(schema => m));
                    }
                    type_optional_all(a, base, req2, o)
                },
                _ => o,
            }
        },
        _ => out,
    }
}

pub open spec fn type_optional_all(
    items: Seq<Json>,
    base: Option<Json>,
    req: Seq<Seq<char>>,
    out: Seq<FieldMetaModel>,
) -> Seq<FieldMetaModel>
    decreases base_rank(base), items,
{
    if items.len() == 0 {
        out
    } else {
        let o = type_optional_all(items.drop_last(), base, req, out);
        let sub = items.last();
        match ref_of(sub) {
            Some(href) => if !seq_contains(href, "-base.json"@) {
                o
            } else if seq_contains(href, "content-base.json"@) {
                match base {
                    Some(b) => type_optional(b, None, req, o),
                    None => o,
                }
            } else {
                o
            },
            None => type_optional(sub, base, req, o),
        }
    }
}

/// The optional core fields: the object-valued properties of the core
/// schema that are not required and are not `_internal`, in order.
pub open spec fn core_entries_optional(props: Seq<(Seq<char>, Json)>, req: Seq<Seq<char>>) -> Seq<
    FieldMetaModel,
>
    decreases props.len(),
{
    if props.len() == 0 {
        Seq::empty()
    } else {
        let o = core_entries_optional(props.drop_last(), req);
        let (k, v) = props.last();
        if req.contains(k) || k == "_internal"@ || !(v is Object) {
            o
        } else {
            o.push(optional_entry(k, v))
        }
    }
}

/// Names strictly ascending, hence distinct.
pub open spec fn names_ascending(ms: Seq<FieldMetaModel>) -> bool {
    forall|i: int, j: int| 0 <= i < j < ms.len() ==> seq_lt(#[trigger] ms[i].name, #[trigger] ms[j].name)
}

/// The optional entries drawn from sorted properties come in name order,
/// each named after one of the properties.
proof fn lemma_core_entries_ascending(props: Seq<(Seq<char>, Json)>, req: Seq<Seq<char>>)
    requires
        keys_sorted(props),
    ensures
        names_ascending(core_entries_optional(props, req)),
        forall|i: int|
            0 <= i < core_entries_optional(props, req).len() ==> exists|j: int|
                0 <= j < props.len() && #[trigger] core_entries_optional(props, req)[i].name
                    == props[j].0,
    decreases props.len(),
{
    if props.len() > 0 {
        let init = props.drop_last();
        assert(keys_sorted(init)) by {
            assert forall|i: int, j: int| 0 <= i < j < init.len() implies seq_lt(
                #[trigger] init[i].0,
                #[trigger] init[j].0,
            ) by {
                assert(init[i] == props[i] && init[j] == props[j]);
            }
        }
        lemma_core_entries_ascending(init, req);
        let o = core_entries_optional(init, req);
        let (k, v) = props.last();
        let res = core_entries_optional(props, req);
        if !(req.contains(k) || k == "_internal"@ || !(v is Object)) {
            assert(res == o.push(optional_entry(k, v)));
            assert forall|i: int| 0 <= i < o.len() implies seq_lt(#[trigger] o[i].name, k) by {
                let j = choose|j: int| 0 <= j < init.len() && o[i].name == init[j].0;
                assert(init[j] == props[j]);
                assert(seq_lt(props[j].0, props[props.len() - 1].0));
            }
            assert forall|i: int, j: int| 0 <= i < j < res.len() implies seq_lt(
                #[trigger] res[i].name,
                #[trigger] res[j].name,
            ) by {
                if j == res.len() - 1 {
                    assert(res[i] == o[i]);
                } else {
                    assert(res[i] == o[i] && res[j] == o[j]);
                }
            }
            assert forall|i: int| 0 <= i < res.len() implies exists|j: int|
                0 <= j < props.len() && #[trigger] res[i].name == props[j].0 by {
                if i == res.len() - 1 {
                    assert(res[i].name == props[props.len() - 1].0);
                } else {
                    assert(res[i] == o[i]);
                    let j = choose|j: int| 0 <= j < init.len() && o[i].name == init[j].0;
                    assert(init[j] == props[j]);
                }
            }
        } else {
            assert forall|i: int| 0 <= i < res.len() implies exists|j: int|
                0 <= j < props.len() && #[trigger] res[i].name == props[j].0 by {
                let j = choose|j: int| 0 <= j < init.len() && o[i].name == init[j].0;
                assert(init[j] == props[j]);
            }
        }
    }
}

pub open spec fn core_optional(core: Json, req: Seq<Seq<char>>) -> Seq<FieldMetaModel> {
    match core.get("properties"@) {
        Some(Json::Object(props)) => core_entries_optional(props, req),
        _ => Seq::empty(),
    }
}

fn description_for(k: &str, v: &JsonValue) -> (r: String)
    ensures
        r@ == description_of(k@, v@),
{
    match v.get("description") {
        Some(JsonValue::String(d)) => d.clone(),
        _ => concat("Optional field: ", k),
    }
}

fn meta_for(k: &str, v: &JsonValue) -> (r: FieldMeta)
    ensures
        r@ == optional_entry(k@, v@),
{
    FieldMeta { name: owned(k), description: description_for(k, v), recommended: is_flagged(v) }
}

fn metas_has_name(out: &Vec<FieldMeta>, k: &str) -> (r: bool)
    ensures
        r == names_of(metas_view(out@)).contains(k@),
{
    let n = out.len();
    let ghost ns = names_of(metas_view(out@));
    let mut i: usize = 0;
    while i < n
        invariant
            n == out@.len(),
            ns == names_of(metas_view(out@)),
            ns.len() == n,
            i <= n,
            forall|j: int| 0 <= j < i ==> ns[j] != k@,
        decreases n - i,
    {
        assert(ns[i as int] == out@[i as int].name@);
        if str_eq(out[i].name.as_str(), k) {
            return true;
        }
        i = i + 1;
    }
    false
}

/// Append to `out` the optional fields `schema` declares.
fn collect_type_optional(
    schema: &JsonValue,
    base: Option<&JsonValue>,
    accumulated_required: &Vec<String>,
    out: &mut Vec<FieldMeta>,
)
    ensures
        metas_view(final(out)@) == type_optional(
            schema@,
            opt_view(base),
            strings_view(accumulated_required@),
            metas_view(old(out)@),
        ),
    decreases base_rank(opt_view(base)), schema@,
{
    let m = match schema {
        JsonValue::Object(m) => m,
        _ => {
            return;
        },
    };
    let mut required = clone_strings(accumulated_required);
    let mut own_required = required_list(m);
    required.append(&mut own_required);
    let ghost reqv = strings_view(accumulated_required@) + required_of(schema@);
    assert(strings_view(required@) =~= reqv);
    let empty = JsonMap::new();
    let props = match m.get_obj("properties") {
        Some(p) => p,
        None => &empty,
    };
    assert(props@ == member_object(schema@, "properties"@));
    let es = props.entries();
    let ghost pe = props@;
    let n = es.len();
    proof {
        lemma_entries_view(es@);
        assert(pe.take(0) =~= Seq::<(Seq<char>, Json)>::empty());
    }
    let mut i: usize = 0;
    while i < n
        invariant
            n == es@.len(),
            pe == props@,
            pe == entries_view(es@),
            pe.len() == n,
            forall|j: int| 0 <= j < n ==> #[trigger] pe[j] == (es@[j].0@, json_view(es@[j].1)),
            strings_view(required@) == reqv,
            i <= n,
            metas_view(out@) == props_optional(pe.take(i as int), reqv, metas_view(old(out)@)),
        decreases n - i,
    {
        assert(pe.take(i + 1).drop_last() =~= pe.take(i as int));
        assert(pe.take(i + 1).last() == pe[i as int]);
        let k = es[i].0.as_str();
        let v = &es[i].1;
        if is_core_field(k) || vec_contains_str(&required, k) || metas_has_name(out, k) {
        } else {
            let meta = meta_for(k, v);
            out.push(meta);
            assert(metas_view(out@) =~= metas_view(out@.drop_last()).push(meta@));
        }
        i = i + 1;
    }
    assert(pe.take(n as int) =~= pe);
    let ghost ob = opt_view(base);
    match m.get("allOf") {
        Some(JsonValue::Array(a)) => {
            let ghost av = json_view_seq(a@);
            let ghost arr = Json::Array(av);
            let na = a.len();
            proof {
                lemma_view_seq(a@);
                lemma_obj_get_decreases(m@, "allOf"@);
                assert(av.take(0) =~= Seq::<Json>::empty());
            }
            let mut t: usize = 0;
            while t < na
                invariant
                    na == a@.len(),
                    av == json_view_seq(a@),
                    av.len() == na,
                    forall|j: int| 0 <= j < na ==> #[trigger] av[j] == json_view(a@[j]),
                    obj_get(m@, "allOf"@) == Some(arr),
                    arr == Json::Array(av),
                    decreases_to!(m@ => arr),
                    schema@ == Json::Object(m@),
                    ob == opt_view(base),
                    strings_view(required@) == reqv,
                    t <= na,
                    metas_view(out@) == type_optional_all(
                        av.take(t as int),
                        ob,
                        reqv,
                        props_optional(pe, reqv, metas_view(old(out)@)),
                    ),
                decreases na - t,
            {
                let sub = &a[t];
                proof {
                    assert(av.take(t + 1).drop_last() =~= av.take(t as int));
                    assert(av.take(t + 1).last() == av[t as int]);
                    assert(sub@ == av[t as int]);
                }
                match sub.get("$ref") {
                    Some(JsonValue::String(href)) => {
                        assert(ref_of(sub@) == Some(href@));
                        if !str_contains(href.as_str(), "-base.json") {
                        } else if str_contains(href.as_str(), "content-base.json") {
                            match base {
                                Some(b) => {
                                    collect_type_optional(b, None, &required, out);
                                },
                                None => {},
                            }
                        }
                    },
                    _ => {
                        assert(ref_of(sub@) is None);
                        proof {
                            assert(decreases_to!(schema@ => schema@->Object_0));
                            assert(decreases_to!(arr => arr->Array_0));
                            assert(decreases_to!(av => av[t as int]));
                        }
                        collect_type_optional(sub, base, &required, out);
                    },
                }
                t = t + 1;
            }
            assert(av.take(na as int) =~= av);
        },
        _ => {},
    }
}

/// The optional and recommended fields of a type schema, in declaration
/// order, each once.
fn build_optional_fields(schema: &JsonValue, base: &JsonValue) -> (r: Vec<FieldMeta>)
    ensures
        metas_view(r@) == type_optional(schema@, Some(base@), Seq::empty(), Seq::empty()),
{
    let mut out: Vec<FieldMeta> = Vec::new();
    let req: Vec<String> = Vec::new();
    assert(strings_view(req@) =~= Seq::<Seq<char>>::empty());
    assert(metas_view(out@) =~= Seq::<FieldMetaModel>::empty());
    collect_type_optional(schema, Some(base), &req, &mut out);
    out
}

/// The optional core fields with description and recommendation flag.
fn build_core_optional(core_schema: &JsonValue, required: &Vec<String>) -> (r: Vec<FieldMeta>)
    ensures
        metas_view(r@) == core_optional(core_schema@, strings_view(required@)),
        names_ascending(metas_view(r@)),
{
    let mut out: Vec<FieldMeta> = Vec::new();
    assert(metas_view(out@) =~= Seq::<FieldMetaModel>::empty());
    let props = match core_schema.get("properties") {
        Some(JsonValue::Object(p)) => p,
        _ => {
            return out;
        },
    };
    let es = props.entries();
    let ghost pe = props@;
    let ghost req = strings_view(required@);
    proof {
        lemma_core_entries_ascending(pe, req);
    }
    let n = es.len();
    proof {
        lemma_entries_view(es@);
        assert(pe.take(0) =~= Seq::<(Seq<char>, Json)>::empty());
    }
    let mut i: usize = 0;
    while i < n
        invariant
            n == es@.len(),
            pe == props@,
            pe == entries_view(es@),
            pe.len() == n,
            forall|j: int| 0 <= j < n ==> #[trigger] pe[j] == (es@[j].0@, json_view(es@[j].1)),
            req == strings_view(required@),
            i <= n,
            metas_view(out@) == core_entries_optional(pe.take(i as int), req),
        decreases n - i,
    {
        assert(pe.take(i + 1).drop_last() =~= pe.take(i as int));
        assert(pe.take(i + 1).last() == pe[i as int]);
        let k = es[i].0.as_str();
        let v = &es[i].1;
        let skip = vec_contains_str(required, k) || str_eq(k, "_internal") || !v.is_object();
        if !skip {
            let meta = meta_for(k, v);
            out.push(meta);
            assert(metas_view(out@) =~= metas_view(out@.drop_last()).push(meta@));
        }
        i = i + 1;
    }
    assert(pe.take(n as int) =~= pe);
    out
}

// ---------------------------------------------------------------------------
// The registry
// ---------------------------------------------------------------------------

pub open spec fn table_view(v: Seq<(&str, &str, &str)>) -> Seq<(Seq<char>, Seq<char>, Seq<char>)> {
    v.map_values(|t: (&str, &str, &str)| (t.0@, t.1@, t.2@))
}

/// The bundled type schemas, ascending by (category, type): each with its
/// category, its type and the URI its text is registered under.
pub open spec fn type_table() -> Seq<(Seq<char>, Seq<char>, Seq<char>)> {
    seq![
        ("connection"@, "ddos"@, "https://xarf.org/schemas/v4/types/connection-ddos.json"@),
        ("connection"@, "infected_host"@, "https://xarf.org/schemas/v4/types/connection-infected-host.json"@),
        ("connection"@, "login_attack"@, "https://xarf.org/schemas/v4/types/connection-login-attack.json"@),
        ("connection"@, "port_scan"@, "https://xarf.org/schemas/v4/types/connection-port-scan.json"@),
        ("connection"@, "reconnaissance"@, "https://xarf.org/schemas/v4/types/connection-reconnaissance.json"@),
        ("connection"@, "scraping"@, "https://xarf.org/schemas/v4/types/connection-scraping.json"@),
        ("connection"@, "sql_injection"@, "https://xarf.org/schemas/v4/types/connection-sql-injection.json"@),
        ("connection"@, "vulnerability_scan"@, "https://xarf.org/schemas/v4/types/connection-vulnerability-scan.json"@),
        ("content"@, "brand_infringement"@, "https://xarf.org/schemas/v4/types/content-brand_infringement.json"@),
        ("content"@, "csam"@, "https://xarf.org/schemas/v4/types/content-csam.json"@),
        ("content"@, "csem"@, "https://xarf.org/schemas/v4/types/content-csem.json"@),
        ("content"@, "exposed_data"@, "https://xarf.org/schemas/v4/types/content-exposed-data.json"@),
        ("content"@, "fraud"@, "https://xarf.org/schemas/v4/types/content-fraud.json"@),
        ("content"@, "malware"@, "https://xarf.org/schemas/v4/types/content-malware.json"@),
        ("content"@, "phishing"@, "https://xarf.org/schemas/v4/types/content-phishing.json"@),
        ("content"@, "remote_compromise"@, "https://xarf.org/schemas/v4/types/content-remote_compromise.json"@),
        ("content"@, "suspicious_registration"@, "https://xarf.org/schemas/v4/types/content-suspicious_registration.json"@),
        ("copyright"@, "copyright"@, "https://xarf.org/schemas/v4/types/copyright-copyright.json"@),
        ("copyright"@, "cyberlocker"@, "https://xarf.org/schemas/v4/types/copyright-cyberlocker.json"@),
        ("copyright"@, "link_site"@, "https://xarf.org/schemas/v4/types/copyright-link-site.json"@),
        ("copyright"@, "p2p"@, "https://xarf.org/schemas/v4/types/copyright-p2p.json"@),
        ("copyright"@, "ugc_platform"@, "https://xarf.org/schemas/v4/types/copyright-ugc-platform.json"@),
        ("copyright"@, "usenet"@, "https://xarf.org/schemas/v4/types/copyright-usenet.json"@),
        ("infrastructure"@, "botnet"@, "https://xarf.org/schemas/v4/types/infrastructure-botnet.json"@),
        ("infrastructure"@, "compromised_server"@, "https://xarf.org/schemas/v4/types/infrastructure-compromised-server.json"@),
        ("messaging"@, "bulk_messaging"@, "https://xarf.org/schemas/v4/types/messaging-bulk-messaging.json"@),
        ("messaging"@, "spam"@, "https://xarf.org/schemas/v4/types/messaging-spam.json"@),
        ("reputation"@, "blocklist"@, "https://xarf.org/schemas/v4/types/reputation-blocklist.json"@),
        ("reputation"@, "threat_intelligence"@, "https://xarf.org/schemas/v4/types/reputation-threat-intelligence.json"@),
        ("vulnerability"@, "cve"@, "https://xarf.org/schemas/v4/types/vulnerability-cve.json"@),
        ("vulnerability"@, "misconfiguration"@, "https://xarf.org/schemas/v4/types/vulnerability-misconfiguration.json"@),
        ("vulnerability"@, "open_service"@, "https://xarf.org/schemas/v4/types/vulnerability-open-service.json"@),
    ]
}

/// One (category, type) pair before another: by category, then by type.
pub open spec fn pair_lt(a: (Seq<char>, Seq<char>, Seq<char>), b: (Seq<char>, Seq<char>, Seq<char>)) -> bool {
    seq_lt(a.0, b.0) || (a.0 == b.0 && seq_lt(a.1, b.1))
}

proof fn lemma_pair_lt_transitive(
    a: (Seq<char>, Seq<char>, Seq<char>),
    b: (Seq<char>, Seq<char>, Seq<char>),
    c: (Seq<char>, Seq<char>, Seq<char>),
)
    requires
        pair_lt(a, b),
        pair_lt(b, c),
    ensures
        pair_lt(a, c),
{
    if seq_lt(a.0, b.0) && seq_lt(b.0, c.0) {
        lemma_lt_transitive(a.0, b.0, c.0);
    } else if a.0 == b.0 && b.0 == c.0 {
        lemma_lt_transitive(a.1, b.1, c.1);
    }
}

proof fn lemma_type_table_adjacent(i: int)
    requires
        0 <= i < type_table().len() - 1,
    ensures
        pair_lt(type_table()[i], type_table()[i + 1]),
{
    let t = type_table();
    if i == 0 {
        reveal_strlit("ddos");
        reveal_strlit("infected_host");
        reveal_with_fuel(seq_lt, 2);
        assert(seq_lt("ddos"@, "infected_host"@));
    } else if i == 1 {
        reveal_strlit("infected_host");
        reveal_strlit("login_attack");
        reveal_with_fuel(seq_lt, 2);
        assert(seq_lt("infected_host"@, "login_attack"@));
    } else if i == 2 {
        reveal_strlit("login_attack");
        reveal_strlit("port_scan");
        reveal_with_fuel(seq_lt, 2);
        assert(seq_lt("login_attack"@, "port_scan"@));
    } else if i == 3 {
        reveal_strlit("port_scan");
        reveal_strlit("reconnaissance");
        reveal_with_fuel(seq_lt, 2);
        assert(seq_lt("port_scan"@, "reconnaissance"@));
    } else if i == 4 {
        reveal_strlit("reconnaissance");
        reveal_strlit("scraping");
        reveal_with_fuel(seq_lt, 2);
        assert(seq_lt("reconnaissance"@, "scraping"@));
    } else if i == 5 {
        reveal_strlit("scraping");
        reveal_strlit("sql_injection");
        reveal_with_fuel(seq_lt, 3);
        assert(seq_lt("scraping"@, "sql_injection"@));
    } else if i == 6 {
        reveal_strlit("sql_injection");
        reveal_strlit("vulnerability_scan");
        reveal_with_fuel(seq_lt, 2);
        assert(seq_lt("sql_injection"@, "vulnerability_scan"@));
    } else if i == 7 {
        reveal_strlit("connection");
        reveal_strlit("content");
        reveal_with_fuel(seq_lt, 5);
        assert(seq_lt("connection"@, "content"@));
    } else if i == 8 {
        reveal_strlit("brand_infringement");
        reveal_strlit("csam");
        reveal_with_fuel(seq_lt, 2);
        assert(seq_lt("brand_infringement"@, "csam"@));
    } else if i == 9 {
        reveal_strlit("csam");
        reveal_strlit("csem");
        reveal_with_fuel(seq_lt, 4);
        assert(seq_lt("csam"@, "csem"@));
    } else if i == 10 {
        reveal_strlit("csem");
        reveal_strlit("exposed_data");
        reveal_with_fuel(seq_lt, 2);
        assert(seq_lt("csem"@, "exposed_data"@));
    } else if i == 11 {
        reveal_strlit("exposed_data");
        reveal_strlit("fraud");
        reveal_with_fuel(seq_lt, 2);
        assert(seq_lt("exposed_data"@, "fraud"@));
    } else if i == 12 {
        reveal_strlit("fraud");
        reveal_strlit("malware");
        reveal_with_fuel(seq_lt, 2);
        assert(seq_lt("fraud"@, "malware"@));
    } else if i == 13 {
        reveal_strlit("malware");
        reveal_strlit("phishing");
        reveal_with_fuel(seq_lt, 2);
        assert(seq_lt("malware"@, "phishing"@));
    } else if i == 14 {
        reveal_strlit("phishing");
        reveal_strlit("remote_compromise");
        reveal_with_fuel(seq_lt, 2);
        assert(seq_lt("phishing"@, "remote_compromise"@));
    } else if i == 15 {
        reveal_strlit("remote_compromise");
        reveal_strlit("suspicious_registration");
        reveal_with_fuel(seq_lt, 2);
        assert(seq_lt("remote_compromise"@, "suspicious_registration"@));
    } else if i == 16 {
        reveal_strlit("content");
        reveal_strlit("copyright");
        reveal_with_fuel(seq_lt, 4);
        assert(seq_lt("content"@, "copyright"@));
    } else if i == 17 {
        reveal_strlit("copyright");
        reveal_strlit("cyberlocker");
        reveal_with_fuel(seq_lt, 3);
        assert(seq_lt("copyright"@, "cyberlocker"@));
    } else if i == 18 {
        reveal_strlit("cyberlocker");
        reveal_strlit("link_site");
        reveal_with_fuel(seq_lt, 2);
        assert(seq_lt("cyberlocker"@, "link_site"@));
    } else if i == 19 {
        reveal_strlit("link_site");
        reveal_strlit("p2p");
        reveal_with_fuel(seq_lt, 2);
        assert(seq_lt("link_site"@, "p2p"@));
    } else if i == 20 {
        reveal_strlit("p2p");
        reveal_strlit("ugc_platform");
        reveal_with_fuel(seq_lt, 2);
        assert(seq_lt("p2p"@, "ugc_platform"@));
    } else if i == 21 {
        reveal_strlit("ugc_platform");
        reveal_strlit("usenet");
        reveal_with_fuel(seq_lt, 3);
        assert(seq_lt("ugc_platform"@, "usenet"@));
    } else if i == 22 {
        reveal_strlit("copyright");
        reveal_strlit("infrastructure");
        reveal_with_fuel(seq_lt, 2);
        assert(seq_lt("copyright"@, "infrastructure"@));
    } else if i == 23 {
        reveal_strlit("botnet");
        reveal_strlit("compromised_server");
        reveal_with_fuel(seq_lt, 2);
        assert(seq_lt("botnet"@, "compromised_server"@));
    } else if i == 24 {
        reveal_strlit("infrastructure");
        reveal_strlit("messaging");
        reveal_with_fuel(seq_lt, 2);
        assert(seq_lt("infrastructure"@, "messaging"@));
    } else if i == 25 {
        reveal_strlit("bulk_messaging");
        reveal_strlit("spam");
        reveal_with_fuel(seq_lt, 2);
        assert(seq_lt("bulk_messaging"@, "spam"@));
    } else if i == 26 {
        reveal_strlit("messaging");
        reveal_strlit("reputation");
        reveal_with_fuel(seq_lt, 2);
        assert(seq_lt("messaging"@, "reputation"@));
    } else if i == 27 {
        reveal_strlit("blocklist");
        reveal_strlit("threat_intelligence");
        reveal_with_fuel(seq_lt, 2);
        assert(seq_lt("blocklist"@, "threat_intelligence"@));
    } else if i == 28 {
        reveal_strlit("reputation");
        reveal_strlit("vulnerability");
        reveal_with_fuel(seq_lt, 2);
        assert(seq_lt("reputation"@, "vulnerability"@));
    } else if i == 29 {
        reveal_strlit("cve");
        reveal_strlit("misconfiguration");
        reveal_with_fuel(seq_lt, 2);
        assert(seq_lt("cve"@, "misconfiguration"@));
    } else if i == 30 {
        reveal_strlit("misconfiguration");
        reveal_strlit("open_service");
        reveal_with_fuel(seq_lt, 2);
        assert(seq_lt("misconfiguration"@, "open_service"@));
    }
}

/// The type table lists its (category, type) pairs in strictly ascending
/// order, so the registry's known combinations come sorted and distinct.
pub proof fn lemma_type_table_ascending()
    ensures
        forall|i: int, j: int|
            0 <= i < j < type_table().len() ==> pair_lt(#[trigger] type_table()[i], #[trigger] type_table()[j]),
{
    assert forall|i: int, j: int| 0 <= i < j < type_table().len() implies pair_lt(
        #[trigger] type_table()[i],
        #[trigger] type_table()[j],
    ) by {
        lemma_type_table_chain(i, j);
    }
}

proof fn lemma_type_table_chain(i: int, j: int)
    requires
        0 <= i < j < type_table().len(),
    ensures
        pair_lt(type_table()[i], type_table()[j]),
    decreases j - i,
{
    lemma_type_table_adjacent(j - 1);
    if j > i + 1 {
        lemma_type_table_chain(i, j - 1);
        lemma_pair_lt_transitive(type_table()[i], type_table()[j - 1], type_table()[j]);
    }
}

/// The table of bundled type schemas, as [`type_table`] gives it.
pub fn type_schema_table() -> (r: Vec<(&'static str, &'static str, &'static str)>)
    ensures
        table_view(r@) == type_table(),
{
    let mut v: Vec<(&'static str, &'static str, &'static str)> = Vec::new();
    v.push(("connection", "ddos", "https://xarf.org/schemas/v4/types/connection-ddos.json"));
    v.push(("connection", "infected_host", "https://xarf.org/schemas/v4/types/connection-infected-host.json"));
    v.push(("connection", "login_attack", "https://xarf.org/schemas/v4/types/connection-login-attack.json"));
    v.push(("connection", "port_scan", "https://xarf.org/schemas/v4/types/connection-port-scan.json"));
    v.push(("connection", "reconnaissance", "https://xarf.org/schemas/v4/types/connection-reconnaissance.json"));
    v.push(("connection", "scraping", "https://xarf.org/schemas/v4/types/connection-scraping.json"));
    v.push(("connection", "sql_injection", "https://xarf.org/schemas/v4/types/connection-sql-injection.json"));
    v.push(("connection", "vulnerability_scan", "https://xarf.org/schemas/v4/types/connection-vulnerability-scan.json"));
    v.push(("content", "brand_infringement", "https://xarf.org/schemas/v4/types/content-brand_infringement.json"));
    v.push(("content", "csam", "https://xarf.org/schemas/v4/types/content-csam.json"));
    v.push(("content", "csem", "https://xarf.org/schemas/v4/types/content-csem.json"));
    v.push(("content", "exposed_data", "https://xarf.org/schemas/v4/types/content-exposed-data.json"));
    v.push(("content", "fraud", "https://xarf.org/schemas/v4/types/content-fraud.json"));
    v.push(("content", "malware", "https://xarf.org/schemas/v4/types/content-malware.json"));
    v.push(("content", "phishing", "https://xarf.org/schemas/v4/types/content-phishing.json"));
    v.push(("content", "remote_compromise", "https://xarf.org/schemas/v4/types/content-remote_compromise.json"));
    v.push(("content", "suspicious_registration", "https://xarf.org/schemas/v4/types/content-suspicious_registration.json"));
    v.push(("copyright", "copyright", "https://xarf.org/schemas/v4/types/copyright-copyright.json"));
    v.push(("copyright", "cyberlocker", "https://xarf.org/schemas/v4/types/copyright-cyberlocker.json"));
    v.push(("copyright", "link_site", "https://xarf.org/schemas/v4/types/copyright-link-site.json"));
    v.push(("copyright", "p2p", "https://xarf.org/schemas/v4/types/copyright-p2p.json"));
    v.push(("copyright", "ugc_platform", "https://xarf.org/schemas/v4/types/copyright-ugc-platform.json"));
    v.push(("copyright", "usenet", "https://xarf.org/schemas/v4/types/copyright-usenet.json"));
    v.push(("infrastructure", "botnet", "https://xarf.org/schemas/v4/types/infrastructure-botnet.json"));
    v.push(("infrastructure", "compromised_server", "https://xarf.org/schemas/v4/types/infrastructure-compromised-server.json"));
    v.push(("messaging", "bulk_messaging", "https://xarf.org/schemas/v4/types/messaging-bulk-messaging.json"));
    v.push(("messaging", "spam", "https://xarf.org/schemas/v4/types/messaging-spam.json"));
    v.push(("reputation", "blocklist", "https://xarf.org/schemas/v4/types/reputation-blocklist.json"));
    v.push(("reputation", "threat_intelligence", "https://xarf.org/schemas/v4/types/reputation-threat-intelligence.json"));
    v.push(("vulnerability", "cve", "https://xarf.org/schemas/v4/types/vulnerability-cve.json"));
    v.push(("vulnerability", "misconfiguration", "https://xarf.org/schemas/v4/types/vulnerability-misconfiguration.json"));
    v.push(("vulnerability", "open_service", "https://xarf.org/schemas/v4/types/vulnerability-open-service.json"));
    assert(table_view(v@) =~= type_table());
    v
}

/// URI of the core schema.
pub open spec fn core_uri() -> Seq<char> {
    "https://xarf.org/schemas/v4/xarf-core.json"@
}

/// URI of the master schema.
pub open spec fn master_uri() -> Seq<char> {
    "https://xarf.org/schemas/v4/xarf-v4-master.json"@
}

/// URI of the content base schema that the content types refer to.
pub open spec fn content_base_uri() -> Seq<char> {
    "https://xarf.org/schemas/v4/types/content-base.json"@
}

/// The texts of the bundled schemas: core, master, content base, and one
/// per row of [`type_table`], in the table's order.
#[derive(Debug)]
pub struct SchemaSources {
    pub core: String,
    pub master: String,
    pub content_base: String,
    pub types: Vec<String>,
}

/// One type schema with what is drawn from it.
#[derive(Debug)]
struct TypeSchemaEntry {
    category: String,
    type_: String,
    parsed: JsonValue,
    known_fields: Vec<String>,
    optional_fields: Vec<FieldMeta>,
}

/// The model of a type schema entry.
pub ghost struct TypeEntryModel {
    pub category: Seq<char>,
    pub type_: Seq<char>,
    pub parsed: Json,
    pub known_fields: Seq<Seq<char>>,
    pub optional_fields: Seq<FieldMetaModel>,
}

/// The parsed schemas and what is drawn from them.
#[derive(Debug)]
pub struct SchemaRegistry {
    core_schema: JsonValue,
    master_schema: JsonValue,
    master_schema_strict: JsonValue,
    core_property_names: Vec<String>,
    core_required: Vec<String>,
    core_optional: Vec<FieldMeta>,
    type_schemas: Vec<TypeSchemaEntry>,
    documents: Vec<(String, JsonValue)>,
    documents_strict: Vec<(String, JsonValue)>,
    checker: Result<CompiledSchema, String>,
    checker_strict: Result<CompiledSchema, String>,
}

/// `checker` was compiled from `schema` with `documents`, or failed with
/// the message that checking any instance against them gives.
pub open spec fn checker_agrees(
    checker: Result<CompiledSchema, String>,
    schema: Json,
    documents: Seq<(Seq<char>, Json)>,
) -> bool {
    match checker {
        Ok(c) => c.schema() == schema && c.documents() == documents,
        Err(e) => forall|instance: Json|
            #[trigger] schema_errors(schema, documents, instance) == Err::<
                Seq<(Seq<char>, Seq<char>)>,
                Seq<char>,
            >(e@),
    }
}

/// The model of a [`SchemaRegistry`].
pub ghost struct RegistryModel {
    pub core: Json,
    pub master: Json,
    pub master_strict: Json,
    pub core_property_names: Seq<Seq<char>>,
    pub core_required: Seq<Seq<char>>,
    pub core_optional: Seq<FieldMetaModel>,
    pub types: Seq<TypeEntryModel>,
    pub documents: Seq<(Seq<char>, Json)>,
    pub documents_strict: Seq<(Seq<char>, Json)>,
}

spec fn entry_view(e: TypeSchemaEntry) -> TypeEntryModel {
    TypeEntryModel {
        category: e.category@,
        type_: e.type_@,
        parsed: e.parsed@,
        known_fields: strings_view(e.known_fields@),
        optional_fields: metas_view(e.optional_fields@),
    }
}

impl SchemaRegistry {
    pub closed spec fn model(self) -> RegistryModel {
        RegistryModel {
            core: self.core_schema@,
            master: self.master_schema@,
            master_strict: self.master_schema_strict@,
            core_property_names: strings_view(self.core_property_names@),
            core_required: strings_view(self.core_required@),
            core_optional: metas_view(self.core_optional@),
            types: self.type_schemas@.map_values(|e: TypeSchemaEntry| entry_view(e)),
            documents: entries_view(self.documents@),
            documents_strict: entries_view(self.documents_strict@),
        }
    }
}

impl SchemaRegistry {
    /// The compiled master schemas belong to the master schemas and
    /// documents the registry holds.
    #[verifier::type_invariant]
    spec fn checkers_agree(self) -> bool {
        &&& checker_agrees(self.checker, self.master_schema@, entries_view(self.documents@))
        &&& checker_agrees(
            self.checker_strict,
            self.master_schema_strict@,
            entries_view(self.documents_strict@),
        )
    }
}

impl View for SchemaRegistry {
    type V = RegistryModel;

    open spec fn view(&self) -> RegistryModel {
        self.model()
    }
}

/// Each document with its schema promoted.
pub open spec fn promote_documents(docs: Seq<(Seq<char>, Json)>) -> Seq<(Seq<char>, Json)> {
    docs.map_values(|d: (Seq<char>, Json)| (d.0, promote(d.1)))
}

/// The documents a registry resolves references against: the core, master
/// and content base schemas, then each type schema under its URI.
pub open spec fn registry_documents(core: Json, master: Json, base: Json, parsed: Seq<Json>) -> Seq<
    (Seq<char>, Json),
> {
    seq![(core_uri(), core), (master_uri(), master), (content_base_uri(), base)] + Seq::new(
        parsed.len(),
        |i: int| (type_table()[i].2, parsed[i]),
    )
}

/// The entry drawn from the `i`-th type schema.
pub open spec fn entry_built(e: TypeEntryModel, i: int, parsed: Json, base: Json) -> bool {
    &&& e.category == type_table()[i].0
    &&& e.type_ == type_table()[i].1
    &&& e.parsed == parsed
    &&& known_fields_of(e.known_fields, parsed, base)
    &&& e.optional_fields == type_optional(parsed, Some(base), Seq::empty(), Seq::empty())
}

/// A registry built from the parsed core, master and content base schemas
/// and the parsed type schemas, in table order.
pub open spec fn registry_built(
    reg: RegistryModel,
    core: Json,
    master: Json,
    base: Json,
    parsed: Seq<Json>,
) -> bool {
    &&& parsed.len() == type_table().len()
    &&& reg.core == core
    &&& reg.master == master
    &&& reg.master_strict == promote(master)
    &&& reg.core_property_names == obj_keys(member_object(core, "properties"@))
    &&& reg.core_required == required_of(core)
    &&& reg.core_optional == core_optional(core, required_of(core))
    &&& names_ascending(reg.core_optional)
    &&& reg.types.len() == parsed.len()
    &&& forall|i: int| 0 <= i < parsed.len() ==> entry_built(#[trigger] reg.types[i], i, parsed[i], base)
    &&& reg.documents == registry_documents(core, master, base, parsed)
    &&& reg.documents_strict == promote_documents(registry_documents(core, master, base, parsed))
}

/// The first error met parsing the type schema texts from the `i`-th on.
pub open spec fn type_parse_error(texts: Seq<Seq<char>>, i: int) -> Option<Seq<char>>
    decreases texts.len() - i,
{
    if i < 0 || i >= texts.len() {
        None
    } else {
        match decoded_json(texts[i]) {
            Err(e) => Some(
                "type schema parse failed for "@ + type_table()[i].0 + "/"@ + type_table()[i].1
                    + ": "@ + e,
            ),
            Ok(_) => type_parse_error(texts, i + 1),
        }
    }
}

/// The first error met parsing the schema texts, in the order core,
/// master, content base, types.
pub open spec fn build_error(core: Seq<char>, master: Seq<char>, base: Seq<char>, texts: Seq<
    Seq<char>,
>) -> Option<Seq<char>> {
    match decoded_json(core) {
        Err(e) => Some("core schema parse: "@ + e),
        Ok(_) => match decoded_json(master) {
            Err(e) => Some("master schema parse: "@ + e),
            Ok(_) => match decoded_json(base) {
                Err(e) => Some("content-base parse: "@ + e),
                Ok(_) => type_parse_error(texts, 0),
            },
        },
    }
}

/// The parsed schema, once parsing succeeded.
pub open spec fn parsed_of(text: Seq<char>) -> Json {
    match decoded_json(text) {
        Ok(j) => j,
        Err(_) => Json::Null,
    }
}

fn clone_documents(docs: &Vec<(String, JsonValue)>) -> (r: Vec<(String, JsonValue)>)
    ensures
        entries_view(r@) == entries_view(docs@),
{
    let n = docs.len();
    let mut out: Vec<(String, JsonValue)> = Vec::new();
    let mut i: usize = 0;
    while i < n
        invariant
            n == docs@.len(),
            i <= n,
            out@.len() == i,
            forall|j: int|
                0 <= j < i ==> #[trigger] out@[j].0@ == docs@[j].0@ && out@[j].1@ == docs@[j].1@,
        decreases n - i,
    {
        out.push((docs[i].0.clone(), docs[i].1.clone()));
        i = i + 1;
    }
    proof {
        lemma_entries_view(out@);
        lemma_entries_view(docs@);
        assert(entries_view(out@) =~= entries_view(docs@));
    }
    out
}

fn documents_promoted(docs: &Vec<(String, JsonValue)>) -> (r: Vec<(String, JsonValue)>)
    ensures
        entries_view(r@) == promote_documents(entries_view(docs@)),
{
    let n = docs.len();
    let ghost dv = entries_view(docs@);
    proof {
        lemma_entries_view(docs@);
    }
    let mut out: Vec<(String, JsonValue)> = Vec::new();
    let mut i: usize = 0;
    while i < n
        invariant
            n == docs@.len(),
            dv == entries_view(docs@),
            dv.len() == n,
            forall|j: int| 0 <= j < n ==> #[trigger] dv[j] == (docs@[j].0@, json_view(docs@[j].1)),
            i <= n,
            out@.len() == i,
            forall|j: int|
                0 <= j < i ==> (#[trigger] out@[j].0@, json_view(out@[j].1)) == (dv[j].0, promote(
                    dv[j].1,
                )),
        decreases n - i,
    {
        let p = promoted(&docs[i].1);
        out.push((docs[i].0.clone(), p));
        i = i + 1;
    }
    proof {
        lemma_entries_view(out@);
        assert(entries_view(out@) =~= promote_documents(dv));
    }
    out
}

impl SchemaRegistry {
    /// Parse the schema texts and draw from them the core field lists, the
    /// known and optional fields of each type, and the documents (plain and
    /// promoted for strict mode) that references resolve against. A list of
    /// type schema texts that does not hold one text per row of the type
    /// table is refused.
    pub fn build(sources: &SchemaSources) -> (r: Result<SchemaRegistry, XarfError>)
        ensures
            sources.types@.len() != type_table().len() ==> (r matches Err(e) && e@
                == XarfErrorModel::Schema(type_count_message(sources.types@.len()))),
            sources.types@.len() == type_table().len() ==> match r {
                Ok(reg) => build_error(
                    sources.core@,
                    sources.master@,
                    sources.content_base@,
                    strings_view(sources.types@),
                ) is None && registry_built(
                    reg@,
                    parsed_of(sources.core@),
                    parsed_of(sources.master@),
                    parsed_of(sources.content_base@),
                    strings_view(sources.types@).map_values(|t: Seq<char>| parsed_of(t)),
                ),
                Err(e) => build_error(
                    sources.core@,
                    sources.master@,
                    sources.content_base@,
                    strings_view(sources.types@),
                ) == Some(e@->Schema_0) && e@ is Schema,
            },
    {
        let table = type_schema_table();
        if sources.types.len() != table.len() {
            let head = concat("expected ", decimal_string(table.len() as u64).as_str());
            let head = concat(head.as_str(), " type schema texts, got ");
            let msg = concat(head.as_str(), decimal_string(sources.types.len() as u64).as_str());
            return Err(XarfError::Schema(msg));
        }
        Self::build_checked(sources)
    }

    /// [`SchemaRegistry::build`] once the type texts are known to match the
    /// table row for row.
    fn build_checked(sources: &SchemaSources) -> (r: Result<SchemaRegistry, XarfError>)
        requires
            sources.types@.len() == type_table().len(),
        ensures
            match r {
                Ok(reg) => build_error(
                    sources.core@,
                    sources.master@,
                    sources.content_base@,
                    strings_view(sources.types@),
                ) is None && registry_built(
                    reg@,
                    parsed_of(sources.core@),
                    parsed_of(sources.master@),
                    parsed_of(sources.content_base@),
                    strings_view(sources.types@).map_values(|t: Seq<char>| parsed_of(t)),
                ),
                Err(e) => build_error(
                    sources.core@,
                    sources.master@,
                    sources.content_base@,
                    strings_view(sources.types@),
                ) == Some(e@->Schema_0) && e@ is Schema,
            },
    {
        let ghost texts = strings_view(sources.types@);
        let core = match decode_json(sources.core.as_str()) {
            Ok(v) => v,
            Err(e) => {
                return Err(XarfError::Schema(concat("core schema parse: ", e.as_str())));
            },
        };
        let master = match decode_json(sources.master.as_str()) {
            Ok(v) => v,
            Err(e) => {
                return Err(XarfError::Schema(concat("master schema parse: ", e.as_str())));
            },
        };
        let content_base = match decode_json(sources.content_base.as_str()) {
            Ok(v) => v,
            Err(e) => {
                return Err(XarfError::Schema(concat("content-base parse: ", e.as_str())));
            },
        };
        let core_property_names = match core.get("properties") {
            Some(JsonValue::Object(p)) => key_list(p),
            _ => Vec::new(),
        };
        assert(strings_view(core_property_names@) =~= obj_keys(member_object(core@, "properties"@)));
        let core_required = match &core {
            JsonValue::Object(m) => required_list(m),
            _ => Vec::new(),
        };
        assert(strings_view(core_required@) =~= required_of(core@));
        let core_optional = build_core_optional(&core, &core_required);
        let table = type_schema_table();
        let mut documents: Vec<(String, JsonValue)> = Vec::new();
        documents.push((owned("https://xarf.org/schemas/v4/xarf-core.json"), core.clone()));
        documents.push((owned("https://xarf.org/schemas/v4/xarf-v4-master.json"), master.clone()));
        documents.push(
            (owned("https://xarf.org/schemas/v4/types/content-base.json"), content_base.clone()),
        );
        let mut type_schemas: Vec<TypeSchemaEntry> = Vec::new();
        let ghost parsed = texts.map_values(|t: Seq<char>| parsed_of(t));
        let n = sources.types.len();
        proof {
            lemma_entries_view(documents@);
        }
        let mut i: usize = 0;
        while i < n
            invariant
                n == sources.types@.len(),
                n == type_table().len(),
                decoded_json(sources.core@) == Ok::<Json, Seq<char>>(core@),
                decoded_json(sources.master@) == Ok::<Json, Seq<char>>(master@),
                decoded_json(sources.content_base@) == Ok::<Json, Seq<char>>(content_base@),
                texts == strings_view(sources.types@),
                parsed == texts.map_values(|t: Seq<char>| parsed_of(t)),
                table_view(table@) == type_table(),
                i <= n,
                type_schemas@.len() == i,
                forall|j: int| 0 <= j < i ==> decoded_json(#[trigger] texts[j]) is Ok,
                type_parse_error(texts, 0) == type_parse_error(texts, i as int),
                forall|j: int|
                    0 <= j < i ==> entry_built(
                        #[trigger] entry_view(type_schemas@[j]),
                        j,
                        parsed[j],
                        content_base@,
                    ),
                entries_view(documents@) == registry_documents(
                    core@,
                    master@,
                    content_base@,
                    parsed.take(i as int),
                ),
            decreases n - i,
        {
            let (category, type_, uri) = table[i];
            assert(category@ == type_table()[i as int].0);
            assert(type_@ == type_table()[i as int].1);
            assert(uri@ == type_table()[i as int].2);
            let parsed_i = match decode_json(sources.types[i].as_str()) {
                Ok(v) => v,
                Err(e) => {
                    let head = concat("type schema parse failed for ", category);
                    let head = concat(head.as_str(), "/");
                    let head = concat(head.as_str(), type_);
                    let head = concat(head.as_str(), ": ");
                    let msg = concat(head.as_str(), e.as_str());
                    return Err(XarfError::Schema(msg));
                },
            };
            assert(parsed_i@ == parsed[i as int]);
            let known_fields = build_known_fields(&parsed_i, &content_base);
            let optional_fields = build_optional_fields(&parsed_i, &content_base);
            let ghost old_docs = documents@;
            documents.push((owned(uri), parsed_i.clone()));
            proof {
                lemma_entries_view(old_docs);
                lemma_entries_view(documents@);
                assert(entries_view(documents@) =~= entries_view(old_docs).push((uri@, parsed_i@)));
                let a = registry_documents(core@, master@, content_base@, parsed.take(i as int));
                let b = registry_documents(core@, master@, content_base@, parsed.take(i + 1));
                assert(b.len() == a.len() + 1);
                assert forall|j: int| 0 <= j < b.len() implies #[trigger] b[j] == a.push(
                    (uri@, parsed_i@),
                )[j] by {
                    if j >= 3 && j < a.len() {
                        assert(parsed.take(i + 1)[j - 3] == parsed.take(i as int)[j - 3]);
                    }
                }
                assert(b =~= a.push((uri@, parsed_i@)));
            }
            type_schemas.push(
                TypeSchemaEntry {
                    category: owned(category),
                    type_: owned(type_),
                    parsed: parsed_i,
                    known_fields,
                    optional_fields,
                },
            );
            i = i + 1;
        }
        assert(parsed.take(n as int) =~= parsed);
        let master_schema_strict = promoted(&master);
        let documents_strict = documents_promoted(&documents);
        let checker = CompiledSchema::compile(master.clone(), clone_documents(&documents));
        let checker_strict = CompiledSchema::compile(
            master_schema_strict.clone(),
            clone_documents(&documents_strict),
        );
        let reg = SchemaRegistry {
            core_schema: core,
            master_schema: master,
            master_schema_strict,
            core_property_names,
            core_required,
            core_optional,
            type_schemas,
            documents,
            documents_strict,
            checker,
            checker_strict,
        };
        proof {
            assert(type_parse_error(texts, n as int) is None);
            assert(reg@.types.len() == parsed.len());
            assert forall|j: int| 0 <= j < parsed.len() implies entry_built(
                #[trigger] reg@.types[j],
                j,
                parsed[j],
                content_base@,
            ) by {
                assert(reg@.types[j] == entry_view(reg.type_schemas@[j]));
            }
        }
        Ok(reg)
    }
}

/// The master schema validation uses: promoted in strict mode.
pub open spec fn master_of(reg: RegistryModel, strict: bool) -> Json {
    if strict {
        reg.master_strict
    } else {
        reg.master
    }
}

/// The documents references resolve against: promoted in strict mode.
pub open spec fn documents_of(reg: RegistryModel, strict: bool) -> Seq<(Seq<char>, Json)> {
    if strict {
        reg.documents_strict
    } else {
        reg.documents
    }
}

/// The error for a list of type schema texts of the wrong length.
pub open spec fn type_count_message(n: nat) -> Seq<char> {
    "expected "@ + decimal(type_table().len()) + " type schema texts, got "@ + decimal(n)
}

/// The index of the first entry for `(category, type)`.
pub open spec fn type_index(types: Seq<TypeEntryModel>, category: Seq<char>, type_: Seq<char>) -> Option<
    int,
>
    decreases types.len(),
{
    if types.len() == 0 {
        None
    } else {
        match type_index(types.drop_last(), category, type_) {
            Some(i) => Some(i),
            None => if types.last().category == category && types.last().type_ == type_ {
                Some(types.len() - 1)
            } else {
                None
            },
        }
    }
}

pub proof fn lemma_type_index(types: Seq<TypeEntryModel>, category: Seq<char>, type_: Seq<char>)
    ensures
        match type_index(types, category, type_) {
            Some(i) => 0 <= i < types.len() && types[i].category == category && types[i].type_
                == type_,
            None => forall|j: int|
                0 <= j < types.len() ==> !(#[trigger] types[j].category == category
                    && types[j].type_ == type_),
        },
    decreases types.len(),
{
    if types.len() > 0 {
        lemma_type_index(types.drop_last(), category, type_);
        match type_index(types.drop_last(), category, type_) {
            Some(i) => {
                assert(types.drop_last()[i] == types[i]);
            },
            None => {
                assert forall|j: int| 0 <= j < types.len() - 1 implies !(
                #[trigger] types[j].category == category && types[j].type_ == type_) by {
                    assert(types.drop_last()[j] == types[j]);
                }
            },
        }
    }
}

impl SchemaRegistry {
    fn find_entry(&self, category: &str, type_: &str) -> (r: Option<usize>)
        ensures
            match r {
                Some(i) => type_index(self@.types, category@, type_@) == Some(i as int) && i
                    < self.type_schemas@.len(),
                None => type_index(self@.types, category@, type_@) is None,
            },
    {
        let n = self.type_schemas.len();
        let ghost ts = self@.types;
        assert(ts.take(0) =~= Seq::<TypeEntryModel>::empty());
        let wanted_category = String::from_str(category);
        let wanted_type = String::from_str(type_);
        let mut i: usize = 0;
        while i < n
            invariant
                n == self.type_schemas@.len(),
                ts == self@.types,
                ts.len() == n,
                forall|j: int| 0 <= j < n ==> #[trigger] ts[j] == entry_view(self.type_schemas@[j]),
                i <= n,
                type_index(ts.take(i as int), category@, type_@) is None,
                wanted_category@ == category@,
                wanted_type@ == type_@,
            decreases n - i,
        {
            assert(ts.take(i + 1).drop_last() =~= ts.take(i as int));
            let e = &self.type_schemas[i];
            if e.category == wanted_category && e.type_ == wanted_type {
                proof {
                    lemma_type_index_prefix(ts, category@, type_@, i + 1);
                }
                return Some(i);
            }
            i = i + 1;
        }
        assert(ts.take(n as int) =~= ts);
        None
    }

    /// The parsed core schema.
    pub fn core_schema(&self) -> (r: &JsonValue)
        ensures
            r@ == self@.core,
    {
        &self.core_schema
    }

    /// The parsed master schema.
    pub fn master_schema(&self) -> (r: &JsonValue)
        ensures
            r@ == self@.master,
    {
        &self.master_schema
    }

    /// The violations the engine finds in `instance` against the master
    /// schema (promoted in strict mode), or the message of the error that
    /// stopped that schema from compiling.
    pub(crate) fn violations_for(&self, strict: bool, instance: &JsonValue) -> (r: Result<
        Vec<(String, String)>,
        String,
    >)
        ensures
            schema_errors(
                if strict {
                    self@.master_strict
                } else {
                    self@.master
                },
                if strict {
                    self@.documents_strict
                } else {
                    self@.documents
                },
                instance@,
            ) == match r {
                Ok(v) => Ok::<Seq<(Seq<char>, Seq<char>)>, Seq<char>>(pairs_view(v@)),
                Err(e) => Err::<Seq<(Seq<char>, Seq<char>)>, Seq<char>>(e@),
            },
    {
        proof {
            use_type_invariant(self);
        }
        let checker = if strict {
            &self.checker_strict
        } else {
            &self.checker
        };
        match checker {
            Ok(c) => Ok(c.violations(instance)),
            Err(e) => Err(e.clone()),
        }
    }

    /// The parsed type schema for `(category, type)`, if any.
    pub fn type_schema(&self, category: &str, type_: &str) -> (r: Option<&JsonValue>)
        ensures
            match r {
                Some(v) => exists|i: int|
                    type_index(self@.types, category@, type_@) == Some(i) && v@
                        == self@.types[i].parsed,
                None => type_index(self@.types, category@, type_@) is None,
            },
    {
        match self.find_entry(category, type_) {
            Some(i) => {
                assert(self@.types[i as int] == entry_view(self.type_schemas@[i as int]));
                Some(&self.type_schemas[i].parsed)
            },
            None => None,
        }
    }

    /// The compiled master schema (promoted in strict mode), compiled when
    /// the registry was built; or the compile error, as a `Schema` error.
    pub fn master_validator(&self, strict: bool) -> (r: Result<&CompiledSchema, XarfError>)
        ensures
            match r {
                Ok(c) => c.schema() == master_of(self@, strict) && c.documents() == documents_of(
                    self@,
                    strict,
                ),
                Err(e) => exists|m: Seq<char>|
                    e@ == XarfErrorModel::Schema("schema compile: "@ + m) && forall|instance: Json|
                        #[trigger] schema_errors(
                            master_of(self@, strict),
                            documents_of(self@, strict),
                            instance,
                        ) == Err::<Seq<(Seq<char>, Seq<char>)>, Seq<char>>(m),
            },
    {
        proof {
            use_type_invariant(self);
        }
        let checker = if strict {
            &self.checker_strict
        } else {
            &self.checker
        };
        match checker {
            Ok(c) => Ok(c),
            Err(m) => Err(XarfError::Schema(concat("schema compile: ", m.as_str()))),
        }
    }

    /// The core schema compiled with the registry's documents.
    pub fn core_validator(&self) -> (r: Result<CompiledSchema, XarfError>)
        ensures
            match r {
                Ok(c) => c.schema() == self@.core && c.documents() == self@.documents,
                Err(e) => exists|m: Seq<char>|
                    e@ == XarfErrorModel::Schema("schema compile: "@ + m) && forall|instance: Json|
                        #[trigger] schema_errors(self@.core, self@.documents, instance) == Err::<
                            Seq<(Seq<char>, Seq<char>)>,
                            Seq<char>,
                        >(m),
            },
    {
        match CompiledSchema::compile(self.core_schema.clone(), clone_documents(&self.documents)) {
            Ok(c) => Ok(c),
            Err(m) => Err(XarfError::Schema(concat("schema compile: ", m.as_str()))),
        }
    }

    /// The type schema of `(category, type)` compiled with the registry's
    /// documents; `None` for an unknown combination.
    pub fn type_validator(&self, category: &str, type_: &str) -> (r: Result<
        Option<CompiledSchema>,
        XarfError,
    >)
        ensures
            match type_index(self@.types, category@, type_@) {
                None => r matches Ok(None),
                Some(i) => match r {
                    Ok(Some(c)) => c.schema() == self@.types[i].parsed && c.documents()
                        == self@.documents,
                    Ok(None) => false,
                    Err(e) => exists|m: Seq<char>|
                        e@ == XarfErrorModel::Schema("schema compile: "@ + m) && forall|instance: Json|
                            #[trigger] schema_errors(self@.types[i].parsed, self@.documents, instance)
                                == Err::<Seq<(Seq<char>, Seq<char>)>, Seq<char>>(m),
                },
            },
    {
        match self.find_entry(category, type_) {
            None => Ok(None),
            Some(i) => {
                assert(self@.types[i as int] == entry_view(self.type_schemas@[i as int]));
                match CompiledSchema::compile(
                    self.type_schemas[i].parsed.clone(),
                    clone_documents(&self.documents),
                ) {
                    Ok(c) => Ok(Some(c)),
                    Err(m) => Err(XarfError::Schema(concat("schema compile: ", m.as_str()))),
                }
            },
        }
    }

    /// Whether `(category, type)` is one of the defined combinations.
    pub fn is_known_combination(&self, category: &str, type_: &str) -> (r: bool)
        ensures
            r == type_index(self@.types, category@, type_@) is Some,
    {
        self.find_entry(category, type_).is_some()
    }

    /// The known field names of `(category, type)`, ascending, if defined.
    pub fn type_known_fields(&self, category: &str, type_: &str) -> (r: Option<&Vec<String>>)
        ensures
            match r {
                Some(v) => exists|i: int|
                    type_index(self@.types, category@, type_@) == Some(i) && strings_view(v@)
                        == self@.types[i].known_fields,
                None => type_index(self@.types, category@, type_@) is None,
            },
    {
        match self.find_entry(category, type_) {
            Some(i) => {
                assert(self@.types[i as int] == entry_view(self.type_schemas@[i as int]));
                Some(&self.type_schemas[i].known_fields)
            },
            None => None,
        }
    }

    /// The optional fields of `(category, type)`, in declaration order, if
    /// defined.
    pub fn type_optional_fields(&self, category: &str, type_: &str) -> (r: Option<&Vec<FieldMeta>>)
        ensures
            match r {
                Some(v) => exists|i: int|
                    type_index(self@.types, category@, type_@) == Some(i) && metas_view(v@)
                        == self@.types[i].optional_fields,
                None => type_index(self@.types, category@, type_@) is None,
            },
    {
        match self.find_entry(category, type_) {
            Some(i) => {
                assert(self@.types[i as int] == entry_view(self.type_schemas@[i as int]));
                Some(&self.type_schemas[i].optional_fields)
            },
            None => None,
        }
    }

    /// The core schema's property names, in order.
    pub fn core_property_names_slice(&self) -> (r: &Vec<String>)
        ensures
            strings_view(r@) == self@.core_property_names,
    {
        &self.core_property_names
    }

    /// The core schema's required field names.
    pub fn core_required_slice(&self) -> (r: &Vec<String>)
        ensures
            strings_view(r@) == self@.core_required,
    {
        &self.core_required
    }

    /// The optional core fields.
    pub fn core_optional_fields(&self) -> (r: &Vec<FieldMeta>)
        ensures
            metas_view(r@) == self@.core_optional,
    {
        &self.core_optional
    }

    /// Every `(category, type)` combination, ascending.
    pub fn known_combinations(&self) -> (r: Vec<(String, String)>)
        ensures
            r@.len() == self@.types.len(),
            forall|i: int|
                0 <= i < r@.len() ==> (#[trigger] r@[i].0@, r@[i].1@) == (
                    self@.types[i].category,
                    self@.types[i].type_,
                ),
    {
        let n = self.type_schemas.len();
        let mut out: Vec<(String, String)> = Vec::new();
        let mut i: usize = 0;
        while i < n
            invariant
                n == self.type_schemas@.len(),
                n == self@.types.len(),
                forall|j: int| 0 <= j < n ==> #[trigger] self@.types[j] == entry_view(self.type_schemas@[j]),
                i <= n,
                out@.len() == i,
                forall|j: int|
                    0 <= j < i ==> (#[trigger] out@[j].0@, out@[j].1@) == (
                        self@.types[j].category,
                        self@.types[j].type_,
                    ),
            decreases n - i,
        {
            let e = &self.type_schemas[i];
            out.push((e.category.clone(), e.type_.clone()));
            i = i + 1;
        }
        out
    }
}

proof fn lemma_type_index_prefix(ts: Seq<TypeEntryModel>, category: Seq<char>, type_: Seq<char>, k: int)
    requires
        0 < k <= ts.len(),
        type_index(ts.take(k - 1), category, type_) is None,
        ts[k - 1].category == category && ts[k - 1].type_ == type_,
    ensures
        type_index(ts, category, type_) == Some(k - 1),
    decreases ts.len() - k,
{
    if k == ts.len() {
        assert(ts.take(k - 1) =~= ts.drop_last());
    } else {
        assert(ts.drop_last().take(k - 1) =~= ts.take(k - 1));
        assert(ts.drop_last()[k - 1] == ts[k - 1]);
        lemma_type_index_prefix(ts.drop_last(), category, type_, k);
    }
}

/// The property names of the core schema, in order.
pub fn core_property_names(reg: &SchemaRegistry) -> (r: Vec<String>)
    ensures
        strings_view(r@) == reg@.core_property_names,
{
    clone_strings(reg.core_property_names_slice())
}

/// The required field names of the core schema.
pub fn core_required_fields(reg: &SchemaRegistry) -> (r: Vec<String>)
    ensures
        strings_view(r@) == reg@.core_required,
{
    clone_strings(reg.core_required_slice())
}

/// Whether the list holds the string `s`.
pub fn vec_contains_str(v: &Vec<String>, s: &str) -> (r: bool)
    ensures
        r == strings_view(v@).contains(s@),
{
    let n = v.len();
    let mut i: usize = 0;
    while i < n
        invariant
            n == v@.len(),
            i <= n,
            forall|j: int| 0 <= j < i ==> v@[j]@ != s@,
        decreases n - i,
    {
        if str_eq(v[i].as_str(), s) {
            assert(strings_view(v@)[i as int] == s@);
            return true;
        }
        i = i + 1;
    }
    proof {
        if strings_view(v@).contains(s@) {
            let j = choose|j: int| 0 <= j < strings_view(v@).len() && strings_view(v@)[j] == s@;
            assert(v@[j]@ == s@);
        }
    }
    false
}

/// Whether the value is the boolean `true`.
fn is_true(v: Option<&JsonValue>) -> (r: bool)
    ensures
        r == (match v {
            Some(x) => x@ == Json::Bool(true),
            None => false,
        }),
{
    match v {
        Some(JsonValue::Bool(b)) => *b,
        _ => false,
    }
}

/// Whether the schema `v` is flagged recommended.
fn is_flagged(v: &JsonValue) -> (r: bool)
    ensures
        r == flagged_recommended(v@),
{
    match v {
        JsonValue::Object(m) => is_true(m.get("x-recommended")),
        _ => false,
    }
}

/// The names of the flagged members of `props`.
fn recommended_in(props: &JsonMap) -> (r: Vec<String>)
    ensures
        strings_view(r@) == recommended_names(props@),
{
    let es = props.entries();
    let ghost pe = props@;
    let n = es.len();
    proof {
        lemma_entries_view(es@);
        assert(pe.take(0) =~= Seq::<(Seq<char>, Json)>::empty());
        assert(strings_view(Seq::<String>::empty()) =~= Seq::<Seq<char>>::empty());
    }
    let mut out: Vec<String> = Vec::new();
    let mut i: usize = 0;
    while i < n
        invariant
            n == es@.len(),
            pe == props@,
            pe == entries_view(es@),
            pe.len() == n,
            forall|j: int| 0 <= j < n ==> #[trigger] pe[j] == (es@[j].0@, json_view(es@[j].1)),
            i <= n,
            strings_view(out@) == recommended_names(pe.take(i as int)),
        decreases n - i,
    {
        assert(pe.take(i + 1).drop_last() =~= pe.take(i as int));
        assert(pe.take(i + 1).last() == pe[i as int]);
        if is_flagged(&es[i].1) {
            out.push(es[i].0.clone());
            assert(strings_view(out@) =~= strings_view(out@.drop_last()).push(es@[i as int].0@));
        }
        i = i + 1;
    }
    assert(pe.take(n as int) =~= pe);
    out
}

/// The names listed in the `required` array of the node `m`.
fn required_list(m: &JsonMap) -> (r: Vec<String>)
    ensures
        strings_view(r@) == required_of(Json::Object(m@)),
{
    let mut out: Vec<String> = Vec::new();
    proof {
        assert(strings_view(out@) =~= Seq::<Seq<char>>::empty());
    }
    match m.get("required") {
        Some(JsonValue::Array(a)) => {
            let n = a.len();
            let ghost av = json_view_seq(a@);
            proof {
                lemma_view_seq(a@);
                assert(av.take(0) =~= Seq::<Json>::empty());
            }
            let mut i: usize = 0;
            while i < n
                invariant
                    n == a@.len(),
                    av == json_view_seq(a@),
                    av.len() == n,
                    forall|j: int| 0 <= j < n ==> #[trigger] av[j] == json_view(a@[j]),
                    i <= n,
                    strings_view(out@) == string_items(av.take(i as int)),
                decreases n - i,
            {
                assert(av.take(i + 1).drop_last() =~= av.take(i as int));
                assert(av.take(i + 1).last() == av[i as int]);
                match &a[i] {
                    JsonValue::String(s) => {
                        out.push(s.clone());
                        assert(strings_view(out@) =~= strings_view(out@.drop_last()).push(s@));
                    },
                    _ => {},
                }
                i = i + 1;
            }
            assert(av.take(n as int) =~= av);
            out
        },
        _ => out,
    }
}

/// `existing` followed by each name of `add` it lacks.
fn merge_into(existing: Vec<String>, add: &Vec<String>) -> (r: Vec<String>)
    ensures
        strings_view(r@) == merge_names(strings_view(existing@), strings_view(add@)),
{
    let mut out = existing;
    let ghost e0 = strings_view(out@);
    let ghost av = strings_view(add@);
    let n = add.len();
    assert(av.take(0) =~= Seq::<Seq<char>>::empty());
    let mut i: usize = 0;
    while i < n
        invariant
            n == add@.len(),
            av == strings_view(add@),
            i <= n,
            strings_view(out@) == merge_names(e0, av.take(i as int)),
        decreases n - i,
    {
        assert(av.take(i + 1).drop_last() =~= av.take(i as int));
        assert(av.take(i + 1).last() == add@[i as int]@);
        if !vec_contains_str(&out, add[i].as_str()) {
            out.push(add[i].clone());
            assert(strings_view(out@) =~= strings_view(out@.drop_last()).push(add@[i as int]@));
        }
        i = i + 1;
    }
    assert(av.take(n as int) =~= av);
    out
}

fn is_map_key_str(k: &str) -> (r: bool)
    ensures
        r == is_map_key(k@),
{
    str_eq(k, "properties") || str_eq(k, "$defs")
}

fn is_list_key_str(k: &str) -> (r: bool)
    ensures
        r == is_list_key(k@),
{
    str_eq(k, "allOf") || str_eq(k, "anyOf") || str_eq(k, "oneOf")
}

fn is_single_key_str(k: &str) -> (r: bool)
    ensures
        r == is_single_key(k@),
{
    str_eq(k, "items") || str_eq(k, "if") || str_eq(k, "then") || str_eq(k, "else") || str_eq(
        k,
        "not",
    ) || str_eq(k, "additionalProperties")
}

/// The node `m` promoted.
fn promoted_object(m: &JsonMap) -> (r: JsonMap)
    ensures
        r@ == with_required(m@, promote_entries(m@)),
    decreases m@,
{
    let es = m.entries();
    let ghost me = m@;
    let n = es.len();
    proof {
        lemma_entries_view(es@);
        lemma_promote_entries(me);
    }
    let mut out: Vec<(String, JsonValue)> = Vec::new();
    let mut i: usize = 0;
    while i < n
        invariant
            n == es@.len(),
            me == m@,
            me == entries_view(es@),
            me.len() == n,
            keys_sorted(me),
            forall|j: int| 0 <= j < n ==> #[trigger] me[j] == (es@[j].0@, json_view(es@[j].1)),
            promote_entries(me).len() == n,
            forall|j: int|
                0 <= j < n ==> #[trigger] promote_entries(me)[j] == (
                    me[j].0,
                    promote_member(me[j].0, me[j].1),
                ),
            i <= n,
            out@.len() == i,
            forall|j: int|
                0 <= j < i ==> (#[trigger] out@[j].0@, json_view(out@[j].1)) == promote_entries(
                    me,
                )[j],
        decreases n - i,
    {
        proof {
            assert(decreases_to!(me => me[i as int]));
            assert(decreases_to!(me[i as int] => me[i as int].1));
        }
        let v = promoted_member(es[i].0.as_str(), &es[i].1);
        out.push((es[i].0.clone(), v));
        i = i + 1;
    }
    proof {
        lemma_entries_view(out@);
        assert(entries_view(out@) =~= promote_entries(me));
        assert forall|a: int, b: int| 0 <= a < b < n implies crate::text::seq_lt(
            #[trigger] promote_entries(me)[a].0,
            #[trigger] promote_entries(me)[b].0,
        ) by {
            assert(me[a].0 == promote_entries(me)[a].0);
            assert(me[b].0 == promote_entries(me)[b].0);
        }
    }
    let mut r = JsonMap::from_sorted(out);
    match m.get_obj("properties") {
        Some(props) => {
            let add = recommended_in(props);
            if add.len() > 0 {
                let existing = required_list(m);
                let merged = merge_into(existing, &add);
                let arr = string_array(&merged);
                assert(strs_json(strings_view(merged@)) =~= strings_view(merged@).map_values(
                    |t: Seq<char>| Json::Str(t),
                ));
                r.insert(owned("required"), arr);
            }
        },
        None => {
            assert(recommended_names(Seq::<(Seq<char>, Json)>::empty()) =~= Seq::<
                Seq<char>,
            >::empty());
        },
    }
    r
}

/// Each subschema of the map `m` promoted.
fn promoted_values(m: &JsonMap) -> (r: JsonMap)
    ensures
        r@ == promote_values(m@),
    decreases m@,
{
    let es = m.entries();
    let ghost me = m@;
    let n = es.len();
    proof {
        lemma_entries_view(es@);
        lemma_promote_values(me);
    }
    let mut out: Vec<(String, JsonValue)> = Vec::new();
    let mut i: usize = 0;
    while i < n
        invariant
            n == es@.len(),
            me == m@,
            me == entries_view(es@),
            me.len() == n,
            keys_sorted(me),
            forall|j: int| 0 <= j < n ==> #[trigger] me[j] == (es@[j].0@, json_view(es@[j].1)),
            promote_values(me).len() == n,
            forall|j: int|
                0 <= j < n ==> #[trigger] promote_values(me)[j] == (me[j].0, promote(me[j].1)),
            i <= n,
            out@.len() == i,
            forall|j: int|
                0 <= j < i ==> (#[trigger] out@[j].0@, json_view(out@[j].1)) == promote_values(
                    me,
                )[j],
        decreases n - i,
    {
        proof {
            assert(decreases_to!(me => me[i as int]));
            assert(decreases_to!(me[i as int] => me[i as int].1));
        }
        let v = promoted(&es[i].1);
        out.push((es[i].0.clone(), v));
        i = i + 1;
    }
    proof {
        lemma_entries_view(out@);
        assert(entries_view(out@) =~= promote_values(me));
        assert forall|a: int, b: int| 0 <= a < b < n implies crate::text::seq_lt(
            #[trigger] promote_values(me)[a].0,
            #[trigger] promote_values(me)[b].0,
        ) by {
            assert(me[a].0 == promote_values(me)[a].0);
            assert(me[b].0 == promote_values(me)[b].0);
        }
    }
    JsonMap::from_sorted(out)
}

/// Each subschema of the list `a` promoted.
fn promoted_items(a: &Vec<JsonValue>) -> (r: Vec<JsonValue>)
    ensures
        json_view_seq(r@) == promote_items(json_view_seq(a@)),
    decreases json_view_seq(a@),
{
    let ghost av = json_view_seq(a@);
    let n = a.len();
    proof {
        lemma_view_seq(a@);
        lemma_promote_items(av);
    }
    let mut out: Vec<JsonValue> = Vec::new();
    let mut i: usize = 0;
    while i < n
        invariant
            n == a@.len(),
            av == json_view_seq(a@),
            av.len() == n,
            forall|j: int| 0 <= j < n ==> #[trigger] av[j] == json_view(a@[j]),
            promote_items(av).len() == n,
            forall|j: int| 0 <= j < n ==> #[trigger] promote_items(av)[j] == promote(av[j]),
            i <= n,
            out@.len() == i,
            forall|j: int| 0 <= j < i ==> json_view(#[trigger] out@[j]) == promote_items(av)[j],
        decreases n - i,
    {
        proof {
            assert(decreases_to!(av => av[i as int]));
        }
        let v = promoted(&a[i]);
        out.push(v);
        i = i + 1;
    }
    proof {
        lemma_view_seq(out@);
        assert(json_view_seq(out@) =~= promote_items(av));
    }
    out
}

/// The member `k` of a node, promoted.
fn promoted_member(k: &str, v: &JsonValue) -> (r: JsonValue)
    ensures
        r@ == promote_member(k@, v@),
    decreases v@,
{
    if is_map_key_str(k) {
        match v {
            JsonValue::Object(sub) => JsonValue::Object(promoted_values(sub)),
            _ => v.clone(),
        }
    } else if is_list_key_str(k) {
        match v {
            JsonValue::Array(a) => JsonValue::Array(promoted_items(a)),
            _ => v.clone(),
        }
    } else if is_single_key_str(k) {
        match v {
            JsonValue::Object(sub) => JsonValue::Object(promoted_object(sub)),
            _ => v.clone(),
        }
    } else {
        v.clone()
    }
}

/// The schema node `node` with every object node in it promoted.
pub fn promoted(node: &JsonValue) -> (r: JsonValue)
    ensures
        r@ == promote(node@),
    decreases node@,
{
    match node {
        JsonValue::Object(m) => JsonValue::Object(promoted_object(m)),
        _ => node.clone(),
    }
}

/// Walk a schema and, in every object node, add to its `required` array
/// each property whose schema carries `"x-recommended": true`. Recurses
/// into `properties`, `$defs`, `allOf`, `anyOf`, `oneOf`, `items`, `if`,
/// `then`, `else`, `not` and `additionalProperties`.
pub fn promote_recommended_to_required(node: &mut JsonValue)
    ensures
        final(node)@ == promote(old(node)@),
{
    let p = promoted(node);
    *node = p;
}

} // verus!

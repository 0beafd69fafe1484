//! Laws that say what the reading, validating, converting, building and
//! promoting operations are for, stated over literal lists of names taken
//! from the XARF v4 format rather than over the library's own classifiers.

use vstd::prelude::*;

use crate::json::{
    lemma_get_insert_other, lemma_get_insert_same, lemma_insert_all_push, lemma_obj_from_sorted,
    keys_sorted, obj_from, obj_get, obj_insert, Json,
};
use crate::model::{is_report_field, non_report_entries, report_from_json, ReportModel};
use crate::schemas::{
    items_ok, member_ok, members_ok, node_requires_recommended, promote,
    lemma_promote_requires_recommended_everywhere, registry_built, requires_recommended_everywhere,
    type_index, values_ok, RegistryModel,
};
use crate::validator::{known_field, unknown_field_warnings, unknown_fields};

verus! {

/// The sixteen members a XARF v4 report declares at its top level.
pub open spec fn xarf_core_member(k: Seq<char>) -> bool {
    ||| k == "xarf_version"@
    ||| k == "report_id"@
    ||| k == "timestamp"@
    ||| k == "reporter"@
    ||| k == "sender"@
    ||| k == "source_identifier"@
    ||| k == "category"@
    ||| k == "type"@
    ||| k == "source_port"@
    ||| k == "evidence_source"@
    ||| k == "evidence"@
    ||| k == "confidence"@
    ||| k == "tags"@
    ||| k == "description"@
    ||| k == "legacy_version"@
    ||| k == "_internal"@
}

proof fn lemma_non_report_keeps(es: Seq<(Seq<char>, Json)>, k: Seq<char>)
    requires
        !is_report_field(k),
    ensures
        obj_get(obj_from(non_report_entries(es)), k) == obj_get(obj_from(es), k),
    decreases es.len(),
{
    if es.len() > 0 {
        let init = es.drop_last();
        let p = es.last();
        lemma_non_report_keeps(init, k);
        assert(es == init.push(p));
        lemma_insert_all_push(Seq::empty(), init, p);
        if is_report_field(p.0) {
            assert(p.0 != k);
            lemma_get_insert_other(obj_from(init), p.0, p.1, k);
        } else {
            lemma_insert_all_push(Seq::empty(), non_report_entries(init), p);
            if p.0 == k {
                lemma_get_insert_same(obj_from(init), k, p.1);
                lemma_get_insert_same(obj_from(non_report_entries(init)), k, p.1);
            } else {
                lemma_get_insert_other(obj_from(init), p.0, p.1, k);
                lemma_get_insert_other(obj_from(non_report_entries(init)), p.0, p.1, k);
            }
        }
    }
}

/// Reading a report keeps every member that is not one of the sixteen
/// XARF core members among its extras, with its value (the last one given,
/// as for any object; for an object with sorted keys, as every object the
/// library holds has, simply its value).
pub proof fn lemma_report_keeps_other_members(es: Seq<(Seq<char>, Json)>, r: ReportModel, k: Seq<char>)
    requires
        report_from_json(Json::Object(es)) == Ok::<ReportModel, Seq<char>>(r),
        !xarf_core_member(k),
    ensures
        obj_get(r.extra, k) == obj_get(obj_from(es), k),
        keys_sorted(es) ==> obj_get(r.extra, k) == obj_get(es, k),
{
    assert(!is_report_field(k));
    lemma_non_report_keeps(es, k);
    if keys_sorted(es) {
        lemma_obj_from_sorted(es);
    }
}

/// Every XARF core member is a known field of every (category, type), known
/// combination or not, in any registry built from schemas.
pub proof fn lemma_core_members_always_known(
    reg: RegistryModel,
    core: Json,
    master: Json,
    base: Json,
    parsed: Seq<Json>,
    category: Seq<char>,
    type_: Seq<char>,
    k: Seq<char>,
)
    requires
        registry_built(reg, core, master, base, parsed),
        xarf_core_member(k),
    ensures
        known_field(reg, category, type_, k),
{
    crate::schemas::lemma_type_index(reg.types, category, type_);
    match type_index(reg.types, category, type_) {
        Some(i) => {
            assert(crate::schemas::entry_built(reg.types[i], i, parsed[i], base));
            assert(reg.types[i].known_fields.contains(k));
        },
        None => {},
    }
}

proof fn lemma_unknown_fields_not_core(
    es: Seq<(Seq<char>, Json)>,
    reg: RegistryModel,
    core: Json,
    master: Json,
    base: Json,
    parsed: Seq<Json>,
    category: Seq<char>,
    type_: Seq<char>,
)
    requires
        registry_built(reg, core, master, base, parsed),
    ensures
        forall|i: int|
            0 <= i < unknown_fields(es, reg, category, type_).len() ==> !xarf_core_member(
                #[trigger] unknown_fields(es, reg, category, type_)[i].0,
            ),
    decreases es.len(),
{
    if es.len() > 0 {
        lemma_unknown_fields_not_core(es.drop_last(), reg, core, master, base, parsed, category, type_);
        let k = es.last().0;
        if xarf_core_member(k) {
            lemma_core_members_always_known(reg, core, master, base, parsed, category, type_, k);
        }
        let r = unknown_fields(es.drop_last(), reg, category, type_);
        assert forall|i: int| 0 <= i < unknown_fields(es, reg, category, type_).len() implies !xarf_core_member(
            #[trigger] unknown_fields(es, reg, category, type_)[i].0,
        ) by {
            if i < r.len() {
                assert(unknown_fields(es, reg, category, type_)[i] == r[i]);
            }
        }
    }
}

/// Validation never warns that a XARF core member (such as `confidence` or
/// `tags`) is unknown, whatever the category and type; so strict mode never
/// turns one into an error either.
pub proof fn lemma_no_unknown_core_member(
    reg: RegistryModel,
    core: Json,
    master: Json,
    base: Json,
    parsed: Seq<Json>,
    data: Json,
)
    requires
        registry_built(reg, core, master, base, parsed),
    ensures
        forall|i: int|
            0 <= i < unknown_field_warnings(reg, data).len() ==> !xarf_core_member(
                #[trigger] unknown_field_warnings(reg, data)[i].0,
            ),
{
    if let Json::Object(es) = data {
        lemma_unknown_fields_not_core(
            es,
            reg,
            core,
            master,
            base,
            parsed,
            crate::validator::text_member(data, "category"@),
            crate::validator::text_member(data, "type"@),
        );
    }
}

/// Every object schema in `j` reachable through the JSON Schema keywords
/// `properties` and `$defs` (maps of subschemas), `allOf`, `anyOf` and
/// `oneOf` (lists of subschemas), and `items`, `if`, `then`, `else`, `not`
/// and `additionalProperties` (one subschema) requires each of its
/// `x-recommended` properties, `j` itself included.
pub open spec fn recommended_required_below(j: Json) -> bool
    decreases j,
{
    match j {
        Json::Object(m) => node_requires_recommended(m) && keyword_members_ok(m),
        _ => true,
    }
}

/// Each member of a schema object, read by its keyword.
pub open spec fn keyword_members_ok(es: Seq<(Seq<char>, Json)>) -> bool
    decreases es,
{
    if es.len() == 0 {
        true
    } else {
        keyword_member_ok(es[0].0, es[0].1) && keyword_members_ok(es.drop_first())
    }
}

/// The subschemas under the keyword `k` require their recommended properties.
pub open spec fn keyword_member_ok(k: Seq<char>, v: Json) -> bool
    decreases v,
{
    if k == "properties"@ || k == "$defs"@ {
        match v {
            Json::Object(sub) => keyword_values_ok(sub),
            _ => true,
        }
    } else if k == "allOf"@ || k == "anyOf"@ || k == "oneOf"@ {
        match v {
            Json::Array(a) => keyword_items_ok(a),
            _ => true,
        }
    } else if k == "items"@ || k == "if"@ || k == "then"@ || k == "else"@ || k == "not"@
        || k == "additionalProperties"@ {
        match v {
            Json::Object(sub) => node_requires_recommended(sub) && keyword_members_ok(sub),
            _ => true,
        }
    } else {
        true
    }
}

pub open spec fn keyword_values_ok(es: Seq<(Seq<char>, Json)>) -> bool
    decreases es,
{
    if es.len() == 0 {
        true
    } else {
        recommended_required_below(es[0].1) && keyword_values_ok(es.drop_first())
    }
}

pub open spec fn keyword_items_ok(a: Seq<Json>) -> bool
    decreases a,
{
    if a.len() == 0 {
        true
    } else {
        recommended_required_below(a[0]) && keyword_items_ok(a.drop_first())
    }
}

proof fn lemma_everywhere_below(j: Json)
    requires
        requires_recommended_everywhere(j),
    ensures
        recommended_required_below(j),
    decreases j, 2int,
{
    if let Json::Object(m) = j {
        lemma_members_below(m);
    }
}

proof fn lemma_members_below(es: Seq<(Seq<char>, Json)>)
    requires
        members_ok(es),
    ensures
        keyword_members_ok(es),
    decreases es, 1int,
{
    if es.len() > 0 {
        lemma_member_below(es[0].0, es[0].1);
        lemma_members_below(es.drop_first());
    }
}

proof fn lemma_member_below(k: Seq<char>, v: Json)
    requires
        member_ok(k, v),
    ensures
        keyword_member_ok(k, v),
    decreases v, 0int,
{
    reveal_strlit("properties");
    reveal_strlit("$defs");
    reveal_strlit("allOf");
    reveal_strlit("anyOf");
    reveal_strlit("oneOf");
    reveal_strlit("items");
    reveal_strlit("if");
    reveal_strlit("then");
    reveal_strlit("else");
    reveal_strlit("not");
    reveal_strlit("additionalProperties");
    if k == "properties"@ || k == "$defs"@ {
        if let Json::Object(sub) = v {
            lemma_values_below(sub);
        }
    } else if k == "allOf"@ || k == "anyOf"@ || k == "oneOf"@ {
        assert(k != "properties"@ && k != "$defs"@);
        if let Json::Array(a) = v {
            lemma_items_below(a);
        }
    } else if k == "items"@ || k == "if"@ || k == "then"@ || k == "else"@ || k == "not"@
        || k == "additionalProperties"@ {
        assert(k != "properties"@ && k != "$defs"@);
        assert(k != "allOf"@ && k != "anyOf"@ && k != "oneOf"@);
        if let Json::Object(sub) = v {
            lemma_members_below(sub);
        }
    }
}

proof fn lemma_values_below(es: Seq<(Seq<char>, Json)>)
    requires
        values_ok(es),
    ensures
        keyword_values_ok(es),
    decreases es, 1int,
{
    if es.len() > 0 {
        lemma_everywhere_below(es[0].1);
        lemma_values_below(es.drop_first());
    }
}

proof fn lemma_items_below(a: Seq<Json>)
    requires
        items_ok(a),
    ensures
        keyword_items_ok(a),
    decreases a, 1int,
{
    if a.len() > 0 {
        lemma_everywhere_below(a[0]);
        lemma_items_below(a.drop_first());
    }
}

/// After promotion, every object schema reachable through `properties`,
/// `$defs`, `allOf`, `anyOf`, `oneOf`, `items`, `if`, `then`, `else`, `not`
/// and `additionalProperties` requires each of its `x-recommended`
/// properties.
pub proof fn lemma_promote_reaches_every_keyword(j: Json)
    ensures
        recommended_required_below(promote(j)),
{
    lemma_promote_requires_recommended_everywhere(j);
    lemma_everywhere_below(promote(j));
}

} // verus!

//! Reading back what was written: contacts, evidence items and reports
//! survive a trip through their JSON form.

use vstd::prelude::*;

use crate::json::{
    keys_sorted, lemma_get_absent, lemma_get_insert_other, lemma_get_insert_same,
    lemma_insert_all_absent, lemma_insert_all_agree, lemma_insert_all_concat,
    lemma_insert_all_sorted, lemma_insert_sorted, lemma_lt_irreflexive, lemma_obj_from_sorted,
    lemma_sorted_ext, obj_from, obj_get, obj_has, obj_insert, obj_insert_all, opt_pair, Json,
    lemma_has_iff_entry, lemma_has_insert,
};
use crate::model::{
    category_name, category_of, contact_from_json, contact_json, evidence_from_json,
    evidence_items, evidence_json, is_report_field, non_report_entries, opt_evidence_json,
    opt_num_json, opt_obj_json, opt_port_json, opt_str_json, opt_tags_json, opt_u64_json,
    report_from_json, report_json, report_pairs, ContactModel, EvidenceModel, ReportModel,
};
use crate::generator::{
    builder_core_pairs, builder_pairs, built_document, opt_evidence_values, opt_tag_values,
    optional_head_pairs, optional_tail_pairs, version_or_default, BuilderModel,
};
use crate::text::seq_lt;
use crate::generator::{initial_builder, route_evidence, route_member, route_members};

verus! {

/// The lists of `ss` one after the other.
pub open spec fn concat_all(ss: Seq<Seq<(Seq<char>, Json)>>) -> Seq<(Seq<char>, Json)>
    decreases ss.len(),
{
    if ss.len() == 0 {
        Seq::empty()
    } else {
        concat_all(ss.drop_last()) + ss.last()
    }
}

proof fn lemma_concat_all_absent(ss: Seq<Seq<(Seq<char>, Json)>>, k: Seq<char>)
    requires
        forall|j: int, t: int| 0 <= j < ss.len() && 0 <= t < ss[j].len() ==> #[trigger] ss[j][t].0 != k,
    ensures
        forall|t: int| 0 <= t < concat_all(ss).len() ==> #[trigger] concat_all(ss)[t].0 != k,
    decreases ss.len(),
{
    if ss.len() > 0 {
        let d = ss.drop_last();
        assert forall|j: int, t: int| 0 <= j < d.len() && 0 <= t < d[j].len() implies #[trigger] d[j][t].0 != k by {
            assert(d[j] == ss[j]);
        }
        lemma_concat_all_absent(d, k);
        let a = concat_all(d);
        let l = ss.last();
        assert(l == ss[ss.len() - 1]);
        assert forall|t: int| 0 <= t < (a + l).len() implies #[trigger] (a + l)[t].0 != k by {
            if t >= a.len() {
                assert((a + l)[t] == l[t - a.len()]);
            } else {
                assert((a + l)[t] == a[t]);
            }
        }
    }
}

/// Looking a key up in an object built from groups of pairs: when only the
/// `i`-th group carries the key, the other groups do not matter.
pub(crate) proof fn lemma_get_in_segments(ss: Seq<Seq<(Seq<char>, Json)>>, i: int, k: Seq<char>)
    requires
        0 <= i < ss.len(),
        forall|j: int, t: int|
            0 <= j < ss.len() && j != i && 0 <= t < ss[j].len() ==> #[trigger] ss[j][t].0 != k,
    ensures
        obj_get(obj_from(concat_all(ss)), k) == obj_get(obj_from(ss[i]), k),
    decreases ss.len(),
{
    let d = ss.drop_last();
    let a = concat_all(d);
    let l = ss.last();
    assert(l == ss[ss.len() - 1]);
    lemma_insert_all_concat(Seq::empty(), a, l);
    if i == ss.len() - 1 {
        assert forall|j: int, t: int| 0 <= j < d.len() && 0 <= t < d[j].len() implies #[trigger] d[j][t].0 != k by {
            assert(d[j] == ss[j]);
        }
        lemma_concat_all_absent(d, k);
        lemma_insert_all_absent(Seq::empty(), a, k);
        lemma_insert_all_agree(obj_from(a), Seq::empty(), l, k);
    } else {
        assert forall|t: int| 0 <= t < l.len() implies #[trigger] l[t].0 != k by {}
        lemma_insert_all_absent(obj_from(a), l, k);
        assert forall|j: int, t: int| 0 <= j < d.len() && j != i && 0 <= t < d[j].len() implies #[trigger] d[j][t].0 != k by {
            assert(d[j] == ss[j]);
        }
        lemma_get_in_segments(d, i, k);
        assert(d[i] == ss[i]);
    }
}

/// The members of a contact's JSON object, in order.
pub open spec fn contact_pairs(c: ContactModel) -> Seq<(Seq<char>, Json)> {
    seq![
        ("org"@, Json::Str(c.org)),
        ("contact"@, Json::Str(c.contact)),
        ("domain"@, Json::Str(c.domain)),
    ]
}

/// The members of an evidence item's JSON object, in order.
pub open spec fn evidence_pairs(e: EvidenceModel) -> Seq<(Seq<char>, Json)> {
    seq![("content_type"@, Json::Str(e.content_type)), ("payload"@, Json::Str(e.payload))]
        + opt_pair("description"@, opt_str_json(e.description)) + opt_pair(
        "hash"@,
        opt_str_json(e.hash),
    ) + opt_pair("size"@, opt_u64_json(e.size))
}

pub(crate) proof fn lemma_single(k: Seq<char>, v: Json)
    ensures
        obj_get(obj_from(seq![(k, v)]), k) == Some(v),
{
    lemma_obj_from_sorted(seq![(k, v)]);
}

proof fn lemma_opt(k: Seq<char>, o: Option<Json>)
    ensures
        obj_get(obj_from(opt_pair(k, o)), k) == o,
{
    match o {
        Some(x) => {
            lemma_single(k, x);
        },
        None => {
            lemma_obj_from_sorted(opt_pair(k, o));
        },
    }
}

/// The members of a report's JSON object in groups, one group per member name (extras last).
pub open spec fn report_segments(r: ReportModel) -> Seq<Seq<(Seq<char>, Json)>> {
    seq![
        seq![("xarf_version"@, Json::Str(r.xarf_version))],
        seq![("report_id"@, Json::Str(r.report_id))],
        seq![("timestamp"@, Json::Str(r.timestamp))],
        seq![("reporter"@, contact_json(r.reporter))],
        seq![("sender"@, contact_json(r.sender))],
        seq![("source_identifier"@, Json::Str(r.source_identifier))],
        seq![("category"@, Json::Str(category_name(r.category)))],
        seq![("type"@, Json::Str(r.type_))],
        opt_pair("source_port"@, opt_port_json(r.source_port)),
        opt_pair("evidence_source"@, opt_str_json(r.evidence_source)),
        opt_pair("evidence"@, opt_evidence_json(r.evidence)),
        opt_pair("confidence"@, opt_num_json(r.confidence)),
        opt_pair("tags"@, opt_tags_json(r.tags)),
        opt_pair("description"@, opt_str_json(r.description)),
        opt_pair("legacy_version"@, opt_str_json(r.legacy_version)),
        opt_pair("_internal"@, opt_obj_json(r.internal)),
        r.extra,
    ]
}

proof fn lemma_report_segments(r: ReportModel)
    ensures
        concat_all(report_segments(r)) == report_pairs(r),
{
    let ss = report_segments(r);
    reveal_with_fuel(concat_all, 18);
    assert(concat_all(ss) =~= report_pairs(r));
}

proof fn lemma_report_get_0(r: ReportModel)
    requires
        forall|t: int| 0 <= t < r.extra.len() ==> !is_report_field(#[trigger] r.extra[t].0),
    ensures
        obj_get(obj_from(report_pairs(r)), "xarf_version"@) == obj_get(obj_from(report_segments(r)[0]), "xarf_version"@),
{
    let ss = report_segments(r);
    reveal_strlit("xarf_version");
    reveal_strlit("report_id");
    reveal_strlit("timestamp");
    reveal_strlit("reporter");
    reveal_strlit("sender");
    reveal_strlit("source_identifier");
    reveal_strlit("category");
    reveal_strlit("type");
    reveal_strlit("source_port");
    reveal_strlit("evidence_source");
    reveal_strlit("evidence");
    reveal_strlit("confidence");
    reveal_strlit("tags");
    reveal_strlit("description");
    reveal_strlit("legacy_version");
    reveal_strlit("_internal");
    assert forall|j: int, t: int| 0 <= j < ss.len() && j != 0 && 0 <= t < ss[j].len() implies #[trigger] ss[j][t].0 != "xarf_version"@ by {
        if j == 1 {
            assert(ss[1][t].0 == "report_id"@);
            assert("report_id"@ != "xarf_version"@);
        } else if j == 2 {
            assert(ss[2][t].0 == "timestamp"@);
            assert("timestamp"@ != "xarf_version"@);
        } else if j == 3 {
            assert(ss[3][t].0 == "reporter"@);
            assert("reporter"@ != "xarf_version"@);
        } else if j == 4 {
            assert(ss[4][t].0 == "sender"@);
            assert("sender"@ != "xarf_version"@);
        } else if j == 5 {
            assert(ss[5][t].0 == "source_identifier"@);
            assert("source_identifier"@ != "xarf_version"@);
        } else if j == 6 {
            assert(ss[6][t].0 == "category"@);
            assert("category"@ != "xarf_version"@);
        } else if j == 7 {
            assert(ss[7][t].0 == "type"@);
            assert("type"@ != "xarf_version"@);
        } else if j == 8 {
            assert(ss[8][t].0 == "source_port"@);
            assert("source_port"@ != "xarf_version"@);
        } else if j == 9 {
            assert(ss[9][t].0 == "evidence_source"@);
            assert("evidence_source"@ != "xarf_version"@);
        } else if j == 10 {
            assert(ss[10][t].0 == "evidence"@);
            assert("evidence"@ != "xarf_version"@);
        } else if j == 11 {
            assert(ss[11][t].0 == "confidence"@);
            assert("confidence"@ != "xarf_version"@);
        } else if j == 12 {
            assert(ss[12][t].0 == "tags"@);
            assert("tags"@ != "xarf_version"@);
        } else if j == 13 {
            assert(ss[13][t].0 == "description"@);
            assert("description"@ != "xarf_version"@);
        } else if j == 14 {
            assert(ss[14][t].0 == "legacy_version"@);
            assert("legacy_version"@ != "xarf_version"@);
        } else if j == 15 {
            assert(ss[15][t].0 == "_internal"@);
            assert("_internal"@ != "xarf_version"@);
        } else if j == 16 {
            assert(ss[16] == r.extra);
            assert(!is_report_field(r.extra[t].0));
        }
    }
    lemma_report_segments(r);
    lemma_get_in_segments(ss, 0, "xarf_version"@);
}

proof fn lemma_report_get_1(r: ReportModel)
    requires
        forall|t: int| 0 <= t < r.extra.len() ==> !is_report_field(#[trigger] r.extra[t].0),
    ensures
        obj_get(obj_from(report_pairs(r)), "report_id"@) == obj_get(obj_from(report_segments(r)[1]), "report_id"@),
{
    let ss = report_segments(r);
    reveal_strlit("xarf_version");
    reveal_strlit("report_id");
    reveal_strlit("timestamp");
    reveal_strlit("reporter");
    reveal_strlit("sender");
    reveal_strlit("source_identifier");
    reveal_strlit("category");
    reveal_strlit("type");
    reveal_strlit("source_port");
    reveal_strlit("evidence_source");
    reveal_strlit("evidence");
    reveal_strlit("confidence");
    reveal_strlit("tags");
    reveal_strlit("description");
    reveal_strlit("legacy_version");
    reveal_strlit("_internal");
    assert forall|j: int, t: int| 0 <= j < ss.len() && j != 1 && 0 <= t < ss[j].len() implies #[trigger] ss[j][t].0 != "report_id"@ by {
        if j == 0 {
            assert(ss[0][t].0 == "xarf_version"@);
            assert("xarf_version"@ != "report_id"@);
        } else if j == 2 {
            assert(ss[2][t].0 == "timestamp"@);
            assert("timestamp"@[0] != "report_id"@[0]);
            assert("timestamp"@ != "report_id"@);
        } else if j == 3 {
            assert(ss[3][t].0 == "reporter"@);
            assert("reporter"@ != "report_id"@);
        } else if j == 4 {
            assert(ss[4][t].0 == "sender"@);
            assert("sender"@ != "report_id"@);
        } else if j == 5 {
            assert(ss[5][t].0 == "source_identifier"@);
            assert("source_identifier"@ != "report_id"@);
        } else if j == 6 {
            assert(ss[6][t].0 == "category"@);
            assert("category"@ != "report_id"@);
        } else if j == 7 {
            assert(ss[7][t].0 == "type"@);
            assert("type"@ != "report_id"@);
        } else if j == 8 {
            assert(ss[8][t].0 == "source_port"@);
            assert("source_port"@ != "report_id"@);
        } else if j == 9 {
            assert(ss[9][t].0 == "evidence_source"@);
            assert("evidence_source"@ != "report_id"@);
        } else if j == 10 {
            assert(ss[10][t].0 == "evidence"@);
            assert("evidence"@ != "report_id"@);
        } else if j == 11 {
            assert(ss[11][t].0 == "confidence"@);
            assert("confidence"@ != "report_id"@);
        } else if j == 12 {
            assert(ss[12][t].0 == "tags"@);
            assert("tags"@ != "report_id"@);
        } else if j == 13 {
            assert(ss[13][t].0 == "description"@);
            assert("description"@ != "report_id"@);
        } else if j == 14 {
            assert(ss[14][t].0 == "legacy_version"@);
            assert("legacy_version"@ != "report_id"@);
        } else if j == 15 {
            assert(ss[15][t].0 == "_internal"@);
            assert("_internal"@[0] != "report_id"@[0]);
            assert("_internal"@ != "report_id"@);
        } else if j == 16 {
            assert(ss[16] == r.extra);
            assert(!is_report_field(r.extra[t].0));
        }
    }
    lemma_report_segments(r);
    lemma_get_in_segments(ss, 1, "report_id"@);
}

proof fn lemma_report_get_2(r: ReportModel)
    requires
        forall|t: int| 0 <= t < r.extra.len() ==> !is_report_field(#[trigger] r.extra[t].0),
    ensures
        obj_get(obj_from(report_pairs(r)), "timestamp"@) == obj_get(obj_from(report_segments(r)[2]), "timestamp"@),
{
    let ss = report_segments(r);
    reveal_strlit("xarf_version");
    reveal_strlit("report_id");
    reveal_strlit("timestamp");
    reveal_strlit("reporter");
    reveal_strlit("sender");
    reveal_strlit("source_identifier");
    reveal_strlit("category");
    reveal_strlit("type");
    reveal_strlit("source_port");
    reveal_strlit("evidence_source");
    reveal_strlit("evidence");
    reveal_strlit("confidence");
    reveal_strlit("tags");
    reveal_strlit("description");
    reveal_strlit("legacy_version");
    reveal_strlit("_internal");
    assert forall|j: int, t: int| 0 <= j < ss.len() && j != 2 && 0 <= t < ss[j].len() implies #[trigger] ss[j][t].0 != "timestamp"@ by {
        if j == 0 {
            assert(ss[0][t].0 == "xarf_version"@);
            assert("xarf_version"@ != "timestamp"@);
        } else if j == 1 {
            assert(ss[1][t].0 == "report_id"@);
            assert("report_id"@[0] != "timestamp"@[0]);
            assert("report_id"@ != "timestamp"@);
        } else if j == 3 {
            assert(ss[3][t].0 == "reporter"@);
            assert("reporter"@ != "timestamp"@);
        } else if j == 4 {
            assert(ss[4][t].0 == "sender"@);
            assert("sender"@ != "timestamp"@);
        } else if j == 5 {
            assert(ss[5][t].0 == "source_identifier"@);
            assert("source_identifier"@ != "timestamp"@);
        } else if j == 6 {
            assert(ss[6][t].0 == "category"@);
            assert("category"@ != "timestamp"@);
        } else if j == 7 {
            assert(ss[7][t].0 == "type"@);
            assert("type"@ != "timestamp"@);
        } else if j == 8 {
            assert(ss[8][t].0 == "source_port"@);
            assert("source_port"@ != "timestamp"@);
        } else if j == 9 {
            assert(ss[9][t].0 == "evidence_source"@);
            assert("evidence_source"@ != "timestamp"@);
        } else if j == 10 {
            assert(ss[10][t].0 == "evidence"@);
            assert("evidence"@ != "timestamp"@);
        } else if j == 11 {
            assert(ss[11][t].0 == "confidence"@);
            assert("confidence"@ != "timestamp"@);
        } else if j == 12 {
            assert(ss[12][t].0 == "tags"@);
            assert("tags"@ != "timestamp"@);
        } else if j == 13 {
            assert(ss[13][t].0 == "description"@);
            assert("description"@ != "timestamp"@);
        } else if j == 14 {
            assert(ss[14][t].0 == "legacy_version"@);
            assert("legacy_version"@ != "timestamp"@);
        } else if j == 15 {
            assert(ss[15][t].0 == "_internal"@);
            assert("_internal"@[0] != "timestamp"@[0]);
            assert("_internal"@ != "timestamp"@);
        } else if j == 16 {
            assert(ss[16] == r.extra);
            assert(!is_report_field(r.extra[t].0));
        }
    }
    lemma_report_segments(r);
    lemma_get_in_segments(ss, 2, "timestamp"@);
}

proof fn lemma_report_get_3(r: ReportModel)
    requires
        forall|t: int| 0 <= t < r.extra.len() ==> !is_report_field(#[trigger] r.extra[t].0),
    ensures
        obj_get(obj_from(report_pairs(r)), "reporter"@) == obj_get(obj_from(report_segments(r)[3]), "reporter"@),
{
    let ss = report_segments(r);
    reveal_strlit("xarf_version");
    reveal_strlit("report_id");
    reveal_strlit("timestamp");
    reveal_strlit("reporter");
    reveal_strlit("sender");
    reveal_strlit("source_identifier");
    reveal_strlit("category");
    reveal_strlit("type");
    reveal_strlit("source_port");
    reveal_strlit("evidence_source");
    reveal_strlit("evidence");
    reveal_strlit("confidence");
    reveal_strlit("tags");
    reveal_strlit("description");
    reveal_strlit("legacy_version");
    reveal_strlit("_internal");
    assert forall|j: int, t: int| 0 <= j < ss.len() && j != 3 && 0 <= t < ss[j].len() implies #[trigger] ss[j][t].0 != "reporter"@ by {
        if j == 0 {
            assert(ss[0][t].0 == "xarf_version"@);
            assert("xarf_version"@ != "reporter"@);
        } else if j == 1 {
            assert(ss[1][t].0 == "report_id"@);
            assert("report_id"@ != "reporter"@);
        } else if j == 2 {
            assert(ss[2][t].0 == "timestamp"@);
            assert("timestamp"@ != "reporter"@);
        } else if j == 4 {
            assert(ss[4][t].0 == "sender"@);
            assert("sender"@ != "reporter"@);
        } else if j == 5 {
            assert(ss[5][t].0 == "source_identifier"@);
            assert("source_identifier"@ != "reporter"@);
        } else if j == 6 {
            assert(ss[6][t].0 == "category"@);
            assert("category"@[0] != "reporter"@[0]);
            assert("category"@ != "reporter"@);
        } else if j == 7 {
            assert(ss[7][t].0 == "type"@);
            assert("type"@ != "reporter"@);
        } else if j == 8 {
            assert(ss[8][t].0 == "source_port"@);
            assert("source_port"@ != "reporter"@);
        } else if j == 9 {
            assert(ss[9][t].0 == "evidence_source"@);
            assert("evidence_source"@ != "reporter"@);
        } else if j == 10 {
            assert(ss[10][t].0 == "evidence"@);
            assert("evidence"@[0] != "reporter"@[0]);
            assert("evidence"@ != "reporter"@);
        } else if j == 11 {
            assert(ss[11][t].0 == "confidence"@);
            assert("confidence"@ != "reporter"@);
        } else if j == 12 {
            assert(ss[12][t].0 == "tags"@);
            assert("tags"@ != "reporter"@);
        } else if j == 13 {
            assert(ss[13][t].0 == "description"@);
            assert("description"@ != "reporter"@);
        } else if j == 14 {
            assert(ss[14][t].0 == "legacy_version"@);
            assert("legacy_version"@ != "reporter"@);
        } else if j == 15 {
            assert(ss[15][t].0 == "_internal"@);
            assert("_internal"@ != "reporter"@);
        } else if j == 16 {
            assert(ss[16] == r.extra);
            assert(!is_report_field(r.extra[t].0));
        }
    }
    lemma_report_segments(r);
    lemma_get_in_segments(ss, 3, "reporter"@);
}

proof fn lemma_report_get_4(r: ReportModel)
    requires
        forall|t: int| 0 <= t < r.extra.len() ==> !is_report_field(#[trigger] r.extra[t].0),
    ensures
        obj_get(obj_from(report_pairs(r)), "sender"@) == obj_get(obj_from(report_segments(r)[4]), "sender"@),
{
    let ss = report_segments(r);
    reveal_strlit("xarf_version");
    reveal_strlit("report_id");
    reveal_strlit("timestamp");
    reveal_strlit("reporter");
    reveal_strlit("sender");
    reveal_strlit("source_identifier");
    reveal_strlit("category");
    reveal_strlit("type");
    reveal_strlit("source_port");
    reveal_strlit("evidence_source");
    reveal_strlit("evidence");
    reveal_strlit("confidence");
    reveal_strlit("tags");
    reveal_strlit("description");
    reveal_strlit("legacy_version");
    reveal_strlit("_internal");
    assert forall|j: int, t: int| 0 <= j < ss.len() && j != 4 && 0 <= t < ss[j].len() implies #[trigger] ss[j][t].0 != "sender"@ by {
        if j == 0 {
            assert(ss[0][t].0 == "xarf_version"@);
            assert("xarf_version"@ != "sender"@);
        } else if j == 1 {
            assert(ss[1][t].0 == "report_id"@);
            assert("report_id"@ != "sender"@);
        } else if j == 2 {
            assert(ss[2][t].0 == "timestamp"@);
            assert("timestamp"@ != "sender"@);
        } else if j == 3 {
            assert(ss[3][t].0 == "reporter"@);
            assert("reporter"@ != "sender"@);
        } else if j == 5 {
            assert(ss[5][t].0 == "source_identifier"@);
            assert("source_identifier"@ != "sender"@);
        } else if j == 6 {
            assert(ss[6][t].0 == "category"@);
            assert("category"@ != "sender"@);
        } else if j == 7 {
            assert(ss[7][t].0 == "type"@);
            assert("type"@ != "sender"@);
        } else if j == 8 {
            assert(ss[8][t].0 == "source_port"@);
            assert("source_port"@ != "sender"@);
        } else if j == 9 {
            assert(ss[9][t].0 == "evidence_source"@);
            assert("evidence_source"@ != "sender"@);
        } else if j == 10 {
            assert(ss[10][t].0 == "evidence"@);
            assert("evidence"@ != "sender"@);
        } else if j == 11 {
            assert(ss[11][t].0 == "confidence"@);
            assert("confidence"@ != "sender"@);
        } else if j == 12 {
            assert(ss[12][t].0 == "tags"@);
            assert("tags"@ != "sender"@);
        } else if j == 13 {
            assert(ss[13][t].0 == "description"@);
            assert("description"@ != "sender"@);
        } else if j == 14 {
            assert(ss[14][t].0 == "legacy_version"@);
            assert("legacy_version"@ != "sender"@);
        } else if j == 15 {
            assert(ss[15][t].0 == "_internal"@);
            assert("_internal"@ != "sender"@);
        } else if j == 16 {
            assert(ss[16] == r.extra);
            assert(!is_report_field(r.extra[t].0));
        }
    }
    lemma_report_segments(r);
    lemma_get_in_segments(ss, 4, "sender"@);
}

proof fn lemma_report_get_5(r: ReportModel)
    requires
        forall|t: int| 0 <= t < r.extra.len() ==> !is_report_field(#[trigger] r.extra[t].0),
    ensures
        obj_get(obj_from(report_pairs(r)), "source_identifier"@) == obj_get(obj_from(report_segments(r)[5]), "source_identifier"@),
{
    let ss = report_segments(r);
    reveal_strlit("xarf_version");
    reveal_strlit("report_id");
    reveal_strlit("timestamp");
    reveal_strlit("reporter");
    reveal_strlit("sender");
    reveal_strlit("source_identifier");
    reveal_strlit("category");
    reveal_strlit("type");
    reveal_strlit("source_port");
    reveal_strlit("evidence_source");
    reveal_strlit("evidence");
    reveal_strlit("confidence");
    reveal_strlit("tags");
    reveal_strlit("description");
    reveal_strlit("legacy_version");
    reveal_strlit("_internal");
    assert forall|j: int, t: int| 0 <= j < ss.len() && j != 5 && 0 <= t < ss[j].len() implies #[trigger] ss[j][t].0 != "source_identifier"@ by {
        if j == 0 {
            assert(ss[0][t].0 == "xarf_version"@);
            assert("xarf_version"@ != "source_identifier"@);
        } else if j == 1 {
            assert(ss[1][t].0 == "report_id"@);
            assert("report_id"@ != "source_identifier"@);
        } else if j == 2 {
            assert(ss[2][t].0 == "timestamp"@);
            assert("timestamp"@ != "source_identifier"@);
        } else if j == 3 {
            assert(ss[3][t].0 == "reporter"@);
            assert("reporter"@ != "source_identifier"@);
        } else if j == 4 {
            assert(ss[4][t].0 == "sender"@);
            assert("sender"@ != "source_identifier"@);
        } else if j == 6 {
            assert(ss[6][t].0 == "category"@);
            assert("category"@ != "source_identifier"@);
        } else if j == 7 {
            assert(ss[7][t].0 == "type"@);
            assert("type"@ != "source_identifier"@);
        } else if j == 8 {
            assert(ss[8][t].0 == "source_port"@);
            assert("source_port"@ != "source_identifier"@);
        } else if j == 9 {
            assert(ss[9][t].0 == "evidence_source"@);
            assert("evidence_source"@ != "source_identifier"@);
        } else if j == 10 {
            assert(ss[10][t].0 == "evidence"@);
            assert("evidence"@ != "source_identifier"@);
        } else if j == 11 {
            assert(ss[11][t].0 == "confidence"@);
            assert("confidence"@ != "source_identifier"@);
        } else if j == 12 {
            assert(ss[12][t].0 == "tags"@);
            assert("tags"@ != "source_identifier"@);
        } else if j == 13 {
            assert(ss[13][t].0 == "description"@);
            assert("description"@ != "source_identifier"@);
        } else if j == 14 {
            assert(ss[14][t].0 == "legacy_version"@);
            assert("legacy_version"@ != "source_identifier"@);
        } else if j == 15 {
            assert(ss[15][t].0 == "_internal"@);
            assert("_internal"@ != "source_identifier"@);
        } else if j == 16 {
            assert(ss[16] == r.extra);
            assert(!is_report_field(r.extra[t].0));
        }
    }
    lemma_report_segments(r);
    lemma_get_in_segments(ss, 5, "source_identifier"@);
}

proof fn lemma_report_get_6(r: ReportModel)
    requires
        forall|t: int| 0 <= t < r.extra.len() ==> !is_report_field(#[trigger] r.extra[t].0),
    ensures
        obj_get(obj_from(report_pairs(r)), "category"@) == obj_get(obj_from(report_segments(r)[6]), "category"@),
{
    let ss = report_segments(r);
    reveal_strlit("xarf_version");
    reveal_strlit("report_id");
    reveal_strlit("timestamp");
    reveal_strlit("reporter");
    reveal_strlit("sender");
    reveal_strlit("source_identifier");
    reveal_strlit("category");
    reveal_strlit("type");
    reveal_strlit("source_port");
    reveal_strlit("evidence_source");
    reveal_strlit("evidence");
    reveal_strlit("confidence");
    reveal_strlit("tags");
    reveal_strlit("description");
    reveal_strlit("legacy_version");
    reveal_strlit("_internal");
    assert forall|j: int, t: int| 0 <= j < ss.len() && j != 6 && 0 <= t < ss[j].len() implies #[trigger] ss[j][t].0 != "category"@ by {
        if j == 0 {
            assert(ss[0][t].0 == "xarf_version"@);
            assert("xarf_version"@ != "category"@);
        } else if j == 1 {
            assert(ss[1][t].0 == "report_id"@);
            assert("report_id"@ != "category"@);
        } else if j == 2 {
            assert(ss[2][t].0 == "timestamp"@);
            assert("timestamp"@ != "category"@);
        } else if j == 3 {
            assert(ss[3][t].0 == "reporter"@);
            assert("reporter"@[0] != "category"@[0]);
            assert("reporter"@ != "category"@);
        } else if j == 4 {
            assert(ss[4][t].0 == "sender"@);
            assert("sender"@ != "category"@);
        } else if j == 5 {
            assert(ss[5][t].0 == "source_identifier"@);
            assert("source_identifier"@ != "category"@);
        } else if j == 7 {
            assert(ss[7][t].0 == "type"@);
            assert("type"@ != "category"@);
        } else if j == 8 {
            assert(ss[8][t].0 == "source_port"@);
            assert("source_port"@ != "category"@);
        } else if j == 9 {
            assert(ss[9][t].0 == "evidence_source"@);
            assert("evidence_source"@ != "category"@);
        } else if j == 10 {
            assert(ss[10][t].0 == "evidence"@);
            assert("evidence"@[0] != "category"@[0]);
            assert("evidence"@ != "category"@);
        } else if j == 11 {
            assert(ss[11][t].0 == "confidence"@);
            assert("confidence"@ != "category"@);
        } else if j == 12 {
            assert(ss[12][t].0 == "tags"@);
            assert("tags"@ != "category"@);
        } else if j == 13 {
            assert(ss[13][t].0 == "description"@);
            assert("description"@ != "category"@);
        } else if j == 14 {
            assert(ss[14][t].0 == "legacy_version"@);
            assert("legacy_version"@ != "category"@);
        } else if j == 15 {
            assert(ss[15][t].0 == "_internal"@);
            assert("_internal"@ != "category"@);
        } else if j == 16 {
            assert(ss[16] == r.extra);
            assert(!is_report_field(r.extra[t].0));
        }
    }
    lemma_report_segments(r);
    lemma_get_in_segments(ss, 6, "category"@);
}

proof fn lemma_report_get_7(r: ReportModel)
    requires
        forall|t: int| 0 <= t < r.extra.len() ==> !is_report_field(#[trigger] r.extra[t].0),
    ensures
        obj_get(obj_from(report_pairs(r)), "type"@) == obj_get(obj_from(report_segments(r)[7]), "type"@),
{
    let ss = report_segments(r);
    reveal_strlit("xarf_version");
    reveal_strlit("report_id");
    reveal_strlit("timestamp");
    reveal_strlit("reporter");
    reveal_strlit("sender");
    reveal_strlit("source_identifier");
    reveal_strlit("category");
    reveal_strlit("type");
    reveal_strlit("source_port");
    reveal_strlit("evidence_source");
    reveal_strlit("evidence");
    reveal_strlit("confidence");
    reveal_strlit("tags");
    reveal_strlit("description");
    reveal_strlit("legacy_version");
    reveal_strlit("_internal");
    assert forall|j: int, t: int| 0 <= j < ss.len() && j != 7 && 0 <= t < ss[j].len() implies #[trigger] ss[j][t].0 != "type"@ by {
        if j == 0 {
            assert(ss[0][t].0 == "xarf_version"@);
            assert("xarf_version"@ != "type"@);
        } else if j == 1 {
            assert(ss[1][t].0 == "report_id"@);
            assert("report_id"@ != "type"@);
        } else if j == 2 {
            assert(ss[2][t].0 == "timestamp"@);
            assert("timestamp"@ != "type"@);
        } else if j == 3 {
            assert(ss[3][t].0 == "reporter"@);
            assert("reporter"@ != "type"@);
        } else if j == 4 {
            assert(ss[4][t].0 == "sender"@);
            assert("sender"@ != "type"@);
        } else if j == 5 {
            assert(ss[5][t].0 == "source_identifier"@);
            assert("source_identifier"@ != "type"@);
        } else if j == 6 {
            assert(ss[6][t].0 == "category"@);
            assert("category"@ != "type"@);
        } else if j == 8 {
            assert(ss[8][t].0 == "source_port"@);
            assert("source_port"@ != "type"@);
        } else if j == 9 {
            assert(ss[9][t].0 == "evidence_source"@);
            assert("evidence_source"@ != "type"@);
        } else if j == 10 {
            assert(ss[10][t].0 == "evidence"@);
            assert("evidence"@ != "type"@);
        } else if j == 11 {
            assert(ss[11][t].0 == "confidence"@);
            assert("confidence"@ != "type"@);
        } else if j == 12 {
            assert(ss[12][t].0 == "tags"@);
            assert("tags"@[1] != "type"@[1]);
            assert("tags"@ != "type"@);
        } else if j == 13 {
            assert(ss[13][t].0 == "description"@);
            assert("description"@ != "type"@);
        } else if j == 14 {
            assert(ss[14][t].0 == "legacy_version"@);
            assert("legacy_version"@ != "type"@);
        } else if j == 15 {
            assert(ss[15][t].0 == "_internal"@);
            assert("_internal"@ != "type"@);
        } else if j == 16 {
            assert(ss[16] == r.extra);
            assert(!is_report_field(r.extra[t].0));
        }
    }
    lemma_report_segments(r);
    lemma_get_in_segments(ss, 7, "type"@);
}

proof fn lemma_report_get_8(r: ReportModel)
    requires
        forall|t: int| 0 <= t < r.extra.len() ==> !is_report_field(#[trigger] r.extra[t].0),
    ensures
        obj_get(obj_from(report_pairs(r)), "source_port"@) == obj_get(obj_from(report_segments(r)[8]), "source_port"@),
{
    let ss = report_segments(r);
    reveal_strlit("xarf_version");
    reveal_strlit("report_id");
    reveal_strlit("timestamp");
    reveal_strlit("reporter");
    reveal_strlit("sender");
    reveal_strlit("source_identifier");
    reveal_strlit("category");
    reveal_strlit("type");
    reveal_strlit("source_port");
    reveal_strlit("evidence_source");
    reveal_strlit("evidence");
    reveal_strlit("confidence");
    reveal_strlit("tags");
    reveal_strlit("description");
    reveal_strlit("legacy_version");
    reveal_strlit("_internal");
    assert forall|j: int, t: int| 0 <= j < ss.len() && j != 8 && 0 <= t < ss[j].len() implies #[trigger] ss[j][t].0 != "source_port"@ by {
        if j == 0 {
            assert(ss[0][t].0 == "xarf_version"@);
            assert("xarf_version"@ != "source_port"@);
        } else if j == 1 {
            assert(ss[1][t].0 == "report_id"@);
            assert("report_id"@ != "source_port"@);
        } else if j == 2 {
            assert(ss[2][t].0 == "timestamp"@);
            assert("timestamp"@ != "source_port"@);
        } else if j == 3 {
            assert(ss[3][t].0 == "reporter"@);
            assert("reporter"@ != "source_port"@);
        } else if j == 4 {
            assert(ss[4][t].0 == "sender"@);
            assert("sender"@ != "source_port"@);
        } else if j == 5 {
            assert(ss[5][t].0 == "source_identifier"@);
            assert("source_identifier"@ != "source_port"@);
        } else if j == 6 {
            assert(ss[6][t].0 == "category"@);
            assert("category"@ != "source_port"@);
        } else if j == 7 {
            assert(ss[7][t].0 == "type"@);
            assert("type"@ != "source_port"@);
        } else if j == 9 {
            assert(ss[9][t].0 == "evidence_source"@);
            assert("evidence_source"@ != "source_port"@);
        } else if j == 10 {
            assert(ss[10][t].0 == "evidence"@);
            assert("evidence"@ != "source_port"@);
        } else if j == 11 {
            assert(ss[11][t].0 == "confidence"@);
            assert("confidence"@ != "source_port"@);
        } else if j == 12 {
            assert(ss[12][t].0 == "tags"@);
            assert("tags"@ != "source_port"@);
        } else if j == 13 {
            assert(ss[13][t].0 == "description"@);
            assert("description"@[0] != "source_port"@[0]);
            assert("description"@ != "source_port"@);
        } else if j == 14 {
            assert(ss[14][t].0 == "legacy_version"@);
            assert("legacy_version"@ != "source_port"@);
        } else if j == 15 {
            assert(ss[15][t].0 == "_internal"@);
            assert("_internal"@ != "source_port"@);
        } else if j == 16 {
            assert(ss[16] == r.extra);
            assert(!is_report_field(r.extra[t].0));
        }
    }
    lemma_report_segments(r);
    lemma_get_in_segments(ss, 8, "source_port"@);
}

proof fn lemma_report_get_9(r: ReportModel)
    requires
        forall|t: int| 0 <= t < r.extra.len() ==> !is_report_field(#[trigger] r.extra[t].0),
    ensures
        obj_get(obj_from(report_pairs(r)), "evidence_source"@) == obj_get(obj_from(report_segments(r)[9]), "evidence_source"@),
{
    let ss = report_segments(r);
    reveal_strlit("xarf_version");
    reveal_strlit("report_id");
    reveal_strlit("timestamp");
    reveal_strlit("reporter");
    reveal_strlit("sender");
    reveal_strlit("source_identifier");
    reveal_strlit("category");
    reveal_strlit("type");
    reveal_strlit("source_port");
    reveal_strlit("evidence_source");
    reveal_strlit("evidence");
    reveal_strlit("confidence");
    reveal_strlit("tags");
    reveal_strlit("description");
    reveal_strlit("legacy_version");
    reveal_strlit("_internal");
    assert forall|j: int, t: int| 0 <= j < ss.len() && j != 9 && 0 <= t < ss[j].len() implies #[trigger] ss[j][t].0 != "evidence_source"@ by {
        if j == 0 {
            assert(ss[0][t].0 == "xarf_version"@);
            assert("xarf_version"@ != "evidence_source"@);
        } else if j == 1 {
            assert(ss[1][t].0 == "report_id"@);
            assert("report_id"@ != "evidence_source"@);
        } else if j == 2 {
            assert(ss[2][t].0 == "timestamp"@);
            assert("timestamp"@ != "evidence_source"@);
        } else if j == 3 {
            assert(ss[3][t].0 == "reporter"@);
            assert("reporter"@ != "evidence_source"@);
        } else if j == 4 {
            assert(ss[4][t].0 == "sender"@);
            assert("sender"@ != "evidence_source"@);
        } else if j == 5 {
            assert(ss[5][t].0 == "source_identifier"@);
            assert("source_identifier"@ != "evidence_source"@);
        } else if j == 6 {
            assert(ss[6][t].0 == "category"@);
            assert("category"@ != "evidence_source"@);
        } else if j == 7 {
            assert(ss[7][t].0 == "type"@);
            assert("type"@ != "evidence_source"@);
        } else if j == 8 {
            assert(ss[8][t].0 == "source_port"@);
            assert("source_port"@ != "evidence_source"@);
        } else if j == 10 {
            assert(ss[10][t].0 == "evidence"@);
            assert("evidence"@ != "evidence_source"@);
        } else if j == 11 {
            assert(ss[11][t].0 == "confidence"@);
            assert("confidence"@ != "evidence_source"@);
        } else if j == 12 {
            assert(ss[12][t].0 == "tags"@);
            assert("tags"@ != "evidence_source"@);
        } else if j == 13 {
            assert(ss[13][t].0 == "description"@);
            assert("description"@ != "evidence_source"@);
        } else if j == 14 {
            assert(ss[14][t].0 == "legacy_version"@);
            assert("legacy_version"@ != "evidence_source"@);
        } else if j == 15 {
            assert(ss[15][t].0 == "_internal"@);
            assert("_internal"@ != "evidence_source"@);
        } else if j == 16 {
            assert(ss[16] == r.extra);
            assert(!is_report_field(r.extra[t].0));
        }
    }
    lemma_report_segments(r);
    lemma_get_in_segments(ss, 9, "evidence_source"@);
}

proof fn lemma_report_get_10(r: ReportModel)
    requires
        forall|t: int| 0 <= t < r.extra.len() ==> !is_report_field(#[trigger] r.extra[t].0),
    ensures
        obj_get(obj_from(report_pairs(r)), "evidence"@) == obj_get(obj_from(report_segments(r)[10]), "evidence"@),
{
    let ss = report_segments(r);
    reveal_strlit("xarf_version");
    reveal_strlit("report_id");
    reveal_strlit("timestamp");
    reveal_strlit("reporter");
    reveal_strlit("sender");
    reveal_strlit("source_identifier");
    reveal_strlit("category");
    reveal_strlit("type");
    reveal_strlit("source_port");
    reveal_strlit("evidence_source");
    reveal_strlit("evidence");
    reveal_strlit("confidence");
    reveal_strlit("tags");
    reveal_strlit("description");
    reveal_strlit("legacy_version");
    reveal_strlit("_internal");
    assert forall|j: int, t: int| 0 <= j < ss.len() && j != 10 && 0 <= t < ss[j].len() implies #[trigger] ss[j][t].0 != "evidence"@ by {
        if j == 0 {
            assert(ss[0][t].0 == "xarf_version"@);
            assert("xarf_version"@ != "evidence"@);
        } else if j == 1 {
            assert(ss[1][t].0 == "report_id"@);
            assert("report_id"@ != "evidence"@);
        } else if j == 2 {
            assert(ss[2][t].0 == "timestamp"@);
            assert("timestamp"@ != "evidence"@);
        } else if j == 3 {
            assert(ss[3][t].0 == "reporter"@);
            assert("reporter"@[0] != "evidence"@[0]);
            assert("reporter"@ != "evidence"@);
        } else if j == 4 {
            assert(ss[4][t].0 == "sender"@);
            assert("sender"@ != "evidence"@);
        } else if j == 5 {
            assert(ss[5][t].0 == "source_identifier"@);
            assert("source_identifier"@ != "evidence"@);
        } else if j == 6 {
            assert(ss[6][t].0 == "category"@);
            assert("category"@[0] != "evidence"@[0]);
            assert("category"@ != "evidence"@);
        } else if j == 7 {
            assert(ss[7][t].0 == "type"@);
            assert("type"@ != "evidence"@);
        } else if j == 8 {
            assert(ss[8][t].0 == "source_port"@);
            assert("source_port"@ != "evidence"@);
        } else if j == 9 {
            assert(ss[9][t].0 == "evidence_source"@);
            assert("evidence_source"@ != "evidence"@);
        } else if j == 11 {
            assert(ss[11][t].0 == "confidence"@);
            assert("confidence"@ != "evidence"@);
        } else if j == 12 {
            assert(ss[12][t].0 == "tags"@);
            assert("tags"@ != "evidence"@);
        } else if j == 13 {
            assert(ss[13][t].0 == "description"@);
            assert("description"@ != "evidence"@);
        } else if j == 14 {
            assert(ss[14][t].0 == "legacy_version"@);
            assert("legacy_version"@ != "evidence"@);
        } else if j == 15 {
            assert(ss[15][t].0 == "_internal"@);
            assert("_internal"@ != "evidence"@);
        } else if j == 16 {
            assert(ss[16] == r.extra);
            assert(!is_report_field(r.extra[t].0));
        }
    }
    lemma_report_segments(r);
    lemma_get_in_segments(ss, 10, "evidence"@);
}

proof fn lemma_report_get_11(r: ReportModel)
    requires
        forall|t: int| 0 <= t < r.extra.len() ==> !is_report_field(#[trigger] r.extra[t].0),
    ensures
        obj_get(obj_from(report_pairs(r)), "confidence"@) == obj_get(obj_from(report_segments(r)[11]), "confidence"@),
{
    let ss = report_segments(r);
    reveal_strlit("xarf_version");
    reveal_strlit("report_id");
    reveal_strlit("timestamp");
    reveal_strlit("reporter");
    reveal_strlit("sender");
    reveal_strlit("source_identifier");
    reveal_strlit("category");
    reveal_strlit("type");
    reveal_strlit("source_port");
    reveal_strlit("evidence_source");
    reveal_strlit("evidence");
    reveal_strlit("confidence");
    reveal_strlit("tags");
    reveal_strlit("description");
    reveal_strlit("legacy_version");
    reveal_strlit("_internal");
    assert forall|j: int, t: int| 0 <= j < ss.len() && j != 11 && 0 <= t < ss[j].len() implies #[trigger] ss[j][t].0 != "confidence"@ by {
        if j == 0 {
            assert(ss[0][t].0 == "xarf_version"@);
            assert("xarf_version"@ != "confidence"@);
        } else if j == 1 {
            assert(ss[1][t].0 == "report_id"@);
            assert("report_id"@ != "confidence"@);
        } else if j == 2 {
            assert(ss[2][t].0 == "timestamp"@);
            assert("timestamp"@ != "confidence"@);
        } else if j == 3 {
            assert(ss[3][t].0 == "reporter"@);
            assert("reporter"@ != "confidence"@);
        } else if j == 4 {
            assert(ss[4][t].0 == "sender"@);
            assert("sender"@ != "confidence"@);
        } else if j == 5 {
            assert(ss[5][t].0 == "source_identifier"@);
            assert("source_identifier"@ != "confidence"@);
        } else if j == 6 {
            assert(ss[6][t].0 == "category"@);
            assert("category"@ != "confidence"@);
        } else if j == 7 {
            assert(ss[7][t].0 == "type"@);
            assert("type"@ != "confidence"@);
        } else if j == 8 {
            assert(ss[8][t].0 == "source_port"@);
            assert("source_port"@ != "confidence"@);
        } else if j == 9 {
            assert(ss[9][t].0 == "evidence_source"@);
            assert("evidence_source"@ != "confidence"@);
        } else if j == 10 {
            assert(ss[10][t].0 == "evidence"@);
            assert("evidence"@ != "confidence"@);
        } else if j == 12 {
            assert(ss[12][t].0 == "tags"@);
            assert("tags"@ != "confidence"@);
        } else if j == 13 {
            assert(ss[13][t].0 == "description"@);
            assert("description"@ != "confidence"@);
        } else if j == 14 {
            assert(ss[14][t].0 == "legacy_version"@);
            assert("legacy_version"@ != "confidence"@);
        } else if j == 15 {
            assert(ss[15][t].0 == "_internal"@);
            assert("_internal"@ != "confidence"@);
        } else if j == 16 {
            assert(ss[16] == r.extra);
            assert(!is_report_field(r.extra[t].0));
        }
    }
    lemma_report_segments(r);
    lemma_get_in_segments(ss, 11, "confidence"@);
}

proof fn lemma_report_get_12(r: ReportModel)
    requires
        forall|t: int| 0 <= t < r.extra.len() ==> !is_report_field(#[trigger] r.extra[t].0),
    ensures
        obj_get(obj_from(report_pairs(r)), "tags"@) == obj_get(obj_from(report_segments(r)[12]), "tags"@),
{
    let ss = report_segments(r);
    reveal_strlit("xarf_version");
    reveal_strlit("report_id");
    reveal_strlit("timestamp");
    reveal_strlit("reporter");
    reveal_strlit("sender");
    reveal_strlit("source_identifier");
    reveal_strlit("category");
    reveal_strlit("type");
    reveal_strlit("source_port");
    reveal_strlit("evidence_source");
    reveal_strlit("evidence");
    reveal_strlit("confidence");
    reveal_strlit("tags");
    reveal_strlit("description");
    reveal_strlit("legacy_version");
    reveal_strlit("_internal");
    assert forall|j: int, t: int| 0 <= j < ss.len() && j != 12 && 0 <= t < ss[j].len() implies #[trigger] ss[j][t].0 != "tags"@ by {
        if j == 0 {
            assert(ss[0][t].0 == "xarf_version"@);
            assert("xarf_version"@ != "tags"@);
        } else if j == 1 {
            assert(ss[1][t].0 == "report_id"@);
            assert("report_id"@ != "tags"@);
        } else if j == 2 {
            assert(ss[2][t].0 == "timestamp"@);
            assert("timestamp"@ != "tags"@);
        } else if j == 3 {
            assert(ss[3][t].0 == "reporter"@);
            assert("reporter"@ != "tags"@);
        } else if j == 4 {
            assert(ss[4][t].0 == "sender"@);
            assert("sender"@ != "tags"@);
        } else if j == 5 {
            assert(ss[5][t].0 == "source_identifier"@);
            assert("source_identifier"@ != "tags"@);
        } else if j == 6 {
            assert(ss[6][t].0 == "category"@);
            assert("category"@ != "tags"@);
        } else if j == 7 {
            assert(ss[7][t].0 == "type"@);
            assert("type"@[1] != "tags"@[1]);
            assert("type"@ != "tags"@);
        } else if j == 8 {
            assert(ss[8][t].0 == "source_port"@);
            assert("source_port"@ != "tags"@);
        } else if j == 9 {
            assert(ss[9][t].0 == "evidence_source"@);
            assert("evidence_source"@ != "tags"@);
        } else if j == 10 {
            assert(ss[10][t].0 == "evidence"@);
            assert("evidence"@ != "tags"@);
        } else if j == 11 {
            assert(ss[11][t].0 == "confidence"@);
            assert("confidence"@ != "tags"@);
        } else if j == 13 {
            assert(ss[13][t].0 == "description"@);
            assert("description"@ != "tags"@);
        } else if j == 14 {
            assert(ss[14][t].0 == "legacy_version"@);
            assert("legacy_version"@ != "tags"@);
        } else if j == 15 {
            assert(ss[15][t].0 == "_internal"@);
            assert("_internal"@ != "tags"@);
        } else if j == 16 {
            assert(ss[16] == r.extra);
            assert(!is_report_field(r.extra[t].0));
        }
    }
    lemma_report_segments(r);
    lemma_get_in_segments(ss, 12, "tags"@);
}

proof fn lemma_report_get_13(r: ReportModel)
    requires
        forall|t: int| 0 <= t < r.extra.len() ==> !is_report_field(#[trigger] r.extra[t].0),
    ensures
        obj_get(obj_from(report_pairs(r)), "description"@) == obj_get(obj_from(report_segments(r)[13]), "description"@),
{
    let ss = report_segments(r);
    reveal_strlit("xarf_version");
    reveal_strlit("report_id");
    reveal_strlit("timestamp");
    reveal_strlit("reporter");
    reveal_strlit("sender");
    reveal_strlit("source_identifier");
    reveal_strlit("category");
    reveal_strlit("type");
    reveal_strlit("source_port");
    reveal_strlit("evidence_source");
    reveal_strlit("evidence");
    reveal_strlit("confidence");
    reveal_strlit("tags");
    reveal_strlit("description");
    reveal_strlit("legacy_version");
    reveal_strlit("_internal");
    assert forall|j: int, t: int| 0 <= j < ss.len() && j != 13 && 0 <= t < ss[j].len() implies #[trigger] ss[j][t].0 != "description"@ by {
        if j == 0 {
            assert(ss[0][t].0 == "xarf_version"@);
            assert("xarf_version"@ != "description"@);
        } else if j == 1 {
            assert(ss[1][t].0 == "report_id"@);
            assert("report_id"@ != "description"@);
        } else if j == 2 {
            assert(ss[2][t].0 == "timestamp"@);
            assert("timestamp"@ != "description"@);
        } else if j == 3 {
            assert(ss[3][t].0 == "reporter"@);
            assert("reporter"@ != "description"@);
        } else if j == 4 {
            assert(ss[4][t].0 == "sender"@);
            assert("sender"@ != "description"@);
        } else if j == 5 {
            assert(ss[5][t].0 == "source_identifier"@);
            assert("source_identifier"@ != "description"@);
        } else if j == 6 {
            assert(ss[6][t].0 == "category"@);
            assert("category"@ != "description"@);
        } else if j == 7 {
            assert(ss[7][t].0 == "type"@);
            assert("type"@ != "description"@);
        } else if j == 8 {
            assert(ss[8][t].0 == "source_port"@);
            assert("source_port"@[0] != "description"@[0]);
            assert("source_port"@ != "description"@);
        } else if j == 9 {
            assert(ss[9][t].0 == "evidence_source"@);
            assert("evidence_source"@ != "description"@);
        } else if j == 10 {
            assert(ss[10][t].0 == "evidence"@);
            assert("evidence"@ != "description"@);
        } else if j == 11 {
            assert(ss[11][t].0 == "confidence"@);
            assert("confidence"@ != "description"@);
        } else if j == 12 {
            assert(ss[12][t].0 == "tags"@);
            assert("tags"@ != "description"@);
        } else if j == 14 {
            assert(ss[14][t].0 == "legacy_version"@);
            assert("legacy_version"@ != "description"@);
        } else if j == 15 {
            assert(ss[15][t].0 == "_internal"@);
            assert("_internal"@ != "description"@);
        } else if j == 16 {
            assert(ss[16] == r.extra);
            assert(!is_report_field(r.extra[t].0));
        }
    }
    lemma_report_segments(r);
    lemma_get_in_segments(ss, 13, "description"@);
}

proof fn lemma_report_get_14(r: ReportModel)
    requires
        forall|t: int| 0 <= t < r.extra.len() ==> !is_report_field(#[trigger] r.extra[t].0),
    ensures
        obj_get(obj_from(report_pairs(r)), "legacy_version"@) == obj_get(obj_from(report_segments(r)[14]), "legacy_version"@),
{
    let ss = report_segments(r);
    reveal_strlit("xarf_version");
    reveal_strlit("report_id");
    reveal_strlit("timestamp");
    reveal_strlit("reporter");
    reveal_strlit("sender");
    reveal_strlit("source_identifier");
    reveal_strlit("category");
    reveal_strlit("type");
    reveal_strlit("source_port");
    reveal_strlit("evidence_source");
    reveal_strlit("evidence");
    reveal_strlit("confidence");
    reveal_strlit("tags");
    reveal_strlit("description");
    reveal_strlit("legacy_version");
    reveal_strlit("_internal");
    assert forall|j: int, t: int| 0 <= j < ss.len() && j != 14 && 0 <= t < ss[j].len() implies #[trigger] ss[j][t].0 != "legacy_version"@ by {
        if j == 0 {
            assert(ss[0][t].0 == "xarf_version"@);
            assert("xarf_version"@ != "legacy_version"@);
        } else if j == 1 {
            assert(ss[1][t].0 == "report_id"@);
            assert("report_id"@ != "legacy_version"@);
        } else if j == 2 {
            assert(ss[2][t].0 == "timestamp"@);
            assert("timestamp"@ != "legacy_version"@);
        } else if j == 3 {
            assert(ss[3][t].0 == "reporter"@);
            assert("reporter"@ != "legacy_version"@);
        } else if j == 4 {
            assert(ss[4][t].0 == "sender"@);
            assert("sender"@ != "legacy_version"@);
        } else if j == 5 {
            assert(ss[5][t].0 == "source_identifier"@);
            assert("source_identifier"@ != "legacy_version"@);
        } else if j == 6 {
            assert(ss[6][t].0 == "category"@);
            assert("category"@ != "legacy_version"@);
        } else if j == 7 {
            assert(ss[7][t].0 == "type"@);
            assert("type"@ != "legacy_version"@);
        } else if j == 8 {
            assert(ss[8][t].0 == "source_port"@);
            assert("source_port"@ != "legacy_version"@);
        } else if j == 9 {
            assert(ss[9][t].0 == "evidence_source"@);
            assert("evidence_source"@ != "legacy_version"@);
        } else if j == 10 {
            assert(ss[10][t].0 == "evidence"@);
            assert("evidence"@ != "legacy_version"@);
        } else if j == 11 {
            assert(ss[11][t].0 == "confidence"@);
            assert("confidence"@ != "legacy_version"@);
        } else if j == 12 {
            assert(ss[12][t].0 == "tags"@);
            assert("tags"@ != "legacy_version"@);
        } else if j == 13 {
            assert(ss[13][t].0 == "description"@);
            assert("description"@ != "legacy_version"@);
        } else if j == 15 {
            assert(ss[15][t].0 == "_internal"@);
            assert("_internal"@ != "legacy_version"@);
        } else if j == 16 {
            assert(ss[16] == r.extra);
            assert(!is_report_field(r.extra[t].0));
        }
    }
    lemma_report_segments(r);
    lemma_get_in_segments(ss, 14, "legacy_version"@);
}

proof fn lemma_report_get_15(r: ReportModel)
    requires
        forall|t: int| 0 <= t < r.extra.len() ==> !is_report_field(#[trigger] r.extra[t].0),
    ensures
        obj_get(obj_from(report_pairs(r)), "_internal"@) == obj_get(obj_from(report_segments(r)[15]), "_internal"@),
{
    let ss = report_segments(r);
    reveal_strlit("xarf_version");
    reveal_strlit("report_id");
    reveal_strlit("timestamp");
    reveal_strlit("reporter");
    reveal_strlit("sender");
    reveal_strlit("source_identifier");
    reveal_strlit("category");
    reveal_strlit("type");
    reveal_strlit("source_port");
    reveal_strlit("evidence_source");
    reveal_strlit("evidence");
    reveal_strlit("confidence");
    reveal_strlit("tags");
    reveal_strlit("description");
    reveal_strlit("legacy_version");
    reveal_strlit("_internal");
    assert forall|j: int, t: int| 0 <= j < ss.len() && j != 15 && 0 <= t < ss[j].len() implies #[trigger] ss[j][t].0 != "_internal"@ by {
        if j == 0 {
            assert(ss[0][t].0 == "xarf_version"@);
            assert("xarf_version"@ != "_internal"@);
        } else if j == 1 {
            assert(ss[1][t].0 == "report_id"@);
            assert("report_id"@[0] != "_internal"@[0]);
            assert("report_id"@ != "_internal"@);
        } else if j == 2 {
            assert(ss[2][t].0 == "timestamp"@);
            assert("timestamp"@[0] != "_internal"@[0]);
            assert("timestamp"@ != "_internal"@);
        } else if j == 3 {
            assert(ss[3][t].0 == "reporter"@);
            assert("reporter"@ != "_internal"@);
        } else if j == 4 {
            assert(ss[4][t].0 == "sender"@);
            assert("sender"@ != "_internal"@);
        } else if j == 5 {
            assert(ss[5][t].0 == "source_identifier"@);
            assert("source_identifier"@ != "_internal"@);
        } else if j == 6 {
            assert(ss[6][t].0 == "category"@);
            assert("category"@ != "_internal"@);
        } else if j == 7 {
            assert(ss[7][t].0 == "type"@);
            assert("type"@ != "_internal"@);
        } else if j == 8 {
            assert(ss[8][t].0 == "source_port"@);
            assert("source_port"@ != "_internal"@);
        } else if j == 9 {
            assert(ss[9][t].0 == "evidence_source"@);
            assert("evidence_source"@ != "_internal"@);
        } else if j == 10 {
            assert(ss[10][t].0 == "evidence"@);
            assert("evidence"@ != "_internal"@);
        } else if j == 11 {
            assert(ss[11][t].0 == "confidence"@);
            assert("confidence"@ != "_internal"@);
        } else if j == 12 {
            assert(ss[12][t].0 == "tags"@);
            assert("tags"@ != "_internal"@);
        } else if j == 13 {
            assert(ss[13][t].0 == "description"@);
            assert("description"@ != "_internal"@);
        } else if j == 14 {
            assert(ss[14][t].0 == "legacy_version"@);
            assert("legacy_version"@ != "_internal"@);
        } else if j == 16 {
            assert(ss[16] == r.extra);
            assert(!is_report_field(r.extra[t].0));
        }
    }
    lemma_report_segments(r);
    lemma_get_in_segments(ss, 15, "_internal"@);
}

/// The members of an evidence object in groups, one group per member name.
pub open spec fn evidence_segments(e: EvidenceModel) -> Seq<Seq<(Seq<char>, Json)>> {
    seq![
        seq![("content_type"@, Json::Str(e.content_type))],
        seq![("payload"@, Json::Str(e.payload))],
        opt_pair("description"@, opt_str_json(e.description)),
        opt_pair("hash"@, opt_str_json(e.hash)),
        opt_pair("size"@, opt_u64_json(e.size)),
    ]
}

proof fn lemma_evidence_segments(e: EvidenceModel)
    ensures
        concat_all(evidence_segments(e)) == evidence_pairs(e),
{
    let ss = evidence_segments(e);
    reveal_with_fuel(concat_all, 6);
    assert(concat_all(ss) =~= evidence_pairs(e));
}

proof fn lemma_evidence_get_0(e: EvidenceModel)
    ensures
        obj_get(obj_from(evidence_pairs(e)), "content_type"@) == obj_get(obj_from(evidence_segments(e)[0]), "content_type"@),
{
    let ss = evidence_segments(e);
    reveal_strlit("content_type");
    reveal_strlit("payload");
    reveal_strlit("description");
    reveal_strlit("hash");
    reveal_strlit("size");
    assert forall|j: int, t: int| 0 <= j < ss.len() && j != 0 && 0 <= t < ss[j].len() implies #[trigger] ss[j][t].0 != "content_type"@ by {
        if j == 1 {
            assert(ss[1][t].0 == "payload"@);
            assert("payload"@ != "content_type"@);
        } else if j == 2 {
            assert(ss[2][t].0 == "description"@);
            assert("description"@ != "content_type"@);
        } else if j == 3 {
            assert(ss[3][t].0 == "hash"@);
            assert("hash"@ != "content_type"@);
        } else if j == 4 {
            assert(ss[4][t].0 == "size"@);
            assert("size"@ != "content_type"@);
        }
    }
    lemma_evidence_segments(e);
    lemma_get_in_segments(ss, 0, "content_type"@);
}

proof fn lemma_evidence_get_1(e: EvidenceModel)
    ensures
        obj_get(obj_from(evidence_pairs(e)), "payload"@) == obj_get(obj_from(evidence_segments(e)[1]), "payload"@),
{
    let ss = evidence_segments(e);
    reveal_strlit("content_type");
    reveal_strlit("payload");
    reveal_strlit("description");
    reveal_strlit("hash");
    reveal_strlit("size");
    assert forall|j: int, t: int| 0 <= j < ss.len() && j != 1 && 0 <= t < ss[j].len() implies #[trigger] ss[j][t].0 != "payload"@ by {
        if j == 0 {
            assert(ss[0][t].0 == "content_type"@);
            assert("content_type"@ != "payload"@);
        } else if j == 2 {
            assert(ss[2][t].0 == "description"@);
            assert("description"@ != "payload"@);
        } else if j == 3 {
            assert(ss[3][t].0 == "hash"@);
            assert("hash"@ != "payload"@);
        } else if j == 4 {
            assert(ss[4][t].0 == "size"@);
            assert("size"@ != "payload"@);
        }
    }
    lemma_evidence_segments(e);
    lemma_get_in_segments(ss, 1, "payload"@);
}

proof fn lemma_evidence_get_2(e: EvidenceModel)
    ensures
        obj_get(obj_from(evidence_pairs(e)), "description"@) == obj_get(obj_from(evidence_segments(e)[2]), "description"@),
{
    let ss = evidence_segments(e);
    reveal_strlit("content_type");
    reveal_strlit("payload");
    reveal_strlit("description");
    reveal_strlit("hash");
    reveal_strlit("size");
    assert forall|j: int, t: int| 0 <= j < ss.len() && j != 2 && 0 <= t < ss[j].len() implies #[trigger] ss[j][t].0 != "description"@ by {
        if j == 0 {
            assert(ss[0][t].0 == "content_type"@);
            assert("content_type"@ != "description"@);
        } else if j == 1 {
            assert(ss[1][t].0 == "payload"@);
            assert("payload"@ != "description"@);
        } else if j == 3 {
            assert(ss[3][t].0 == "hash"@);
            assert("hash"@ != "description"@);
        } else if j == 4 {
            assert(ss[4][t].0 == "size"@);
            assert("size"@ != "description"@);
        }
    }
    lemma_evidence_segments(e);
    lemma_get_in_segments(ss, 2, "description"@);
}

proof fn lemma_evidence_get_3(e: EvidenceModel)
    ensures
        obj_get(obj_from(evidence_pairs(e)), "hash"@) == obj_get(obj_from(evidence_segments(e)[3]), "hash"@),
{
    let ss = evidence_segments(e);
    reveal_strlit("content_type");
    reveal_strlit("payload");
    reveal_strlit("description");
    reveal_strlit("hash");
    reveal_strlit("size");
    assert forall|j: int, t: int| 0 <= j < ss.len() && j != 3 && 0 <= t < ss[j].len() implies #[trigger] ss[j][t].0 != "hash"@ by {
        if j == 0 {
            assert(ss[0][t].0 == "content_type"@);
            assert("content_type"@ != "hash"@);
        } else if j == 1 {
            assert(ss[1][t].0 == "payload"@);
            assert("payload"@ != "hash"@);
        } else if j == 2 {
            assert(ss[2][t].0 == "description"@);
            assert("description"@ != "hash"@);
        } else if j == 4 {
            assert(ss[4][t].0 == "size"@);
            assert("size"@[0] != "hash"@[0]);
            assert("size"@ != "hash"@);
        }
    }
    lemma_evidence_segments(e);
    lemma_get_in_segments(ss, 3, "hash"@);
}

proof fn lemma_evidence_get_4(e: EvidenceModel)
    ensures
        obj_get(obj_from(evidence_pairs(e)), "size"@) == obj_get(obj_from(evidence_segments(e)[4]), "size"@),
{
    let ss = evidence_segments(e);
    reveal_strlit("content_type");
    reveal_strlit("payload");
    reveal_strlit("description");
    reveal_strlit("hash");
    reveal_strlit("size");
    assert forall|j: int, t: int| 0 <= j < ss.len() && j != 4 && 0 <= t < ss[j].len() implies #[trigger] ss[j][t].0 != "size"@ by {
        if j == 0 {
            assert(ss[0][t].0 == "content_type"@);
            assert("content_type"@ != "size"@);
        } else if j == 1 {
            assert(ss[1][t].0 == "payload"@);
            assert("payload"@ != "size"@);
        } else if j == 2 {
            assert(ss[2][t].0 == "description"@);
            assert("description"@ != "size"@);
        } else if j == 3 {
            assert(ss[3][t].0 == "hash"@);
            assert("hash"@[0] != "size"@[0]);
            assert("hash"@ != "size"@);
        }
    }
    lemma_evidence_segments(e);
    lemma_get_in_segments(ss, 4, "size"@);
}

/// The members of a contact object in groups, one group per member name.
pub open spec fn contact_segments(c: ContactModel) -> Seq<Seq<(Seq<char>, Json)>> {
    seq![
        seq![("org"@, Json::Str(c.org))],
        seq![("contact"@, Json::Str(c.contact))],
        seq![("domain"@, Json::Str(c.domain))],
    ]
}

proof fn lemma_contact_segments(c: ContactModel)
    ensures
        concat_all(contact_segments(c)) == contact_pairs(c),
{
    let ss = contact_segments(c);
    reveal_with_fuel(concat_all, 4);
    assert(concat_all(ss) =~= contact_pairs(c));
}

proof fn lemma_contact_get_0(c: ContactModel)
    ensures
        obj_get(obj_from(contact_pairs(c)), "org"@) == obj_get(obj_from(contact_segments(c)[0]), "org"@),
{
    let ss = contact_segments(c);
    reveal_strlit("org");
    reveal_strlit("contact");
    reveal_strlit("domain");
    assert forall|j: int, t: int| 0 <= j < ss.len() && j != 0 && 0 <= t < ss[j].len() implies #[trigger] ss[j][t].0 != "org"@ by {
        if j == 1 {
            assert(ss[1][t].0 == "contact"@);
            assert("contact"@ != "org"@);
        } else if j == 2 {
            assert(ss[2][t].0 == "domain"@);
            assert("domain"@ != "org"@);
        }
    }
    lemma_contact_segments(c);
    lemma_get_in_segments(ss, 0, "org"@);
}

proof fn lemma_contact_get_1(c: ContactModel)
    ensures
        obj_get(obj_from(contact_pairs(c)), "contact"@) == obj_get(obj_from(contact_segments(c)[1]), "contact"@),
{
    let ss = contact_segments(c);
    reveal_strlit("org");
    reveal_strlit("contact");
    reveal_strlit("domain");
    assert forall|j: int, t: int| 0 <= j < ss.len() && j != 1 && 0 <= t < ss[j].len() implies #[trigger] ss[j][t].0 != "contact"@ by {
        if j == 0 {
            assert(ss[0][t].0 == "org"@);
            assert("org"@ != "contact"@);
        } else if j == 2 {
            assert(ss[2][t].0 == "domain"@);
            assert("domain"@ != "contact"@);
        }
    }
    lemma_contact_segments(c);
    lemma_get_in_segments(ss, 1, "contact"@);
}

proof fn lemma_contact_get_2(c: ContactModel)
    ensures
        obj_get(obj_from(contact_pairs(c)), "domain"@) == obj_get(obj_from(contact_segments(c)[2]), "domain"@),
{
    let ss = contact_segments(c);
    reveal_strlit("org");
    reveal_strlit("contact");
    reveal_strlit("domain");
    assert forall|j: int, t: int| 0 <= j < ss.len() && j != 2 && 0 <= t < ss[j].len() implies #[trigger] ss[j][t].0 != "domain"@ by {
        if j == 0 {
            assert(ss[0][t].0 == "org"@);
            assert("org"@ != "domain"@);
        } else if j == 1 {
            assert(ss[1][t].0 == "contact"@);
            assert("contact"@ != "domain"@);
        }
    }
    lemma_contact_segments(c);
    lemma_get_in_segments(ss, 2, "domain"@);
}

proof fn lemma_report_get_extra(r: ReportModel, k: Seq<char>)
    requires
        !is_report_field(k),
        keys_sorted(r.extra),
    ensures
        obj_get(obj_from(report_pairs(r)), k) == obj_get(r.extra, k),
{
    let ss = report_segments(r);
    assert forall|j: int, t: int| 0 <= j < ss.len() && j != 16 && 0 <= t < ss[j].len() implies #[trigger] ss[j][t].0 != k by {
        if j == 0 {
            assert(ss[0][t].0 == "xarf_version"@);
        } else if j == 1 {
            assert(ss[1][t].0 == "report_id"@);
        } else if j == 2 {
            assert(ss[2][t].0 == "timestamp"@);
        } else if j == 3 {
            assert(ss[3][t].0 == "reporter"@);
        } else if j == 4 {
            assert(ss[4][t].0 == "sender"@);
        } else if j == 5 {
            assert(ss[5][t].0 == "source_identifier"@);
        } else if j == 6 {
            assert(ss[6][t].0 == "category"@);
        } else if j == 7 {
            assert(ss[7][t].0 == "type"@);
        } else if j == 8 {
            assert(ss[8][t].0 == "source_port"@);
        } else if j == 9 {
            assert(ss[9][t].0 == "evidence_source"@);
        } else if j == 10 {
            assert(ss[10][t].0 == "evidence"@);
        } else if j == 11 {
            assert(ss[11][t].0 == "confidence"@);
        } else if j == 12 {
            assert(ss[12][t].0 == "tags"@);
        } else if j == 13 {
            assert(ss[13][t].0 == "description"@);
        } else if j == 14 {
            assert(ss[14][t].0 == "legacy_version"@);
        } else if j == 15 {
            assert(ss[15][t].0 == "_internal"@);
        }
    }
    lemma_report_segments(r);
    lemma_get_in_segments(ss, 16, k);
    lemma_obj_from_sorted(r.extra);
}

/// A contact reads back from its JSON object.
pub proof fn lemma_contact_round_trip(c: ContactModel)
    ensures
        contact_from_json(contact_json(c)) == Ok::<ContactModel, Seq<char>>(c),
{
    lemma_contact_get_0(c);
    lemma_contact_get_1(c);
    lemma_contact_get_2(c);
    lemma_single("org"@, Json::Str(c.org));
    lemma_single("contact"@, Json::Str(c.contact));
    lemma_single("domain"@, Json::Str(c.domain));
    assert(contact_json(c) == Json::Object(obj_from(contact_pairs(c))));
}

/// An evidence item reads back from its JSON object.
pub proof fn lemma_evidence_round_trip(e: EvidenceModel)
    ensures
        evidence_from_json(evidence_json(e)) == Ok::<EvidenceModel, Seq<char>>(e),
{
    lemma_evidence_get_0(e);
    lemma_evidence_get_1(e);
    lemma_evidence_get_2(e);
    lemma_evidence_get_3(e);
    lemma_evidence_get_4(e);
    lemma_single("content_type"@, Json::Str(e.content_type));
    lemma_single("payload"@, Json::Str(e.payload));
    lemma_opt("description"@, opt_str_json(e.description));
    lemma_opt("hash"@, opt_str_json(e.hash));
    lemma_opt("size"@, opt_u64_json(e.size));
    assert(evidence_json(e) == Json::Object(obj_from(evidence_pairs(e))));
}

/// A list of evidence items reads back from its JSON array.
pub proof fn lemma_evidence_items_round_trip(v: Seq<EvidenceModel>)
    ensures
        evidence_items(v.map_values(|e: EvidenceModel| evidence_json(e))) == Ok::<
            Seq<EvidenceModel>,
            Seq<char>,
        >(v),
    decreases v.len(),
{
    let a = v.map_values(|e: EvidenceModel| evidence_json(e));
    if v.len() > 0 {
        lemma_evidence_items_round_trip(v.drop_last());
        assert(a.drop_last() =~= v.drop_last().map_values(|e: EvidenceModel| evidence_json(e)));
        assert(a.last() == evidence_json(v.last()));
        lemma_evidence_round_trip(v.last());
        assert(v.drop_last().push(v.last()) =~= v);
    } else {
        assert(v =~= Seq::<EvidenceModel>::empty());
    }
}

proof fn lemma_get_push(s: Seq<(Seq<char>, Json)>, p: (Seq<char>, Json), k: Seq<char>)
    ensures
        obj_get(s.push(p), k) == match obj_get(s, k) {
            Some(v) => Some(v),
            None => if p.0 == k {
                Some(p.1)
            } else {
                None::<Json>
            },
        },
    decreases s.len(),
{
    if s.len() > 0 {
        lemma_get_push(s.drop_first(), p, k);
        assert(s.push(p)[0] == s[0]);
        assert(s.push(p).drop_first() =~= s.drop_first().push(p));
    } else {
        assert(s.push(p)[0] == p);
        assert(s.push(p).len() == 1);
        assert(s.push(p).drop_first() =~= Seq::<(Seq<char>, Json)>::empty());
        assert(obj_get(s.push(p).drop_first(), k) is None);
    }
}

/// The non-report members of a sorted object: sorted, each taken from the
/// object, and each key reading as in the object.
proof fn lemma_non_report(es: Seq<(Seq<char>, Json)>)
    requires
        keys_sorted(es),
    ensures
        keys_sorted(non_report_entries(es)),
        forall|t: int|
            0 <= t < non_report_entries(es).len() ==> es.contains(#[trigger] non_report_entries(es)[t]),
        forall|k: Seq<char>|
            #[trigger] obj_get(non_report_entries(es), k) == if is_report_field(k) {
                None
            } else {
                obj_get(es, k)
            },
    decreases es.len(),
{
    if es.len() > 0 {
        let d = es.drop_last();
        let p = es.last();
        assert(p == es[es.len() - 1]);
        assert(keys_sorted(d)) by {
            assert forall|a: int, b: int| 0 <= a < b < d.len() implies seq_lt(
                #[trigger] d[a].0,
                #[trigger] d[b].0,
            ) by {
                assert(d[a] == es[a]);
                assert(d[b] == es[b]);
            }
        }
        lemma_non_report(d);
        let fd = non_report_entries(d);
        assert(es =~= d.push(p));
        assert forall|k: Seq<char>| obj_get(es, k) == match obj_get(d, k) {
            Some(v) => Some(v),
            None => if p.0 == k {
                Some(p.1)
            } else {
                None::<Json>
            },
        } by {
            lemma_get_push(d, p, k);
        }
        assert forall|t: int| 0 <= t < fd.len() implies es.contains(#[trigger] fd[t]) by {
            let j = choose|j: int| 0 <= j < d.len() && d[j] == fd[t];
            assert(es[j] == d[j]);
        }
        if !is_report_field(p.0) {
            let f = fd.push(p);
            assert(non_report_entries(es) == f);
            assert forall|t: int| 0 <= t < fd.len() implies seq_lt(#[trigger] fd[t].0, p.0) by {
                let j = choose|j: int| 0 <= j < d.len() && d[j] == fd[t];
                assert(es[j] == d[j]);
            }
            assert forall|a: int, b: int| 0 <= a < b < f.len() implies seq_lt(
                #[trigger] f[a].0,
                #[trigger] f[b].0,
            ) by {
                assert(f[a] == fd[a]);
                if b < fd.len() {
                    assert(f[b] == fd[b]);
                }
            }
            assert forall|t: int| 0 <= t < f.len() implies es.contains(#[trigger] f[t]) by {
                if t < fd.len() {
                    assert(f[t] == fd[t]);
                } else {
                    assert(es[es.len() - 1] == f[t]);
                }
            }
            assert forall|k: Seq<char>| #[trigger] obj_get(f, k) == if is_report_field(k) {
                None
            } else {
                obj_get(es, k)
            } by {
                lemma_get_push(fd, p, k);
            }
        } else {
            assert(non_report_entries(es) == fd);
        }
    }
}

/// A report reads back from its JSON object, when its extras carry no
/// member name the report reads itself (a `Report` read from JSON never
/// does), its extras are sorted, and its category is not an unknown one
/// spelled like a known one.
pub proof fn lemma_report_round_trip(r: ReportModel)
    requires
        keys_sorted(r.extra),
        forall|t: int| 0 <= t < r.extra.len() ==> !is_report_field(#[trigger] r.extra[t].0),
        category_of(category_name(r.category)) == r.category,
    ensures
        report_from_json(report_json(r)) == Ok::<ReportModel, Seq<char>>(r),
{
    let j = obj_from(report_pairs(r));
    lemma_report_get_0(r);
    lemma_report_get_1(r);
    lemma_report_get_2(r);
    lemma_report_get_3(r);
    lemma_report_get_4(r);
    lemma_report_get_5(r);
    lemma_report_get_6(r);
    lemma_report_get_7(r);
    lemma_report_get_8(r);
    lemma_report_get_9(r);
    lemma_report_get_10(r);
    lemma_report_get_11(r);
    lemma_report_get_12(r);
    lemma_report_get_13(r);
    lemma_report_get_14(r);
    lemma_report_get_15(r);
    lemma_single("xarf_version"@, Json::Str(r.xarf_version));
    lemma_single("report_id"@, Json::Str(r.report_id));
    lemma_single("timestamp"@, Json::Str(r.timestamp));
    lemma_single("reporter"@, contact_json(r.reporter));
    lemma_single("sender"@, contact_json(r.sender));
    lemma_single("source_identifier"@, Json::Str(r.source_identifier));
    lemma_single("category"@, Json::Str(category_name(r.category)));
    lemma_single("type"@, Json::Str(r.type_));
    lemma_opt("source_port"@, opt_port_json(r.source_port));
    lemma_opt("evidence_source"@, opt_str_json(r.evidence_source));
    lemma_opt("evidence"@, opt_evidence_json(r.evidence));
    lemma_opt("confidence"@, opt_num_json(r.confidence));
    lemma_opt("tags"@, opt_tags_json(r.tags));
    lemma_opt("description"@, opt_str_json(r.description));
    lemma_opt("legacy_version"@, opt_str_json(r.legacy_version));
    lemma_opt("_internal"@, opt_obj_json(r.internal));
    lemma_contact_round_trip(r.reporter);
    lemma_contact_round_trip(r.sender);
    match r.evidence {
        Some(v) => {
            lemma_evidence_items_round_trip(v);
        },
        None => {},
    }
    match r.tags {
        Some(v) => {
            lemma_strings_of_strs(v);
        },
        None => {},
    }
    lemma_insert_all_sorted(Seq::empty(), report_pairs(r));
    lemma_non_report(j);
    let f = non_report_entries(j);
    lemma_obj_from_sorted(f);
    assert forall|k: Seq<char>| #[trigger] obj_get(f, k) == obj_get(r.extra, k) by {
        if is_report_field(k) {
            assert forall|t: int| 0 <= t < r.extra.len() implies #[trigger] r.extra[t].0 != k by {}
            lemma_get_absent(r.extra, k);
        } else {
            lemma_report_get_extra(r, k);
        }
    }
    lemma_sorted_ext(f, r.extra);
}

/// After `set_extra(k, v)` the extra `k` reads as `v` and every other
/// extra as before; with a sorted extras object and a name the report does
/// not read itself, the report's JSON object carries `k: v` too.
pub proof fn lemma_set_extra_then_read(r: ReportModel, k: Seq<char>, v: Json, other: Seq<char>)
    requires
        other != k,
    ensures
        obj_get(obj_insert(r.extra, k, v), k) == Some(v),
        obj_get(obj_insert(r.extra, k, v), other) == obj_get(r.extra, other),
        keys_sorted(r.extra) && !is_report_field(k) ==> obj_get(
            obj_from(report_pairs(ReportModel { extra: obj_insert(r.extra, k, v), ..r })),
            k,
        ) == Some(v),
{
    lemma_get_insert_same(r.extra, k, v);
    lemma_get_insert_other(r.extra, k, v, other);
    if keys_sorted(r.extra) && !is_report_field(k) {
        lemma_insert_sorted(r.extra, k, v);
        lemma_report_get_extra(ReportModel { extra: obj_insert(r.extra, k, v), ..r }, k);
    }
}

proof fn lemma_report_get_internal(r: ReportModel)
    requires
        forall|t: int| 0 <= t < r.extra.len() ==> #[trigger] r.extra[t].0 != "_internal"@,
    ensures
        obj_get(obj_from(report_pairs(r)), "_internal"@) == obj_get(obj_from(report_segments(r)[15]), "_internal"@),
{
    let ss = report_segments(r);
    reveal_strlit("xarf_version");
    reveal_strlit("report_id");
    reveal_strlit("timestamp");
    reveal_strlit("reporter");
    reveal_strlit("sender");
    reveal_strlit("source_identifier");
    reveal_strlit("category");
    reveal_strlit("type");
    reveal_strlit("source_port");
    reveal_strlit("evidence_source");
    reveal_strlit("evidence");
    reveal_strlit("confidence");
    reveal_strlit("tags");
    reveal_strlit("description");
    reveal_strlit("legacy_version");
    reveal_strlit("_internal");
    assert forall|j: int, t: int| 0 <= j < ss.len() && j != 15 && 0 <= t < ss[j].len() implies #[trigger] ss[j][t].0 != "_internal"@ by {
        if j == 0 {
            assert(ss[0][t].0 == "xarf_version"@);
            assert("xarf_version"@ != "_internal"@);
        } else if j == 1 {
            assert(ss[1][t].0 == "report_id"@);
            assert("report_id"@[0] != "_internal"@[0]);
            assert("report_id"@ != "_internal"@);
        } else if j == 2 {
            assert(ss[2][t].0 == "timestamp"@);
            assert("timestamp"@[0] != "_internal"@[0]);
            assert("timestamp"@ != "_internal"@);
        } else if j == 3 {
            assert(ss[3][t].0 == "reporter"@);
            assert("reporter"@ != "_internal"@);
        } else if j == 4 {
            assert(ss[4][t].0 == "sender"@);
            assert("sender"@ != "_internal"@);
        } else if j == 5 {
            assert(ss[5][t].0 == "source_identifier"@);
            assert("source_identifier"@ != "_internal"@);
        } else if j == 6 {
            assert(ss[6][t].0 == "category"@);
            assert("category"@ != "_internal"@);
        } else if j == 7 {
            assert(ss[7][t].0 == "type"@);
            assert("type"@ != "_internal"@);
        } else if j == 8 {
            assert(ss[8][t].0 == "source_port"@);
            assert("source_port"@ != "_internal"@);
        } else if j == 9 {
            assert(ss[9][t].0 == "evidence_source"@);
            assert("evidence_source"@ != "_internal"@);
        } else if j == 10 {
            assert(ss[10][t].0 == "evidence"@);
            assert("evidence"@ != "_internal"@);
        } else if j == 11 {
            assert(ss[11][t].0 == "confidence"@);
            assert("confidence"@ != "_internal"@);
        } else if j == 12 {
            assert(ss[12][t].0 == "tags"@);
            assert("tags"@ != "_internal"@);
        } else if j == 13 {
            assert(ss[13][t].0 == "description"@);
            assert("description"@ != "_internal"@);
        } else if j == 14 {
            assert(ss[14][t].0 == "legacy_version"@);
            assert("legacy_version"@ != "_internal"@);
        } else if j == 16 {
            assert(ss[16] == r.extra);
            assert(r.extra[t].0 != "_internal"@);
        }
    }
    lemma_report_segments(r);
    lemma_get_in_segments(ss, 15, "_internal"@);
}

/// A report without an internal block whose extras hold no `_internal`
/// member (as after `strip_internal`, or for any report read from JSON) has
/// no `_internal` member in its JSON object.
pub proof fn lemma_no_internal_member(r: ReportModel)
    requires
        r.internal is None,
        forall|t: int| 0 <= t < r.extra.len() ==> #[trigger] r.extra[t].0 != "_internal"@,
    ensures
        obj_get(obj_from(report_pairs(r)), "_internal"@) is None,
{
    lemma_report_get_internal(r);
    lemma_opt("_internal"@, opt_obj_json(r.internal));
}

/// The members of a builder's document in groups, one group per member name (extras last).
pub open spec fn builder_segments(b: BuilderModel, rep: ContactModel, snd: ContactModel, ts: Seq<char>, id: Seq<char>, ver: Seq<char>) -> Seq<Seq<(Seq<char>, Json)>> {
    seq![
        seq![("xarf_version"@, Json::Str(ver))],
        seq![("report_id"@, Json::Str(id))],
        seq![("timestamp"@, Json::Str(ts))],
        seq![("reporter"@, contact_json(rep))],
        seq![("sender"@, contact_json(snd))],
        seq![("source_identifier"@, Json::Str(b.source_identifier))],
        seq![("category"@, Json::Str(b.category))],
        seq![("type"@, Json::Str(b.type_))],
        opt_pair("source_port"@, opt_port_json(b.source_port)),
        opt_pair("evidence_source"@, opt_str_json(b.evidence_source)),
        opt_pair("evidence"@, opt_evidence_values(b.evidence)),
        opt_pair("tags"@, opt_tag_values(b.tags)),
        opt_pair("confidence"@, opt_num_json(b.confidence)),
        opt_pair("description"@, opt_str_json(b.description)),
        opt_pair("_internal"@, opt_obj_json(b.internal)),
        b.extras,
    ]
}

#[verifier::spinoff_prover]
#[verifier::rlimit(100)]
proof fn lemma_builder_segments(b: BuilderModel, rep: ContactModel, snd: ContactModel, ts: Seq<char>, id: Seq<char>, ver: Seq<char>)
    ensures
        concat_all(builder_segments(b, rep, snd, ts, id, ver)) == builder_pairs(b, rep, snd, ts, id, ver),
{
    let ss = builder_segments(b, rep, snd, ts, id, ver);
    reveal_with_fuel(concat_all, 17);
    let whole = builder_core_pairs(b, rep, snd, ts, id, ver) + optional_head_pairs(b)
        + optional_tail_pairs(b) + b.extras;
    assert(builder_pairs(b, rep, snd, ts, id, ver) =~= whole);
    assert(concat_all(ss) =~= whole);
}

proof fn lemma_builder_get_0(b: BuilderModel, rep: ContactModel, snd: ContactModel, ts: Seq<char>, id: Seq<char>, ver: Seq<char>)
    requires
        forall|t: int| 0 <= t < b.extras.len() ==> #[trigger] b.extras[t].0 != "xarf_version"@,
    ensures
        obj_get(obj_from(builder_pairs(b, rep, snd, ts, id, ver)), "xarf_version"@) == obj_get(obj_from(builder_segments(b, rep, snd, ts, id, ver)[0]), "xarf_version"@),
{
    let ss = builder_segments(b, rep, snd, ts, id, ver);
    reveal_strlit("xarf_version");
    reveal_strlit("report_id");
    reveal_strlit("timestamp");
    reveal_strlit("reporter");
    reveal_strlit("sender");
    reveal_strlit("source_identifier");
    reveal_strlit("category");
    reveal_strlit("type");
    reveal_strlit("source_port");
    reveal_strlit("evidence_source");
    reveal_strlit("evidence");
    reveal_strlit("tags");
    reveal_strlit("confidence");
    reveal_strlit("description");
    reveal_strlit("_internal");
    assert forall|j: int, t: int| 0 <= j < ss.len() && j != 0 && 0 <= t < ss[j].len() implies #[trigger] ss[j][t].0 != "xarf_version"@ by {
        if j == 1 {
            assert(ss[1][t].0 == "report_id"@);
            assert("report_id"@ != "xarf_version"@);
        } else if j == 2 {
            assert(ss[2][t].0 == "timestamp"@);
            assert("timestamp"@ != "xarf_version"@);
        } else if j == 3 {
            assert(ss[3][t].0 == "reporter"@);
            assert("reporter"@ != "xarf_version"@);
        } else if j == 4 {
            assert(ss[4][t].0 == "sender"@);
            assert("sender"@ != "xarf_version"@);
        } else if j == 5 {
            assert(ss[5][t].0 == "source_identifier"@);
            assert("source_identifier"@ != "xarf_version"@);
        } else if j == 6 {
            assert(ss[6][t].0 == "category"@);
            assert("category"@ != "xarf_version"@);
        } else if j == 7 {
            assert(ss[7][t].0 == "type"@);
            assert("type"@ != "xarf_version"@);
        } else if j == 8 {
            assert(ss[8][t].0 == "source_port"@);
            assert("source_port"@ != "xarf_version"@);
        } else if j == 9 {
            assert(ss[9][t].0 == "evidence_source"@);
            assert("evidence_source"@ != "xarf_version"@);
        } else if j == 10 {
            assert(ss[10][t].0 == "evidence"@);
            assert("evidence"@ != "xarf_version"@);
        } else if j == 11 {
            assert(ss[11][t].0 == "tags"@);
            assert("tags"@ != "xarf_version"@);
        } else if j == 12 {
            assert(ss[12][t].0 == "confidence"@);
            assert("confidence"@ != "xarf_version"@);
        } else if j == 13 {
            assert(ss[13][t].0 == "description"@);
            assert("description"@ != "xarf_version"@);
        } else if j == 14 {
            assert(ss[14][t].0 == "_internal"@);
            assert("_internal"@ != "xarf_version"@);
        } else if j == 15 {
            assert(ss[15] == b.extras);
        }
    }
    lemma_builder_segments(b, rep, snd, ts, id, ver);
    lemma_get_in_segments(ss, 0, "xarf_version"@);
}

proof fn lemma_builder_get_1(b: BuilderModel, rep: ContactModel, snd: ContactModel, ts: Seq<char>, id: Seq<char>, ver: Seq<char>)
    requires
        forall|t: int| 0 <= t < b.extras.len() ==> #[trigger] b.extras[t].0 != "report_id"@,
    ensures
        obj_get(obj_from(builder_pairs(b, rep, snd, ts, id, ver)), "report_id"@) == obj_get(obj_from(builder_segments(b, rep, snd, ts, id, ver)[1]), "report_id"@),
{
    let ss = builder_segments(b, rep, snd, ts, id, ver);
    reveal_strlit("xarf_version");
    reveal_strlit("report_id");
    reveal_strlit("timestamp");
    reveal_strlit("reporter");
    reveal_strlit("sender");
    reveal_strlit("source_identifier");
    reveal_strlit("category");
    reveal_strlit("type");
    reveal_strlit("source_port");
    reveal_strlit("evidence_source");
    reveal_strlit("evidence");
    reveal_strlit("tags");
    reveal_strlit("confidence");
    reveal_strlit("description");
    reveal_strlit("_internal");
    assert forall|j: int, t: int| 0 <= j < ss.len() && j != 1 && 0 <= t < ss[j].len() implies #[trigger] ss[j][t].0 != "report_id"@ by {
        if j == 0 {
            assert(ss[0][t].0 == "xarf_version"@);
            assert("xarf_version"@ != "report_id"@);
        } else if j == 2 {
            assert(ss[2][t].0 == "timestamp"@);
            assert("timestamp"@[0] != "report_id"@[0]);
            assert("timestamp"@ != "report_id"@);
        } else if j == 3 {
            assert(ss[3][t].0 == "reporter"@);
            assert("reporter"@ != "report_id"@);
        } else if j == 4 {
            assert(ss[4][t].0 == "sender"@);
            assert("sender"@ != "report_id"@);
        } else if j == 5 {
            assert(ss[5][t].0 == "source_identifier"@);
            assert("source_identifier"@ != "report_id"@);
        } else if j == 6 {
            assert(ss[6][t].0 == "category"@);
            assert("category"@ != "report_id"@);
        } else if j == 7 {
            assert(ss[7][t].0 == "type"@);
            assert("type"@ != "report_id"@);
        } else if j == 8 {
            assert(ss[8][t].0 == "source_port"@);
            assert("source_port"@ != "report_id"@);
        } else if j == 9 {
            assert(ss[9][t].0 == "evidence_source"@);
            assert("evidence_source"@ != "report_id"@);
        } else if j == 10 {
            assert(ss[10][t].0 == "evidence"@);
            assert("evidence"@ != "report_id"@);
        } else if j == 11 {
            assert(ss[11][t].0 == "tags"@);
            assert("tags"@ != "report_id"@);
        } else if j == 12 {
            assert(ss[12][t].0 == "confidence"@);
            assert("confidence"@ != "report_id"@);
        } else if j == 13 {
            assert(ss[13][t].0 == "description"@);
            assert("description"@ != "report_id"@);
        } else if j == 14 {
            assert(ss[14][t].0 == "_internal"@);
            assert("_internal"@[0] != "report_id"@[0]);
            assert("_internal"@ != "report_id"@);
        } else if j == 15 {
            assert(ss[15] == b.extras);
        }
    }
    lemma_builder_segments(b, rep, snd, ts, id, ver);
    lemma_get_in_segments(ss, 1, "report_id"@);
}

proof fn lemma_builder_get_2(b: BuilderModel, rep: ContactModel, snd: ContactModel, ts: Seq<char>, id: Seq<char>, ver: Seq<char>)
    requires
        forall|t: int| 0 <= t < b.extras.len() ==> #[trigger] b.extras[t].0 != "timestamp"@,
    ensures
        obj_get(obj_from(builder_pairs(b, rep, snd, ts, id, ver)), "timestamp"@) == obj_get(obj_from(builder_segments(b, rep, snd, ts, id, ver)[2]), "timestamp"@),
{
    let ss = builder_segments(b, rep, snd, ts, id, ver);
    reveal_strlit("xarf_version");
    reveal_strlit("report_id");
    reveal_strlit("timestamp");
    reveal_strlit("reporter");
    reveal_strlit("sender");
    reveal_strlit("source_identifier");
    reveal_strlit("category");
    reveal_strlit("type");
    reveal_strlit("source_port");
    reveal_strlit("evidence_source");
    reveal_strlit("evidence");
    reveal_strlit("tags");
    reveal_strlit("confidence");
    reveal_strlit("description");
    reveal_strlit("_internal");
    assert forall|j: int, t: int| 0 <= j < ss.len() && j != 2 && 0 <= t < ss[j].len() implies #[trigger] ss[j][t].0 != "timestamp"@ by {
        if j == 0 {
            assert(ss[0][t].0 == "xarf_version"@);
            assert("xarf_version"@ != "timestamp"@);
        } else if j == 1 {
            assert(ss[1][t].0 == "report_id"@);
            assert("report_id"@[0] != "timestamp"@[0]);
            assert("report_id"@ != "timestamp"@);
        } else if j == 3 {
            assert(ss[3][t].0 == "reporter"@);
            assert("reporter"@ != "timestamp"@);
        } else if j == 4 {
            assert(ss[4][t].0 == "sender"@);
            assert("sender"@ != "timestamp"@);
        } else if j == 5 {
            assert(ss[5][t].0 == "source_identifier"@);
            assert("source_identifier"@ != "timestamp"@);
        } else if j == 6 {
            assert(ss[6][t].0 == "category"@);
            assert("category"@ != "timestamp"@);
        } else if j == 7 {
            assert(ss[7][t].0 == "type"@);
            assert("type"@ != "timestamp"@);
        } else if j == 8 {
            assert(ss[8][t].0 == "source_port"@);
            assert("source_port"@ != "timestamp"@);
        } else if j == 9 {
            assert(ss[9][t].0 == "evidence_source"@);
            assert("evidence_source"@ != "timestamp"@);
        } else if j == 10 {
            assert(ss[10][t].0 == "evidence"@);
            assert("evidence"@ != "timestamp"@);
        } else if j == 11 {
            assert(ss[11][t].0 == "tags"@);
            assert("tags"@ != "timestamp"@);
        } else if j == 12 {
            assert(ss[12][t].0 == "confidence"@);
            assert("confidence"@ != "timestamp"@);
        } else if j == 13 {
            assert(ss[13][t].0 == "description"@);
            assert("description"@ != "timestamp"@);
        } else if j == 14 {
            assert(ss[14][t].0 == "_internal"@);
            assert("_internal"@[0] != "timestamp"@[0]);
            assert("_internal"@ != "timestamp"@);
        } else if j == 15 {
            assert(ss[15] == b.extras);
        }
    }
    lemma_builder_segments(b, rep, snd, ts, id, ver);
    lemma_get_in_segments(ss, 2, "timestamp"@);
}

proof fn lemma_builder_get_3(b: BuilderModel, rep: ContactModel, snd: ContactModel, ts: Seq<char>, id: Seq<char>, ver: Seq<char>)
    requires
        forall|t: int| 0 <= t < b.extras.len() ==> #[trigger] b.extras[t].0 != "reporter"@,
    ensures
        obj_get(obj_from(builder_pairs(b, rep, snd, ts, id, ver)), "reporter"@) == obj_get(obj_from(builder_segments(b, rep, snd, ts, id, ver)[3]), "reporter"@),
{
    let ss = builder_segments(b, rep, snd, ts, id, ver);
    reveal_strlit("xarf_version");
    reveal_strlit("report_id");
    reveal_strlit("timestamp");
    reveal_strlit("reporter");
    reveal_strlit("sender");
    reveal_strlit("source_identifier");
    reveal_strlit("category");
    reveal_strlit("type");
    reveal_strlit("source_port");
    reveal_strlit("evidence_source");
    reveal_strlit("evidence");
    reveal_strlit("tags");
    reveal_strlit("confidence");
    reveal_strlit("description");
    reveal_strlit("_internal");
    assert forall|j: int, t: int| 0 <= j < ss.len() && j != 3 && 0 <= t < ss[j].len() implies #[trigger] ss[j][t].0 != "reporter"@ by {
        if j == 0 {
            assert(ss[0][t].0 == "xarf_version"@);
            assert("xarf_version"@ != "reporter"@);
        } else if j == 1 {
            assert(ss[1][t].0 == "report_id"@);
            assert("report_id"@ != "reporter"@);
        } else if j == 2 {
            assert(ss[2][t].0 == "timestamp"@);
            assert("timestamp"@ != "reporter"@);
        } else if j == 4 {
            assert(ss[4][t].0 == "sender"@);
            assert("sender"@ != "reporter"@);
        } else if j == 5 {
            assert(ss[5][t].0 == "source_identifier"@);
            assert("source_identifier"@ != "reporter"@);
        } else if j == 6 {
            assert(ss[6][t].0 == "category"@);
            assert("category"@[0] != "reporter"@[0]);
            assert("category"@ != "reporter"@);
        } else if j == 7 {
            assert(ss[7][t].0 == "type"@);
            assert("type"@ != "reporter"@);
        } else if j == 8 {
            assert(ss[8][t].0 == "source_port"@);
            assert("source_port"@ != "reporter"@);
        } else if j == 9 {
            assert(ss[9][t].0 == "evidence_source"@);
            assert("evidence_source"@ != "reporter"@);
        } else if j == 10 {
            assert(ss[10][t].0 == "evidence"@);
            assert("evidence"@[0] != "reporter"@[0]);
            assert("evidence"@ != "reporter"@);
        } else if j == 11 {
            assert(ss[11][t].0 == "tags"@);
            assert("tags"@ != "reporter"@);
        } else if j == 12 {
            assert(ss[12][t].0 == "confidence"@);
            assert("confidence"@ != "reporter"@);
        } else if j == 13 {
            assert(ss[13][t].0 == "description"@);
            assert("description"@ != "reporter"@);
        } else if j == 14 {
            assert(ss[14][t].0 == "_internal"@);
            assert("_internal"@ != "reporter"@);
        } else if j == 15 {
            assert(ss[15] == b.extras);
        }
    }
    lemma_builder_segments(b, rep, snd, ts, id, ver);
    lemma_get_in_segments(ss, 3, "reporter"@);
}

proof fn lemma_builder_get_4(b: BuilderModel, rep: ContactModel, snd: ContactModel, ts: Seq<char>, id: Seq<char>, ver: Seq<char>)
    requires
        forall|t: int| 0 <= t < b.extras.len() ==> #[trigger] b.extras[t].0 != "sender"@,
    ensures
        obj_get(obj_from(builder_pairs(b, rep, snd, ts, id, ver)), "sender"@) == obj_get(obj_from(builder_segments(b, rep, snd, ts, id, ver)[4]), "sender"@),
{
    let ss = builder_segments(b, rep, snd, ts, id, ver);
    reveal_strlit("xarf_version");
    reveal_strlit("report_id");
    reveal_strlit("timestamp");
    reveal_strlit("reporter");
    reveal_strlit("sender");
    reveal_strlit("source_identifier");
    reveal_strlit("category");
    reveal_strlit("type");
    reveal_strlit("source_port");
    reveal_strlit("evidence_source");
    reveal_strlit("evidence");
    reveal_strlit("tags");
    reveal_strlit("confidence");
    reveal_strlit("description");
    reveal_strlit("_internal");
    assert forall|j: int, t: int| 0 <= j < ss.len() && j != 4 && 0 <= t < ss[j].len() implies #[trigger] ss[j][t].0 != "sender"@ by {
        if j == 0 {
            assert(ss[0][t].0 == "xarf_version"@);
            assert("xarf_version"@ != "sender"@);
        } else if j == 1 {
            assert(ss[1][t].0 == "report_id"@);
            assert("report_id"@ != "sender"@);
        } else if j == 2 {
            assert(ss[2][t].0 == "timestamp"@);
            assert("timestamp"@ != "sender"@);
        } else if j == 3 {
            assert(ss[3][t].0 == "reporter"@);
            assert("reporter"@ != "sender"@);
        } else if j == 5 {
            assert(ss[5][t].0 == "source_identifier"@);
            assert("source_identifier"@ != "sender"@);
        } else if j == 6 {
            assert(ss[6][t].0 == "category"@);
            assert("category"@ != "sender"@);
        } else if j == 7 {
            assert(ss[7][t].0 == "type"@);
            assert("type"@ != "sender"@);
        } else if j == 8 {
            assert(ss[8][t].0 == "source_port"@);
            assert("source_port"@ != "sender"@);
        } else if j == 9 {
            assert(ss[9][t].0 == "evidence_source"@);
            assert("evidence_source"@ != "sender"@);
        } else if j == 10 {
            assert(ss[10][t].0 == "evidence"@);
            assert("evidence"@ != "sender"@);
        } else if j == 11 {
            assert(ss[11][t].0 == "tags"@);
            assert("tags"@ != "sender"@);
        } else if j == 12 {
            assert(ss[12][t].0 == "confidence"@);
            assert("confidence"@ != "sender"@);
        } else if j == 13 {
            assert(ss[13][t].0 == "description"@);
            assert("description"@ != "sender"@);
        } else if j == 14 {
            assert(ss[14][t].0 == "_internal"@);
            assert("_internal"@ != "sender"@);
        } else if j == 15 {
            assert(ss[15] == b.extras);
        }
    }
    lemma_builder_segments(b, rep, snd, ts, id, ver);
    lemma_get_in_segments(ss, 4, "sender"@);
}

proof fn lemma_builder_get_5(b: BuilderModel, rep: ContactModel, snd: ContactModel, ts: Seq<char>, id: Seq<char>, ver: Seq<char>)
    requires
        forall|t: int| 0 <= t < b.extras.len() ==> #[trigger] b.extras[t].0 != "source_identifier"@,
    ensures
        obj_get(obj_from(builder_pairs(b, rep, snd, ts, id, ver)), "source_identifier"@) == obj_get(obj_from(builder_segments(b, rep, snd, ts, id, ver)[5]), "source_identifier"@),
{
    let ss = builder_segments(b, rep, snd, ts, id, ver);
    reveal_strlit("xarf_version");
    reveal_strlit("report_id");
    reveal_strlit("timestamp");
    reveal_strlit("reporter");
    reveal_strlit("sender");
    reveal_strlit("source_identifier");
    reveal_strlit("category");
    reveal_strlit("type");
    reveal_strlit("source_port");
    reveal_strlit("evidence_source");
    reveal_strlit("evidence");
    reveal_strlit("tags");
    reveal_strlit("confidence");
    reveal_strlit("description");
    reveal_strlit("_internal");
    assert forall|j: int, t: int| 0 <= j < ss.len() && j != 5 && 0 <= t < ss[j].len() implies #[trigger] ss[j][t].0 != "source_identifier"@ by {
        if j == 0 {
            assert(ss[0][t].0 == "xarf_version"@);
            assert("xarf_version"@ != "source_identifier"@);
        } else if j == 1 {
            assert(ss[1][t].0 == "report_id"@);
            assert("report_id"@ != "source_identifier"@);
        } else if j == 2 {
            assert(ss[2][t].0 == "timestamp"@);
            assert("timestamp"@ != "source_identifier"@);
        } else if j == 3 {
            assert(ss[3][t].0 == "reporter"@);
            assert("reporter"@ != "source_identifier"@);
        } else if j == 4 {
            assert(ss[4][t].0 == "sender"@);
            assert("sender"@ != "source_identifier"@);
        } else if j == 6 {
            assert(ss[6][t].0 == "category"@);
            assert("category"@ != "source_identifier"@);
        } else if j == 7 {
            assert(ss[7][t].0 == "type"@);
            assert("type"@ != "source_identifier"@);
        } else if j == 8 {
            assert(ss[8][t].0 == "source_port"@);
            assert("source_port"@ != "source_identifier"@);
        } else if j == 9 {
            assert(ss[9][t].0 == "evidence_source"@);
            assert("evidence_source"@ != "source_identifier"@);
        } else if j == 10 {
            assert(ss[10][t].0 == "evidence"@);
            assert("evidence"@ != "source_identifier"@);
        } else if j == 11 {
            assert(ss[11][t].0 == "tags"@);
            assert("tags"@ != "source_identifier"@);
        } else if j == 12 {
            assert(ss[12][t].0 == "confidence"@);
            assert("confidence"@ != "source_identifier"@);
        } else if j == 13 {
            assert(ss[13][t].0 == "description"@);
            assert("description"@ != "source_identifier"@);
        } else if j == 14 {
            assert(ss[14][t].0 == "_internal"@);
            assert("_internal"@ != "source_identifier"@);
        } else if j == 15 {
            assert(ss[15] == b.extras);
        }
    }
    lemma_builder_segments(b, rep, snd, ts, id, ver);
    lemma_get_in_segments(ss, 5, "source_identifier"@);
}

proof fn lemma_builder_get_6(b: BuilderModel, rep: ContactModel, snd: ContactModel, ts: Seq<char>, id: Seq<char>, ver: Seq<char>)
    requires
        forall|t: int| 0 <= t < b.extras.len() ==> #[trigger] b.extras[t].0 != "category"@,
    ensures
        obj_get(obj_from(builder_pairs(b, rep, snd, ts, id, ver)), "category"@) == obj_get(obj_from(builder_segments(b, rep, snd, ts, id, ver)[6]), "category"@),
{
    let ss = builder_segments(b, rep, snd, ts, id, ver);
    reveal_strlit("xarf_version");
    reveal_strlit("report_id");
    reveal_strlit("timestamp");
    reveal_strlit("reporter");
    reveal_strlit("sender");
    reveal_strlit("source_identifier");
    reveal_strlit("category");
    reveal_strlit("type");
    reveal_strlit("source_port");
    reveal_strlit("evidence_source");
    reveal_strlit("evidence");
    reveal_strlit("tags");
    reveal_strlit("confidence");
    reveal_strlit("description");
    reveal_strlit("_internal");
    assert forall|j: int, t: int| 0 <= j < ss.len() && j != 6 && 0 <= t < ss[j].len() implies #[trigger] ss[j][t].0 != "category"@ by {
        if j == 0 {
            assert(ss[0][t].0 == "xarf_version"@);
            assert("xarf_version"@ != "category"@);
        } else if j == 1 {
            assert(ss[1][t].0 == "report_id"@);
            assert("report_id"@ != "category"@);
        } else if j == 2 {
            assert(ss[2][t].0 == "timestamp"@);
            assert("timestamp"@ != "category"@);
        } else if j == 3 {
            assert(ss[3][t].0 == "reporter"@);
            assert("reporter"@[0] != "category"@[0]);
            assert("reporter"@ != "category"@);
        } else if j == 4 {
            assert(ss[4][t].0 == "sender"@);
            assert("sender"@ != "category"@);
        } else if j == 5 {
            assert(ss[5][t].0 == "source_identifier"@);
            assert("source_identifier"@ != "category"@);
        } else if j == 7 {
            assert(ss[7][t].0 == "type"@);
            assert("type"@ != "category"@);
        } else if j == 8 {
            assert(ss[8][t].0 == "source_port"@);
            assert("source_port"@ != "category"@);
        } else if j == 9 {
            assert(ss[9][t].0 == "evidence_source"@);
            assert("evidence_source"@ != "category"@);
        } else if j == 10 {
            assert(ss[10][t].0 == "evidence"@);
            assert("evidence"@[0] != "category"@[0]);
            assert("evidence"@ != "category"@);
        } else if j == 11 {
            assert(ss[11][t].0 == "tags"@);
            assert("tags"@ != "category"@);
        } else if j == 12 {
            assert(ss[12][t].0 == "confidence"@);
            assert("confidence"@ != "category"@);
        } else if j == 13 {
            assert(ss[13][t].0 == "description"@);
            assert("description"@ != "category"@);
        } else if j == 14 {
            assert(ss[14][t].0 == "_internal"@);
            assert("_internal"@ != "category"@);
        } else if j == 15 {
            assert(ss[15] == b.extras);
        }
    }
    lemma_builder_segments(b, rep, snd, ts, id, ver);
    lemma_get_in_segments(ss, 6, "category"@);
}

proof fn lemma_builder_get_7(b: BuilderModel, rep: ContactModel, snd: ContactModel, ts: Seq<char>, id: Seq<char>, ver: Seq<char>)
    requires
        forall|t: int| 0 <= t < b.extras.len() ==> #[trigger] b.extras[t].0 != "type"@,
    ensures
        obj_get(obj_from(builder_pairs(b, rep, snd, ts, id, ver)), "type"@) == obj_get(obj_from(builder_segments(b, rep, snd, ts, id, ver)[7]), "type"@),
{
    let ss = builder_segments(b, rep, snd, ts, id, ver);
    reveal_strlit("xarf_version");
    reveal_strlit("report_id");
    reveal_strlit("timestamp");
    reveal_strlit("reporter");
    reveal_strlit("sender");
    reveal_strlit("source_identifier");
    reveal_strlit("category");
    reveal_strlit("type");
    reveal_strlit("source_port");
    reveal_strlit("evidence_source");
    reveal_strlit("evidence");
    reveal_strlit("tags");
    reveal_strlit("confidence");
    reveal_strlit("description");
    reveal_strlit("_internal");
    assert forall|j: int, t: int| 0 <= j < ss.len() && j != 7 && 0 <= t < ss[j].len() implies #[trigger] ss[j][t].0 != "type"@ by {
        if j == 0 {
            assert(ss[0][t].0 == "xarf_version"@);
            assert("xarf_version"@ != "type"@);
        } else if j == 1 {
            assert(ss[1][t].0 == "report_id"@);
            assert("report_id"@ != "type"@);
        } else if j == 2 {
            assert(ss[2][t].0 == "timestamp"@);
            assert("timestamp"@ != "type"@);
        } else if j == 3 {
            assert(ss[3][t].0 == "reporter"@);
            assert("reporter"@ != "type"@);
        } else if j == 4 {
            assert(ss[4][t].0 == "sender"@);
            assert("sender"@ != "type"@);
        } else if j == 5 {
            assert(ss[5][t].0 == "source_identifier"@);
            assert("source_identifier"@ != "type"@);
        } else if j == 6 {
            assert(ss[6][t].0 == "category"@);
            assert("category"@ != "type"@);
        } else if j == 8 {
            assert(ss[8][t].0 == "source_port"@);
            assert("source_port"@ != "type"@);
        } else if j == 9 {
            assert(ss[9][t].0 == "evidence_source"@);
            assert("evidence_source"@ != "type"@);
        } else if j == 10 {
            assert(ss[10][t].0 == "evidence"@);
            assert("evidence"@ != "type"@);
        } else if j == 11 {
            assert(ss[11][t].0 == "tags"@);
            assert("tags"@[1] != "type"@[1]);
            assert("tags"@ != "type"@);
        } else if j == 12 {
            assert(ss[12][t].0 == "confidence"@);
            assert("confidence"@ != "type"@);
        } else if j == 13 {
            assert(ss[13][t].0 == "description"@);
            assert("description"@ != "type"@);
        } else if j == 14 {
            assert(ss[14][t].0 == "_internal"@);
            assert("_internal"@ != "type"@);
        } else if j == 15 {
            assert(ss[15] == b.extras);
        }
    }
    lemma_builder_segments(b, rep, snd, ts, id, ver);
    lemma_get_in_segments(ss, 7, "type"@);
}

/// The document a builder assembles carries its core members as given,
/// unless an extra of the same name replaces them: the version, report id,
/// timestamp, reporter, sender, source identifier, category and type.
pub proof fn lemma_builder_core_members(
    b: BuilderModel,
    rep: ContactModel,
    snd: ContactModel,
    ts: Seq<char>,
    id: Seq<char>,
)
    ensures
        (forall|t: int| 0 <= t < b.extras.len() ==> #[trigger] b.extras[t].0 != "xarf_version"@)
            ==> built_document(b, rep, snd, ts, id).get("xarf_version"@) == Some(
            Json::Str(version_or_default(b.xarf_version)),
        ),
        (forall|t: int| 0 <= t < b.extras.len() ==> #[trigger] b.extras[t].0 != "report_id"@)
            ==> built_document(b, rep, snd, ts, id).get("report_id"@) == Some(Json::Str(id)),
        (forall|t: int| 0 <= t < b.extras.len() ==> #[trigger] b.extras[t].0 != "timestamp"@)
            ==> built_document(b, rep, snd, ts, id).get("timestamp"@) == Some(Json::Str(ts)),
        (forall|t: int| 0 <= t < b.extras.len() ==> #[trigger] b.extras[t].0 != "reporter"@)
            ==> built_document(b, rep, snd, ts, id).get("reporter"@) == Some(contact_json(rep)),
        (forall|t: int| 0 <= t < b.extras.len() ==> #[trigger] b.extras[t].0 != "sender"@)
            ==> built_document(b, rep, snd, ts, id).get("sender"@) == Some(contact_json(snd)),
        (forall|t: int| 0 <= t < b.extras.len() ==> #[trigger] b.extras[t].0 != "source_identifier"@)
            ==> built_document(b, rep, snd, ts, id).get("source_identifier"@) == Some(
            Json::Str(b.source_identifier),
        ),
        (forall|t: int| 0 <= t < b.extras.len() ==> #[trigger] b.extras[t].0 != "category"@)
            ==> built_document(b, rep, snd, ts, id).get("category"@) == Some(Json::Str(b.category)),
        (forall|t: int| 0 <= t < b.extras.len() ==> #[trigger] b.extras[t].0 != "type"@)
            ==> built_document(b, rep, snd, ts, id).get("type"@) == Some(Json::Str(b.type_)),
{
    let ver = version_or_default(b.xarf_version);
    if forall|t: int| 0 <= t < b.extras.len() ==> #[trigger] b.extras[t].0 != "xarf_version"@ {
        lemma_builder_get_0(b, rep, snd, ts, id, ver);
        lemma_single("xarf_version"@, Json::Str(ver));
    }
    if forall|t: int| 0 <= t < b.extras.len() ==> #[trigger] b.extras[t].0 != "report_id"@ {
        lemma_builder_get_1(b, rep, snd, ts, id, ver);
        lemma_single("report_id"@, Json::Str(id));
    }
    if forall|t: int| 0 <= t < b.extras.len() ==> #[trigger] b.extras[t].0 != "timestamp"@ {
        lemma_builder_get_2(b, rep, snd, ts, id, ver);
        lemma_single("timestamp"@, Json::Str(ts));
    }
    if forall|t: int| 0 <= t < b.extras.len() ==> #[trigger] b.extras[t].0 != "reporter"@ {
        lemma_builder_get_3(b, rep, snd, ts, id, ver);
        lemma_single("reporter"@, contact_json(rep));
    }
    if forall|t: int| 0 <= t < b.extras.len() ==> #[trigger] b.extras[t].0 != "sender"@ {
        lemma_builder_get_4(b, rep, snd, ts, id, ver);
        lemma_single("sender"@, contact_json(snd));
    }
    if forall|t: int| 0 <= t < b.extras.len() ==> #[trigger] b.extras[t].0 != "source_identifier"@ {
        lemma_builder_get_5(b, rep, snd, ts, id, ver);
        lemma_single("source_identifier"@, Json::Str(b.source_identifier));
    }
    if forall|t: int| 0 <= t < b.extras.len() ==> #[trigger] b.extras[t].0 != "category"@ {
        lemma_builder_get_6(b, rep, snd, ts, id, ver);
        lemma_single("category"@, Json::Str(b.category));
    }
    if forall|t: int| 0 <= t < b.extras.len() ==> #[trigger] b.extras[t].0 != "type"@ {
        lemma_builder_get_7(b, rep, snd, ts, id, ver);
        lemma_single("type"@, Json::Str(b.type_));
    }
}

/// Inserting a map's entries one by one leaves each of them in place.
proof fn lemma_insert_all_keeps_entry(es: Seq<(Seq<char>, Json)>, bs: Seq<(Seq<char>, Json)>, i: int)
    requires
        keys_sorted(bs),
        0 <= i < bs.len(),
    ensures
        obj_get(obj_insert_all(es, bs), bs[i].0) == Some(bs[i].1),
    decreases bs.len(),
{
    let init = bs.drop_last();
    if i == bs.len() - 1 {
        lemma_get_insert_same(obj_insert_all(es, init), bs.last().0, bs.last().1);
    } else {
        assert(seq_lt(bs[i].0, bs[bs.len() - 1].0));
        lemma_lt_irreflexive(bs[i].0);
        assert(bs[i].0 != bs.last().0);
        assert(keys_sorted(init)) by {
            assert forall|a: int, b: int| 0 <= a < b < init.len() implies seq_lt(
                #[trigger] init[a].0,
                #[trigger] init[b].0,
            ) by {
                assert(init[a] == bs[a] && init[b] == bs[b]);
            }
        }
        assert(init[i] == bs[i]);
        lemma_insert_all_keeps_entry(es, init, i);
        lemma_get_insert_other(obj_insert_all(es, init), bs.last().0, bs.last().1, bs[i].0);
    }
}

/// The extras given to a builder end up in the document it assembles and
/// override whatever a constructor argument or typed setter wrote under the
/// same name.
pub proof fn lemma_builder_extras_win(
    b: BuilderModel,
    rep: ContactModel,
    snd: ContactModel,
    ts: Seq<char>,
    id: Seq<char>,
    i: int,
)
    requires
        keys_sorted(b.extras),
        0 <= i < b.extras.len(),
    ensures
        built_document(b, rep, snd, ts, id).get(b.extras[i].0) == Some(b.extras[i].1),
{
    let ver = version_or_default(b.xarf_version);
    let head = builder_core_pairs(b, rep, snd, ts, id, ver) + crate::generator::builder_optional_pairs(b);
    assert(builder_pairs(b, rep, snd, ts, id, ver) == head + b.extras);
    lemma_insert_all_concat(Seq::empty(), head, b.extras);
    lemma_insert_all_keeps_entry(obj_insert_all(Seq::empty(), head), b.extras, i);
}

proof fn lemma_route_evidence_keeps(b: BuilderModel, items: Seq<Json>, whole: Json)
    ensures
        route_evidence(b, items, whole).timestamp == b.timestamp,
        route_evidence(b, items, whole).reporter == b.reporter,
        route_evidence(b, items, whole).sender == b.sender,
        route_evidence(b, items, whole).report_id == b.report_id,
        route_evidence(b, items, whole).xarf_version == b.xarf_version,
        route_evidence(b, items, whole).evidence_source == b.evidence_source,
        route_evidence(b, items, whole).description == b.description,
    decreases items.len(),
{
    if items.len() > 0 {
        match crate::model::evidence_from_json(items[0]) {
            Ok(e) => {
                lemma_route_evidence_keeps(
                    BuilderModel { evidence: b.evidence.push(e), ..b },
                    items.drop_first(),
                    whole,
                );
            },
            Err(_) => {},
        }
    }
}

proof fn lemma_route_member_keeps(b: BuilderModel, k: Seq<char>, v: Json)
    ensures
        route_member(b, k, v).reporter == b.reporter,
        route_member(b, k, v).sender == b.sender,
        k != "timestamp"@ ==> route_member(b, k, v).timestamp == b.timestamp,
        k != "report_id"@ ==> route_member(b, k, v).report_id == b.report_id,
        k != "xarf_version"@ ==> route_member(b, k, v).xarf_version == b.xarf_version,
        k != "evidence_source"@ ==> route_member(b, k, v).evidence_source == b.evidence_source,
        k != "description"@ ==> route_member(b, k, v).description == b.description,
{
    if let Json::Array(items) = v {
        lemma_route_evidence_keeps(b, items, v);
    }
}

proof fn lemma_route_members_contacts(b: BuilderModel, es: Seq<(Seq<char>, Json)>)
    ensures
        route_members(b, es).reporter == b.reporter,
        route_members(b, es).sender == b.sender,
    decreases es.len(),
{
    if es.len() > 0 {
        lemma_route_members_contacts(b, es.drop_last());
        lemma_route_member_keeps(route_members(b, es.drop_last()), es.last().0, es.last().1);
    }
}

proof fn lemma_route_members_timestamp(b: BuilderModel, es: Seq<(Seq<char>, Json)>, i: int, s: Seq<char>)
    requires
        keys_sorted(es),
        0 <= i < es.len(),
        es[i] == ("timestamp"@, Json::Str(s)),
    ensures
        route_members(b, es).timestamp == Some(s),
    decreases es.len(),
{
    let init = es.drop_last();
    if i < es.len() - 1 {
        assert(seq_lt(es[i].0, es[es.len() - 1].0));
        lemma_lt_irreflexive(es[i].0);
        assert(keys_sorted(init)) by {
            assert forall|a: int, c: int| 0 <= a < c < init.len() implies seq_lt(
                #[trigger] init[a].0,
                #[trigger] init[c].0,
            ) by {
                assert(init[a] == es[a] && init[c] == es[c]);
            }
        }
        assert(init[i] == es[i]);
        lemma_route_members_timestamp(b, init, i, s);
        lemma_route_member_keeps(route_members(b, init), es.last().0, es.last().1);
    }
}

/// What [`crate::generator::create_report`] builds from always has its
/// reporter and sender, so it never fails for a missing contact; and a
/// string `timestamp` among the extras becomes the builder's timestamp,
/// which the built document then carries.
pub proof fn lemma_create_report_builder(
    category: Seq<char>,
    type_: Seq<char>,
    source_identifier: Seq<char>,
    reporter: ContactModel,
    sender: ContactModel,
    extras: Seq<(Seq<char>, Json)>,
)
    ensures
        route_members(initial_builder(category, type_, source_identifier, reporter, sender), extras).reporter
            == Some(reporter),
        route_members(initial_builder(category, type_, source_identifier, reporter, sender), extras).sender
            == Some(sender),
        forall|i: int|
            keys_sorted(extras) && 0 <= i < extras.len() && (#[trigger] extras[i]).0 == "timestamp"@
                && extras[i].1 is Str ==> route_members(
                initial_builder(category, type_, source_identifier, reporter, sender),
                extras,
            ).timestamp == Some(extras[i].1->Str_0),
{
    let b = initial_builder(category, type_, source_identifier, reporter, sender);
    lemma_route_members_contacts(b, extras);
    assert forall|i: int|
        keys_sorted(extras) && 0 <= i < extras.len() && (#[trigger] extras[i]).0 == "timestamp"@
            && extras[i].1 is Str implies route_members(b, extras).timestamp == Some(
        extras[i].1->Str_0,
    ) by {
        lemma_route_members_timestamp(b, extras, i, extras[i].1->Str_0);
    }
}

/// An array of strings reads back as those strings.
proof fn lemma_strings_of_strs(v: Seq<Seq<char>>)
    ensures
        crate::model::strings_of(v.map_values(|t: Seq<char>| Json::Str(t))) == Ok::<
            Seq<Seq<char>>,
            Seq<char>,
        >(v),
    decreases v.len(),
{
    if v.len() > 0 {
        let a = v.map_values(|t: Seq<char>| Json::Str(t));
        lemma_strings_of_strs(v.drop_last());
        assert(a.drop_last() =~= v.drop_last().map_values(|t: Seq<char>| Json::Str(t)));
        assert(a.last() == Json::Str(v.last()));
        assert(v.drop_last().push(v.last()) =~= v);
    } else {
        assert(v.map_values(|t: Seq<char>| Json::Str(t)) =~= Seq::<Json>::empty());
        assert(v =~= Seq::<Seq<char>>::empty());
    }
}

/// Inserting pairs one by one, the last pair of a name decides its value,
/// whatever was there before.
proof fn lemma_insert_all_last_wins(es: Seq<(Seq<char>, Json)>, bs: Seq<(Seq<char>, Json)>, k: Seq<char>)
    requires
        obj_has(bs, k),
    ensures
        obj_get(obj_insert_all(es, bs), k) == obj_get(obj_from(bs), k),
    decreases bs.len(),
{
    let init = bs.drop_last();
    let last = bs.last();
    if last.0 == k {
        lemma_get_insert_same(obj_insert_all(es, init), k, last.1);
        lemma_get_insert_same(obj_insert_all(Seq::empty(), init), k, last.1);
    } else {
        lemma_has_iff_entry(bs, k);
        let i = choose|i: int| 0 <= i < bs.len() && #[trigger] bs[i].0 == k;
        assert(i < bs.len() - 1);
        assert(init[i] == bs[i]);
        lemma_has_iff_entry(init, k);
        lemma_insert_all_last_wins(es, init, k);
        lemma_get_insert_other(obj_insert_all(es, init), last.0, last.1, k);
        lemma_get_insert_other(obj_insert_all(Seq::empty(), init), last.0, last.1, k);
    }
}

/// Every member named among a builder's extras has, in the document the
/// builder assembles, the value the extras give it (the last one given,
/// when a name is given twice): an extra overrides whatever a constructor
/// argument or typed setter wrote under the same name.
pub proof fn lemma_builder_extras_override(
    b: BuilderModel,
    rep: ContactModel,
    snd: ContactModel,
    ts: Seq<char>,
    id: Seq<char>,
    k: Seq<char>,
)
    requires
        obj_has(b.extras, k),
    ensures
        built_document(b, rep, snd, ts, id).get(k) == obj_get(obj_from(b.extras), k),
{
    let ver = version_or_default(b.xarf_version);
    let head = builder_core_pairs(b, rep, snd, ts, id, ver) + crate::generator::builder_optional_pairs(b);
    assert(builder_pairs(b, rep, snd, ts, id, ver) == head + b.extras);
    lemma_insert_all_concat(Seq::empty(), head, b.extras);
    lemma_insert_all_last_wins(obj_insert_all(Seq::empty(), head), b.extras, k);
}

proof fn lemma_route_evidence_no_timestamp(b: BuilderModel, items: Seq<Json>, whole: Json)
    requires
        !obj_has(b.extras, "timestamp"@),
    ensures
        !obj_has(route_evidence(b, items, whole).extras, "timestamp"@),
    decreases items.len(),
{
    if items.len() > 0 {
        match crate::model::evidence_from_json(items[0]) {
            Ok(e) => {
                lemma_route_evidence_no_timestamp(
                    BuilderModel { evidence: b.evidence.push(e), ..b },
                    items.drop_first(),
                    whole,
                );
            },
            Err(_) => {
                reveal_strlit("evidence");
                reveal_strlit("timestamp");
                assert("evidence"@.len() != "timestamp"@.len());
                lemma_has_insert(b.extras, "evidence"@, whole, "timestamp"@);
            },
        }
    }
}

proof fn lemma_route_members_no_timestamp(b: BuilderModel, es: Seq<(Seq<char>, Json)>)
    requires
        !obj_has(b.extras, "timestamp"@),
    ensures
        !obj_has(route_members(b, es).extras, "timestamp"@),
    decreases es.len(),
{
    if es.len() > 0 {
        lemma_route_members_no_timestamp(b, es.drop_last());
        let prev = route_members(b, es.drop_last());
        let (k, v) = es.last();
        lemma_has_insert(prev.extras, k, v, "timestamp"@);
        if let Json::Array(items) = v {
            lemma_route_evidence_no_timestamp(prev, items, v);
        }
    }
}

/// In what [`crate::generator::create_report`] builds, the timestamp is a
/// typed member: no extra ever takes its place, so the assembled document
/// carries the timestamp the build uses (a string `timestamp` among the
/// extras, see [`lemma_create_report_builder`], or the current time).
pub proof fn lemma_create_report_timestamp_member(
    category: Seq<char>,
    type_: Seq<char>,
    source_identifier: Seq<char>,
    reporter: ContactModel,
    sender: ContactModel,
    extras: Seq<(Seq<char>, Json)>,
    ts: Seq<char>,
    id: Seq<char>,
)
    ensures
        built_document(
            route_members(initial_builder(category, type_, source_identifier, reporter, sender), extras),
            reporter,
            sender,
            ts,
            id,
        ).get("timestamp"@) == Some(Json::Str(ts)),
{
    let b0 = initial_builder(category, type_, source_identifier, reporter, sender);
    lemma_get_absent(b0.extras, "timestamp"@);
    lemma_route_members_no_timestamp(b0, extras);
    let b = route_members(b0, extras);
    lemma_has_iff_entry(b.extras, "timestamp"@);
    lemma_builder_core_members(b, reporter, sender, ts, id);
}

/// A string member routed last sets the typed field of its name.
proof fn lemma_route_member_string(b: BuilderModel, k: Seq<char>, s: Seq<char>)
    ensures
        k == "report_id"@ ==> route_member(b, k, Json::Str(s)).report_id == Some(s),
        k == "xarf_version"@ ==> route_member(b, k, Json::Str(s)).xarf_version == Some(s),
        k == "evidence_source"@ ==> route_member(b, k, Json::Str(s)).evidence_source == Some(s),
        k == "description"@ ==> route_member(b, k, Json::Str(s)).description == Some(s),
{
    reveal_strlit("timestamp");
    reveal_strlit("report_id");
    reveal_strlit("xarf_version");
    reveal_strlit("evidence_source");
    reveal_strlit("evidence");
    reveal_strlit("tags");
    reveal_strlit("confidence");
    reveal_strlit("description");
    assert("report_id"@[0] != "timestamp"@[0]);
    assert("report_id"@ != "timestamp"@);
    assert("xarf_version"@.len() != "timestamp"@.len() && "xarf_version"@.len() != "report_id"@.len());
    assert("xarf_version"@ != "timestamp"@ && "xarf_version"@ != "report_id"@);
    assert("evidence_source"@.len() != "timestamp"@.len() && "evidence_source"@.len() != "report_id"@.len()
        && "evidence_source"@.len() != "xarf_version"@.len());
    assert("evidence_source"@ != "timestamp"@ && "evidence_source"@ != "report_id"@
        && "evidence_source"@ != "xarf_version"@);
    assert("description"@.len() != "timestamp"@.len() && "description"@.len() != "report_id"@.len()
        && "description"@.len() != "xarf_version"@.len() && "description"@.len() != "evidence_source"@.len()
        && "description"@.len() != "evidence"@.len() && "description"@.len() != "tags"@.len()
        && "description"@.len() != "confidence"@.len());
    assert("description"@ != "timestamp"@ && "description"@ != "report_id"@ && "description"@
        != "xarf_version"@ && "description"@ != "evidence_source"@ && "description"@ != "evidence"@
        && "description"@ != "tags"@ && "description"@ != "confidence"@);
}

/// Of sorted members, a string member sets the typed field of its name.
proof fn lemma_route_members_string(b: BuilderModel, es: Seq<(Seq<char>, Json)>, i: int, s: Seq<char>)
    requires
        keys_sorted(es),
        0 <= i < es.len(),
        es[i].1 == Json::Str(s),
    ensures
        es[i].0 == "report_id"@ ==> route_members(b, es).report_id == Some(s),
        es[i].0 == "xarf_version"@ ==> route_members(b, es).xarf_version == Some(s),
        es[i].0 == "evidence_source"@ ==> route_members(b, es).evidence_source == Some(s),
        es[i].0 == "description"@ ==> route_members(b, es).description == Some(s),
    decreases es.len(),
{
    let init = es.drop_last();
    if i < es.len() - 1 {
        assert(seq_lt(es[i].0, es[es.len() - 1].0));
        lemma_lt_irreflexive(es[i].0);
        assert(keys_sorted(init)) by {
            assert forall|a: int, c: int| 0 <= a < c < init.len() implies seq_lt(
                #[trigger] init[a].0,
                #[trigger] init[c].0,
            ) by {
                assert(init[a] == es[a] && init[c] == es[c]);
            }
        }
        assert(init[i] == es[i]);
        lemma_route_members_string(b, init, i, s);
        lemma_route_member_keeps(route_members(b, init), es.last().0, es.last().1);
    } else {
        lemma_route_member_string(route_members(b, init), es[i].0, s);
    }
}

proof fn lemma_route_evidence_no_report_id(b: BuilderModel, items: Seq<Json>, whole: Json)
    requires
        !obj_has(b.extras, "report_id"@),
    ensures
        !obj_has(route_evidence(b, items, whole).extras, "report_id"@),
    decreases items.len(),
{
    if items.len() > 0 {
        match crate::model::evidence_from_json(items[0]) {
            Ok(e) => {
                lemma_route_evidence_no_report_id(
                    BuilderModel { evidence: b.evidence.push(e), ..b },
                    items.drop_first(),
                    whole,
                );
            },
            Err(_) => {
                reveal_strlit("evidence");
                reveal_strlit("report_id");
                assert("evidence"@.len() != "report_id"@.len());
                lemma_has_insert(b.extras, "evidence"@, whole, "report_id"@);
            },
        }
    }
}

proof fn lemma_route_members_no_report_id(b: BuilderModel, es: Seq<(Seq<char>, Json)>)
    requires
        !obj_has(b.extras, "report_id"@),
    ensures
        !obj_has(route_members(b, es).extras, "report_id"@),
    decreases es.len(),
{
    if es.len() > 0 {
        lemma_route_members_no_report_id(b, es.drop_last());
        let prev = route_members(b, es.drop_last());
        let (k, v) = es.last();
        lemma_has_insert(prev.extras, k, v, "report_id"@);
        if let Json::Array(items) = v {
            lemma_route_evidence_no_report_id(prev, items, v);
        }
    }
}

/// In what [`crate::generator::create_report`] builds, a string member
/// `report_id`, `xarf_version`, `evidence_source` or `description` among the
/// extras sets the report's field of that name. The report id is a typed
/// member: no extra takes its place, so the assembled document carries
/// under `report_id` the id that the build uses, which is the given one
/// where the extras name one.
pub proof fn lemma_create_report_string_members(
    category: Seq<char>,
    type_: Seq<char>,
    source_identifier: Seq<char>,
    reporter: ContactModel,
    sender: ContactModel,
    extras: Seq<(Seq<char>, Json)>,
    ts: Seq<char>,
    id: Seq<char>,
)
    ensures
        forall|i: int|
            keys_sorted(extras) && 0 <= i < extras.len() && (#[trigger] extras[i]).0 == "report_id"@
                && extras[i].1 is Str ==> route_members(
                initial_builder(category, type_, source_identifier, reporter, sender),
                extras,
            ).report_id == Some(extras[i].1->Str_0),
        forall|i: int|
            keys_sorted(extras) && 0 <= i < extras.len() && (#[trigger] extras[i]).0 == "xarf_version"@
                && extras[i].1 is Str ==> route_members(
                initial_builder(category, type_, source_identifier, reporter, sender),
                extras,
            ).xarf_version == Some(extras[i].1->Str_0),
        forall|i: int|
            keys_sorted(extras) && 0 <= i < extras.len() && (#[trigger] extras[i]).0 == "evidence_source"@
                && extras[i].1 is Str ==> route_members(
                initial_builder(category, type_, source_identifier, reporter, sender),
                extras,
            ).evidence_source == Some(extras[i].1->Str_0),
        forall|i: int|
            keys_sorted(extras) && 0 <= i < extras.len() && (#[trigger] extras[i]).0 == "description"@
                && extras[i].1 is Str ==> route_members(
                initial_builder(category, type_, source_identifier, reporter, sender),
                extras,
            ).description == Some(extras[i].1->Str_0),
        built_document(
            route_members(initial_builder(category, type_, source_identifier, reporter, sender), extras),
            reporter,
            sender,
            ts,
            id,
        ).get("report_id"@) == Some(Json::Str(id)),
{
    let b0 = initial_builder(category, type_, source_identifier, reporter, sender);
    assert forall|i: int| keys_sorted(extras) && 0 <= i < extras.len() && (#[trigger] extras[i]).1 is Str implies {
        &&& extras[i].0 == "report_id"@ ==> route_members(b0, extras).report_id == Some(extras[i].1->Str_0)
        &&& extras[i].0 == "xarf_version"@ ==> route_members(b0, extras).xarf_version == Some(extras[i].1->Str_0)
        &&& extras[i].0 == "evidence_source"@ ==> route_members(b0, extras).evidence_source == Some(extras[i].1->Str_0)
        &&& extras[i].0 == "description"@ ==> route_members(b0, extras).description == Some(extras[i].1->Str_0)
    } by {
        lemma_route_members_string(b0, extras, i, extras[i].1->Str_0);
    }
    lemma_get_absent(b0.extras, "report_id"@);
    lemma_route_members_no_report_id(b0, extras);
    let b = route_members(b0, extras);
    lemma_has_iff_entry(b.extras, "report_id"@);
    lemma_builder_core_members(b, reporter, sender, ts, id);
}

/// What [`crate::generator::create_report`] answers, given a string
/// `report_id` among the extras, is the reply for a document whose
/// `report_id` member is that string: the given id is kept, not replaced by
/// a fresh one.
pub proof fn lemma_create_report_keeps_report_id(
    reg: crate::schemas::RegistryModel,
    category: Seq<char>,
    type_: Seq<char>,
    source_identifier: Seq<char>,
    reporter: ContactModel,
    sender: ContactModel,
    extras: Seq<(Seq<char>, Json)>,
    options: crate::parser::ParseOptions,
    r: Result<crate::parser::ParseResultModel, crate::error::XarfErrorModel>,
    i: int,
)
    requires
        keys_sorted(extras),
        0 <= i < extras.len(),
        extras[i].0 == "report_id"@,
        extras[i].1 is Str,
        crate::generator::build_reply(
            reg,
            route_members(initial_builder(category, type_, source_identifier, reporter, sender), extras),
            options,
            r,
        ),
    ensures
        exists|ts: Seq<char>|
            {
                let doc = #[trigger] built_document(
                    route_members(initial_builder(category, type_, source_identifier, reporter, sender), extras),
                    reporter,
                    sender,
                    ts,
                    extras[i].1->Str_0,
                );
                &&& doc.get("report_id"@) == Some(Json::Str(extras[i].1->Str_0))
                &&& crate::parser::parse_value_reply(reg, doc, options, r)
            },
{
    let b0 = initial_builder(category, type_, source_identifier, reporter, sender);
    let b = route_members(b0, extras);
    let s = extras[i].1->Str_0;
    lemma_create_report_builder(category, type_, source_identifier, reporter, sender, extras);
    lemma_create_report_string_members(category, type_, source_identifier, reporter, sender, extras, Seq::empty(), s);
    assert(b.report_id == Some(s));
    let (ts, id) = choose|ts: Seq<char>, id: Seq<char>|
        {
            &&& (b.timestamp matches Some(t) ==> ts == t)
            &&& (b.timestamp is None ==> crate::fresh::utc_time_text(ts))
            &&& (b.report_id matches Some(x) ==> id == x)
            &&& (b.report_id is None ==> crate::fresh::uuid_text(id))
            &&& crate::parser::parse_value_reply(reg, #[trigger] built_document(b, reporter, sender, ts, id), options, r)
        };
    assert(id == s);
    lemma_create_report_string_members(category, type_, source_identifier, reporter, sender, extras, ts, s);
}

} // verus!

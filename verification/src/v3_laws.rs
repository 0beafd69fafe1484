//! What every v3 conversion produces, whatever the input: the version
//! fields, the reporter copied to the sender, the report id and time it
//! was given, the original report type kept aside.

use vstd::prelude::*;

use crate::model::{contact_json, ContactModel};
use crate::json::{obj_from, obj_get, obj_get_obj, obj_get_str, opt_pair, Json};
use crate::model::opt_str_json;
use crate::round_trip::{concat_all, lemma_get_in_segments, lemma_single};
use crate::v3_compat::{
    attachment_evidence, email_domain, no_description_warning, no_org_warning, reporter_email,
    reporter_org,
    attachments_of, category_pairs, connection_pairs, contact_info, content_pairs,
    converted_attachments, detection_method, messaging_pairs, obj_or_empty,
    source_identifier_of, str_or, v3_conversion, v3_core_pairs, v3_type_mapping,
};

verus! {

/// The member names the category-specific part of a conversion may add.
pub open spec fn category_key(k: Seq<char>) -> bool {
    k == "protocol"@
        || k == "smtp_from"@
        || k == "smtp_to"@
        || k == "subject"@
        || k == "source_port"@
        || k == "first_seen"@
        || k == "destination_ip"@
        || k == "destination_port"@
        || k == "attack_count"@
        || k == "url"@
}

proof fn lemma_category_keys(category: Seq<char>, report: Seq<(Seq<char>, Json)>, v4_type: Seq<char>)
    requires
        category_pairs(category, report, v4_type) is Ok,
    ensures
        forall|t: int|
            0 <= t < category_pairs(category, report, v4_type)->Ok_0.len() ==> category_key(
                #[trigger] category_pairs(category, report, v4_type)->Ok_0[t].0,
            ),
{
    let e = category_pairs(category, report, v4_type)->Ok_0;
    assert forall|t: int| 0 <= t < e.len() implies category_key(#[trigger] e[t].0) by {
        if category == "messaging"@ {
            let ps = messaging_pairs(report)->Ok_0;
            assert(e == ps);
        } else if category == "connection"@ {
            let ps = connection_pairs(report)->Ok_0;
            assert(e == ps);
        } else if category == "content"@ {
            assert(e == content_pairs(report, v4_type)->Ok_0);
        }
    }
}

/// The members of a converted report in groups, one per member name
/// (the category-specific members last).
pub open spec fn v3_segments(
    report: Seq<(Seq<char>, Json)>,
    report_type: Seq<char>,
    category: Seq<char>,
    v4_type: Seq<char>,
    source_identifier: Seq<char>,
    contact: Json,
    report_id: Seq<char>,
    now: Seq<char>,
    evidence: Option<Seq<Json>>,
    extra: Seq<(Seq<char>, Json)>,
) -> Seq<Seq<(Seq<char>, Json)>> {
    let core = v3_core_pairs(report, report_type, category, v4_type, source_identifier, contact, report_id, now, evidence);
    seq![
        seq![core[0]],
        seq![core[1]],
        seq![core[2]],
        seq![core[3]],
        seq![core[4]],
        seq![core[5]],
        seq![core[6]],
        seq![core[7]],
        seq![core[8]],
        seq![core[9]],
        opt_pair("description"@, opt_str_json(obj_get_str(report, "AttackDescription"@))),
        opt_pair("evidence_source"@, opt_str_json(detection_method(report))),
        opt_pair(
            "evidence"@,
            match evidence {
                Some(items) => Some(Json::Array(items)),
                None => None,
            },
        ),
        extra,
    ]
}

proof fn lemma_v3_segments(
    report: Seq<(Seq<char>, Json)>,
    report_type: Seq<char>,
    category: Seq<char>,
    v4_type: Seq<char>,
    source_identifier: Seq<char>,
    contact: Json,
    report_id: Seq<char>,
    now: Seq<char>,
    evidence: Option<Seq<Json>>,
    extra: Seq<(Seq<char>, Json)>,
)
    ensures
        concat_all(v3_segments(report, report_type, category, v4_type, source_identifier, contact, report_id, now, evidence, extra))
            == v3_core_pairs(report, report_type, category, v4_type, source_identifier, contact, report_id, now, evidence) + extra,
{
    let ss = v3_segments(report, report_type, category, v4_type, source_identifier, contact, report_id, now, evidence, extra);
    reveal_with_fuel(concat_all, 15);
    assert(concat_all(ss) =~= v3_core_pairs(report, report_type, category, v4_type, source_identifier, contact, report_id, now, evidence) + extra);
}

proof fn lemma_v3_get_0(
    report: Seq<(Seq<char>, Json)>,
    report_type: Seq<char>,
    category: Seq<char>,
    v4_type: Seq<char>,
    source_identifier: Seq<char>,
    contact: Json,
    report_id: Seq<char>,
    now: Seq<char>,
    evidence: Option<Seq<Json>>,
    extra: Seq<(Seq<char>, Json)>,
)
    requires
        forall|t: int| 0 <= t < extra.len() ==> category_key(#[trigger] extra[t].0),
    ensures
        obj_get(obj_from(v3_core_pairs(report, report_type, category, v4_type, source_identifier, contact, report_id, now, evidence) + extra), "xarf_version"@)
            == Some(v3_core_pairs(report, report_type, category, v4_type, source_identifier, contact, report_id, now, evidence)[0].1),
{
    let ss = v3_segments(report, report_type, category, v4_type, source_identifier, contact, report_id, now, evidence, extra);
    reveal_strlit("xarf_version");
    reveal_strlit("report_id");
    reveal_strlit("timestamp");
    reveal_strlit("reporter");
    reveal_strlit("sender");
    reveal_strlit("source_identifier");
    reveal_strlit("category");
    reveal_strlit("type");
    reveal_strlit("legacy_version");
    reveal_strlit("_internal");
    reveal_strlit("description");
    reveal_strlit("evidence_source");
    reveal_strlit("evidence");
    reveal_strlit("protocol");
    reveal_strlit("smtp_from");
    reveal_strlit("smtp_to");
    reveal_strlit("subject");
    reveal_strlit("source_port");
    reveal_strlit("first_seen");
    reveal_strlit("destination_ip");
    reveal_strlit("destination_port");
    reveal_strlit("attack_count");
    reveal_strlit("url");
    assert forall|j: int, t: int| 0 <= j < ss.len() && j != 0 && 0 <= t < ss[j].len() implies #[trigger] ss[j][t].0 != "xarf_version"@ by {
        if j == 1 {
            assert(ss[1][t].0 == "report_id"@);
            assert("report_id"@.len() == 9 && "xarf_version"@.len() == 12);
            assert("report_id"@ != "xarf_version"@);
        } else if j == 2 {
            assert(ss[2][t].0 == "timestamp"@);
            assert("timestamp"@.len() == 9 && "xarf_version"@.len() == 12);
            assert("timestamp"@ != "xarf_version"@);
        } else if j == 3 {
            assert(ss[3][t].0 == "reporter"@);
            assert("reporter"@.len() == 8 && "xarf_version"@.len() == 12);
            assert("reporter"@ != "xarf_version"@);
        } else if j == 4 {
            assert(ss[4][t].0 == "sender"@);
            assert("sender"@.len() == 6 && "xarf_version"@.len() == 12);
            assert("sender"@ != "xarf_version"@);
        } else if j == 5 {
            assert(ss[5][t].0 == "source_identifier"@);
            assert("source_identifier"@.len() == 17 && "xarf_version"@.len() == 12);
            assert("source_identifier"@ != "xarf_version"@);
        } else if j == 6 {
            assert(ss[6][t].0 == "category"@);
            assert("category"@.len() == 8 && "xarf_version"@.len() == 12);
            assert("category"@ != "xarf_version"@);
        } else if j == 7 {
            assert(ss[7][t].0 == "type"@);
            assert("type"@.len() == 4 && "xarf_version"@.len() == 12);
            assert("type"@ != "xarf_version"@);
        } else if j == 8 {
            assert(ss[8][t].0 == "legacy_version"@);
            assert("legacy_version"@.len() == 14 && "xarf_version"@.len() == 12);
            assert("legacy_version"@ != "xarf_version"@);
        } else if j == 9 {
            assert(ss[9][t].0 == "_internal"@);
            assert("_internal"@.len() == 9 && "xarf_version"@.len() == 12);
            assert("_internal"@ != "xarf_version"@);
        } else if j == 10 {
            assert(ss[10][t].0 == "description"@);
            assert("description"@.len() == 11 && "xarf_version"@.len() == 12);
            assert("description"@ != "xarf_version"@);
        } else if j == 11 {
            assert(ss[11][t].0 == "evidence_source"@);
            assert("evidence_source"@.len() == 15 && "xarf_version"@.len() == 12);
            assert("evidence_source"@ != "xarf_version"@);
        } else if j == 12 {
            assert(ss[12][t].0 == "evidence"@);
            assert("evidence"@.len() == 8 && "xarf_version"@.len() == 12);
            assert("evidence"@ != "xarf_version"@);
        } else if j == 13 {
            assert(ss[13] == extra);
            assert(category_key(extra[t].0));
            assert("protocol"@.len() == 8 && "xarf_version"@.len() == 12);
            assert("protocol"@ != "xarf_version"@);
            assert("smtp_from"@.len() == 9 && "xarf_version"@.len() == 12);
            assert("smtp_from"@ != "xarf_version"@);
            assert("smtp_to"@.len() == 7 && "xarf_version"@.len() == 12);
            assert("smtp_to"@ != "xarf_version"@);
            assert("subject"@.len() == 7 && "xarf_version"@.len() == 12);
            assert("subject"@ != "xarf_version"@);
            assert("source_port"@.len() == 11 && "xarf_version"@.len() == 12);
            assert("source_port"@ != "xarf_version"@);
            assert("first_seen"@.len() == 10 && "xarf_version"@.len() == 12);
            assert("first_seen"@ != "xarf_version"@);
            assert("destination_ip"@.len() == 14 && "xarf_version"@.len() == 12);
            assert("destination_ip"@ != "xarf_version"@);
            assert("destination_port"@.len() == 16 && "xarf_version"@.len() == 12);
            assert("destination_port"@ != "xarf_version"@);
            assert("attack_count"@[0] != "xarf_version"@[0]);
            assert("attack_count"@ != "xarf_version"@);
            assert("url"@.len() == 3 && "xarf_version"@.len() == 12);
            assert("url"@ != "xarf_version"@);
        }
    }
    lemma_v3_segments(report, report_type, category, v4_type, source_identifier, contact, report_id, now, evidence, extra);
    lemma_get_in_segments(ss, 0, "xarf_version"@);
    let core = v3_core_pairs(report, report_type, category, v4_type, source_identifier, contact, report_id, now, evidence);
    assert(ss[0] == seq![core[0]]);
    lemma_single("xarf_version"@, core[0].1);
}

proof fn lemma_v3_get_1(
    report: Seq<(Seq<char>, Json)>,
    report_type: Seq<char>,
    category: Seq<char>,
    v4_type: Seq<char>,
    source_identifier: Seq<char>,
    contact: Json,
    report_id: Seq<char>,
    now: Seq<char>,
    evidence: Option<Seq<Json>>,
    extra: Seq<(Seq<char>, Json)>,
)
    requires
        forall|t: int| 0 <= t < extra.len() ==> category_key(#[trigger] extra[t].0),
    ensures
        obj_get(obj_from(v3_core_pairs(report, report_type, category, v4_type, source_identifier, contact, report_id, now, evidence) + extra), "report_id"@)
            == Some(v3_core_pairs(report, report_type, category, v4_type, source_identifier, contact, report_id, now, evidence)[1].1),
{
    let ss = v3_segments(report, report_type, category, v4_type, source_identifier, contact, report_id, now, evidence, extra);
    reveal_strlit("xarf_version");
    reveal_strlit("report_id");
    reveal_strlit("timestamp");
    reveal_strlit("reporter");
    reveal_strlit("sender");
    reveal_strlit("source_identifier");
    reveal_strlit("category");
    reveal_strlit("type");
    reveal_strlit("legacy_version");
    reveal_strlit("_internal");
    reveal_strlit("description");
    reveal_strlit("evidence_source");
    reveal_strlit("evidence");
    reveal_strlit("protocol");
    reveal_strlit("smtp_from");
    reveal_strlit("smtp_to");
    reveal_strlit("subject");
    reveal_strlit("source_port");
    reveal_strlit("first_seen");
    reveal_strlit("destination_ip");
    reveal_strlit("destination_port");
    reveal_strlit("attack_count");
    reveal_strlit("url");
    assert forall|j: int, t: int| 0 <= j < ss.len() && j != 1 && 0 <= t < ss[j].len() implies #[trigger] ss[j][t].0 != "report_id"@ by {
        if j == 0 {
            assert(ss[0][t].0 == "xarf_version"@);
            assert("xarf_version"@.len() == 12 && "report_id"@.len() == 9);
            assert("xarf_version"@ != "report_id"@);
        } else if j == 2 {
            assert(ss[2][t].0 == "timestamp"@);
            assert("timestamp"@[0] != "report_id"@[0]);
            assert("timestamp"@ != "report_id"@);
        } else if j == 3 {
            assert(ss[3][t].0 == "reporter"@);
            assert("reporter"@.len() == 8 && "report_id"@.len() == 9);
            assert("reporter"@ != "report_id"@);
        } else if j == 4 {
            assert(ss[4][t].0 == "sender"@);
            assert("sender"@.len() == 6 && "report_id"@.len() == 9);
            assert("sender"@ != "report_id"@);
        } else if j == 5 {
            assert(ss[5][t].0 == "source_identifier"@);
            assert("source_identifier"@.len() == 17 && "report_id"@.len() == 9);
            assert("source_identifier"@ != "report_id"@);
        } else if j == 6 {
            assert(ss[6][t].0 == "category"@);
            assert("category"@.len() == 8 && "report_id"@.len() == 9);
            assert("category"@ != "report_id"@);
        } else if j == 7 {
            assert(ss[7][t].0 == "type"@);
            assert("type"@.len() == 4 && "report_id"@.len() == 9);
            assert("type"@ != "report_id"@);
        } else if j == 8 {
            assert(ss[8][t].0 == "legacy_version"@);
            assert("legacy_version"@.len() == 14 && "report_id"@.len() == 9);
            assert("legacy_version"@ != "report_id"@);
        } else if j == 9 {
            assert(ss[9][t].0 == "_internal"@);
            assert("_internal"@[0] != "report_id"@[0]);
            assert("_internal"@ != "report_id"@);
        } else if j == 10 {
            assert(ss[10][t].0 == "description"@);
            assert("description"@.len() == 11 && "report_id"@.len() == 9);
            assert("description"@ != "report_id"@);
        } else if j == 11 {
            assert(ss[11][t].0 == "evidence_source"@);
            assert("evidence_source"@.len() == 15 && "report_id"@.len() == 9);
            assert("evidence_source"@ != "report_id"@);
        } else if j == 12 {
            assert(ss[12][t].0 == "evidence"@);
            assert("evidence"@.len() == 8 && "report_id"@.len() == 9);
            assert("evidence"@ != "report_id"@);
        } else if j == 13 {
            assert(ss[13] == extra);
            assert(category_key(extra[t].0));
            assert("protocol"@.len() == 8 && "report_id"@.len() == 9);
            assert("protocol"@ != "report_id"@);
            assert("smtp_from"@[0] != "report_id"@[0]);
            assert("smtp_from"@ != "report_id"@);
            assert("smtp_to"@.len() == 7 && "report_id"@.len() == 9);
            assert("smtp_to"@ != "report_id"@);
            assert("subject"@.len() == 7 && "report_id"@.len() == 9);
            assert("subject"@ != "report_id"@);
            assert("source_port"@.len() == 11 && "report_id"@.len() == 9);
            assert("source_port"@ != "report_id"@);
            assert("first_seen"@.len() == 10 && "report_id"@.len() == 9);
            assert("first_seen"@ != "report_id"@);
            assert("destination_ip"@.len() == 14 && "report_id"@.len() == 9);
            assert("destination_ip"@ != "report_id"@);
            assert("destination_port"@.len() == 16 && "report_id"@.len() == 9);
            assert("destination_port"@ != "report_id"@);
            assert("attack_count"@.len() == 12 && "report_id"@.len() == 9);
            assert("attack_count"@ != "report_id"@);
            assert("url"@.len() == 3 && "report_id"@.len() == 9);
            assert("url"@ != "report_id"@);
        }
    }
    lemma_v3_segments(report, report_type, category, v4_type, source_identifier, contact, report_id, now, evidence, extra);
    lemma_get_in_segments(ss, 1, "report_id"@);
    let core = v3_core_pairs(report, report_type, category, v4_type, source_identifier, contact, report_id, now, evidence);
    assert(ss[1] == seq![core[1]]);
    lemma_single("report_id"@, core[1].1);
}

proof fn lemma_v3_get_2(
    report: Seq<(Seq<char>, Json)>,
    report_type: Seq<char>,
    category: Seq<char>,
    v4_type: Seq<char>,
    source_identifier: Seq<char>,
    contact: Json,
    report_id: Seq<char>,
    now: Seq<char>,
    evidence: Option<Seq<Json>>,
    extra: Seq<(Seq<char>, Json)>,
)
    requires
        forall|t: int| 0 <= t < extra.len() ==> category_key(#[trigger] extra[t].0),
    ensures
        obj_get(obj_from(v3_core_pairs(report, report_type, category, v4_type, source_identifier, contact, report_id, now, evidence) + extra), "timestamp"@)
            == Some(v3_core_pairs(report, report_type, category, v4_type, source_identifier, contact, report_id, now, evidence)[2].1),
{
    let ss = v3_segments(report, report_type, category, v4_type, source_identifier, contact, report_id, now, evidence, extra);
    reveal_strlit("xarf_version");
    reveal_strlit("report_id");
    reveal_strlit("timestamp");
    reveal_strlit("reporter");
    reveal_strlit("sender");
    reveal_strlit("source_identifier");
    reveal_strlit("category");
    reveal_strlit("type");
    reveal_strlit("legacy_version");
    reveal_strlit("_internal");
    reveal_strlit("description");
    reveal_strlit("evidence_source");
    reveal_strlit("evidence");
    reveal_strlit("protocol");
    reveal_strlit("smtp_from");
    reveal_strlit("smtp_to");
    reveal_strlit("subject");
    reveal_strlit("source_port");
    reveal_strlit("first_seen");
    reveal_strlit("destination_ip");
    reveal_strlit("destination_port");
    reveal_strlit("attack_count");
    reveal_strlit("url");
    assert forall|j: int, t: int| 0 <= j < ss.len() && j != 2 && 0 <= t < ss[j].len() implies #[trigger] ss[j][t].0 != "timestamp"@ by {
        if j == 0 {
            assert(ss[0][t].0 == "xarf_version"@);
            assert("xarf_version"@.len() == 12 && "timestamp"@.len() == 9);
            assert("xarf_version"@ != "timestamp"@);
        } else if j == 1 {
            assert(ss[1][t].0 == "report_id"@);
            assert("report_id"@[0] != "timestamp"@[0]);
            assert("report_id"@ != "timestamp"@);
        } else if j == 3 {
            assert(ss[3][t].0 == "reporter"@);
            assert("reporter"@.len() == 8 && "timestamp"@.len() == 9);
            assert("reporter"@ != "timestamp"@);
        } else if j == 4 {
            assert(ss[4][t].0 == "sender"@);
            assert("sender"@.len() == 6 && "timestamp"@.len() == 9);
            assert("sender"@ != "timestamp"@);
        } else if j == 5 {
            assert(ss[5][t].0 == "source_identifier"@);
            assert("source_identifier"@.len() == 17 && "timestamp"@.len() == 9);
            assert("source_identifier"@ != "timestamp"@);
        } else if j == 6 {
            assert(ss[6][t].0 == "category"@);
            assert("category"@.len() == 8 && "timestamp"@.len() == 9);
            assert("category"@ != "timestamp"@);
        } else if j == 7 {
            assert(ss[7][t].0 == "type"@);
            assert("type"@.len() == 4 && "timestamp"@.len() == 9);
            assert("type"@ != "timestamp"@);
        } else if j == 8 {
            assert(ss[8][t].0 == "legacy_version"@);
            assert("legacy_version"@.len() == 14 && "timestamp"@.len() == 9);
            assert("legacy_version"@ != "timestamp"@);
        } else if j == 9 {
            assert(ss[9][t].0 == "_internal"@);
            assert("_internal"@[0] != "timestamp"@[0]);
            assert("_internal"@ != "timestamp"@);
        } else if j == 10 {
            assert(ss[10][t].0 == "description"@);
            assert("description"@.len() == 11 && "timestamp"@.len() == 9);
            assert("description"@ != "timestamp"@);
        } else if j == 11 {
            assert(ss[11][t].0 == "evidence_source"@);
            assert("evidence_source"@.len() == 15 && "timestamp"@.len() == 9);
            assert("evidence_source"@ != "timestamp"@);
        } else if j == 12 {
            assert(ss[12][t].0 == "evidence"@);
            assert("evidence"@.len() == 8 && "timestamp"@.len() == 9);
            assert("evidence"@ != "timestamp"@);
        } else if j == 13 {
            assert(ss[13] == extra);
            assert(category_key(extra[t].0));
            assert("protocol"@.len() == 8 && "timestamp"@.len() == 9);
            assert("protocol"@ != "timestamp"@);
            assert("smtp_from"@[0] != "timestamp"@[0]);
            assert("smtp_from"@ != "timestamp"@);
            assert("smtp_to"@.len() == 7 && "timestamp"@.len() == 9);
            assert("smtp_to"@ != "timestamp"@);
            assert("subject"@.len() == 7 && "timestamp"@.len() == 9);
            assert("subject"@ != "timestamp"@);
            assert("source_port"@.len() == 11 && "timestamp"@.len() == 9);
            assert("source_port"@ != "timestamp"@);
            assert("first_seen"@.len() == 10 && "timestamp"@.len() == 9);
            assert("first_seen"@ != "timestamp"@);
            assert("destination_ip"@.len() == 14 && "timestamp"@.len() == 9);
            assert("destination_ip"@ != "timestamp"@);
            assert("destination_port"@.len() == 16 && "timestamp"@.len() == 9);
            assert("destination_port"@ != "timestamp"@);
            assert("attack_count"@.len() == 12 && "timestamp"@.len() == 9);
            assert("attack_count"@ != "timestamp"@);
            assert("url"@.len() == 3 && "timestamp"@.len() == 9);
            assert("url"@ != "timestamp"@);
        }
    }
    lemma_v3_segments(report, report_type, category, v4_type, source_identifier, contact, report_id, now, evidence, extra);
    lemma_get_in_segments(ss, 2, "timestamp"@);
    let core = v3_core_pairs(report, report_type, category, v4_type, source_identifier, contact, report_id, now, evidence);
    assert(ss[2] == seq![core[2]]);
    lemma_single("timestamp"@, core[2].1);
}

proof fn lemma_v3_get_3(
    report: Seq<(Seq<char>, Json)>,
    report_type: Seq<char>,
    category: Seq<char>,
    v4_type: Seq<char>,
    source_identifier: Seq<char>,
    contact: Json,
    report_id: Seq<char>,
    now: Seq<char>,
    evidence: Option<Seq<Json>>,
    extra: Seq<(Seq<char>, Json)>,
)
    requires
        forall|t: int| 0 <= t < extra.len() ==> category_key(#[trigger] extra[t].0),
    ensures
        obj_get(obj_from(v3_core_pairs(report, report_type, category, v4_type, source_identifier, contact, report_id, now, evidence) + extra), "reporter"@)
            == Some(v3_core_pairs(report, report_type, category, v4_type, source_identifier, contact, report_id, now, evidence)[3].1),
{
    let ss = v3_segments(report, report_type, category, v4_type, source_identifier, contact, report_id, now, evidence, extra);
    reveal_strlit("xarf_version");
    reveal_strlit("report_id");
    reveal_strlit("timestamp");
    reveal_strlit("reporter");
    reveal_strlit("sender");
    reveal_strlit("source_identifier");
    reveal_strlit("category");
    reveal_strlit("type");
    reveal_strlit("legacy_version");
    reveal_strlit("_internal");
    reveal_strlit("description");
    reveal_strlit("evidence_source");
    reveal_strlit("evidence");
    reveal_strlit("protocol");
    reveal_strlit("smtp_from");
    reveal_strlit("smtp_to");
    reveal_strlit("subject");
    reveal_strlit("source_port");
    reveal_strlit("first_seen");
    reveal_strlit("destination_ip");
    reveal_strlit("destination_port");
    reveal_strlit("attack_count");
    reveal_strlit("url");
    assert forall|j: int, t: int| 0 <= j < ss.len() && j != 3 && 0 <= t < ss[j].len() implies #[trigger] ss[j][t].0 != "reporter"@ by {
        if j == 0 {
            assert(ss[0][t].0 == "xarf_version"@);
            assert("xarf_version"@.len() == 12 && "reporter"@.len() == 8);
            assert("xarf_version"@ != "reporter"@);
        } else if j == 1 {
            assert(ss[1][t].0 == "report_id"@);
            assert("report_id"@.len() == 9 && "reporter"@.len() == 8);
            assert("report_id"@ != "reporter"@);
        } else if j == 2 {
            assert(ss[2][t].0 == "timestamp"@);
            assert("timestamp"@.len() == 9 && "reporter"@.len() == 8);
            assert("timestamp"@ != "reporter"@);
        } else if j == 4 {
            assert(ss[4][t].0 == "sender"@);
            assert("sender"@.len() == 6 && "reporter"@.len() == 8);
            assert("sender"@ != "reporter"@);
        } else if j == 5 {
            assert(ss[5][t].0 == "source_identifier"@);
            assert("source_identifier"@.len() == 17 && "reporter"@.len() == 8);
            assert("source_identifier"@ != "reporter"@);
        } else if j == 6 {
            assert(ss[6][t].0 == "category"@);
            assert("category"@[0] != "reporter"@[0]);
            assert("category"@ != "reporter"@);
        } else if j == 7 {
            assert(ss[7][t].0 == "type"@);
            assert("type"@.len() == 4 && "reporter"@.len() == 8);
            assert("type"@ != "reporter"@);
        } else if j == 8 {
            assert(ss[8][t].0 == "legacy_version"@);
            assert("legacy_version"@.len() == 14 && "reporter"@.len() == 8);
            assert("legacy_version"@ != "reporter"@);
        } else if j == 9 {
            assert(ss[9][t].0 == "_internal"@);
            assert("_internal"@.len() == 9 && "reporter"@.len() == 8);
            assert("_internal"@ != "reporter"@);
        } else if j == 10 {
            assert(ss[10][t].0 == "description"@);
            assert("description"@.len() == 11 && "reporter"@.len() == 8);
            assert("description"@ != "reporter"@);
        } else if j == 11 {
            assert(ss[11][t].0 == "evidence_source"@);
            assert("evidence_source"@.len() == 15 && "reporter"@.len() == 8);
            assert("evidence_source"@ != "reporter"@);
        } else if j == 12 {
            assert(ss[12][t].0 == "evidence"@);
            assert("evidence"@[0] != "reporter"@[0]);
            assert("evidence"@ != "reporter"@);
        } else if j == 13 {
            assert(ss[13] == extra);
            assert(category_key(extra[t].0));
            assert("protocol"@[0] != "reporter"@[0]);
            assert("protocol"@ != "reporter"@);
            assert("smtp_from"@.len() == 9 && "reporter"@.len() == 8);
            assert("smtp_from"@ != "reporter"@);
            assert("smtp_to"@.len() == 7 && "reporter"@.len() == 8);
            assert("smtp_to"@ != "reporter"@);
            assert("subject"@.len() == 7 && "reporter"@.len() == 8);
            assert("subject"@ != "reporter"@);
            assert("source_port"@.len() == 11 && "reporter"@.len() == 8);
            assert("source_port"@ != "reporter"@);
            assert("first_seen"@.len() == 10 && "reporter"@.len() == 8);
            assert("first_seen"@ != "reporter"@);
            assert("destination_ip"@.len() == 14 && "reporter"@.len() == 8);
            assert("destination_ip"@ != "reporter"@);
            assert("destination_port"@.len() == 16 && "reporter"@.len() == 8);
            assert("destination_port"@ != "reporter"@);
            assert("attack_count"@.len() == 12 && "reporter"@.len() == 8);
            assert("attack_count"@ != "reporter"@);
            assert("url"@.len() == 3 && "reporter"@.len() == 8);
            assert("url"@ != "reporter"@);
        }
    }
    lemma_v3_segments(report, report_type, category, v4_type, source_identifier, contact, report_id, now, evidence, extra);
    lemma_get_in_segments(ss, 3, "reporter"@);
    let core = v3_core_pairs(report, report_type, category, v4_type, source_identifier, contact, report_id, now, evidence);
    assert(ss[3] == seq![core[3]]);
    lemma_single("reporter"@, core[3].1);
}

proof fn lemma_v3_get_4(
    report: Seq<(Seq<char>, Json)>,
    report_type: Seq<char>,
    category: Seq<char>,
    v4_type: Seq<char>,
    source_identifier: Seq<char>,
    contact: Json,
    report_id: Seq<char>,
    now: Seq<char>,
    evidence: Option<Seq<Json>>,
    extra: Seq<(Seq<char>, Json)>,
)
    requires
        forall|t: int| 0 <= t < extra.len() ==> category_key(#[trigger] extra[t].0),
    ensures
        obj_get(obj_from(v3_core_pairs(report, report_type, category, v4_type, source_identifier, contact, report_id, now, evidence) + extra), "sender"@)
            == Some(v3_core_pairs(report, report_type, category, v4_type, source_identifier, contact, report_id, now, evidence)[4].1),
{
    let ss = v3_segments(report, report_type, category, v4_type, source_identifier, contact, report_id, now, evidence, extra);
    reveal_strlit("xarf_version");
    reveal_strlit("report_id");
    reveal_strlit("timestamp");
    reveal_strlit("reporter");
    reveal_strlit("sender");
    reveal_strlit("source_identifier");
    reveal_strlit("category");
    reveal_strlit("type");
    reveal_strlit("legacy_version");
    reveal_strlit("_internal");
    reveal_strlit("description");
    reveal_strlit("evidence_source");
    reveal_strlit("evidence");
    reveal_strlit("protocol");
    reveal_strlit("smtp_from");
    reveal_strlit("smtp_to");
    reveal_strlit("subject");
    reveal_strlit("source_port");
    reveal_strlit("first_seen");
    reveal_strlit("destination_ip");
    reveal_strlit("destination_port");
    reveal_strlit("attack_count");
    reveal_strlit("url");
    assert forall|j: int, t: int| 0 <= j < ss.len() && j != 4 && 0 <= t < ss[j].len() implies #[trigger] ss[j][t].0 != "sender"@ by {
        if j == 0 {
            assert(ss[0][t].0 == "xarf_version"@);
            assert("xarf_version"@.len() == 12 && "sender"@.len() == 6);
            assert("xarf_version"@ != "sender"@);
        } else if j == 1 {
            assert(ss[1][t].0 == "report_id"@);
            assert("report_id"@.len() == 9 && "sender"@.len() == 6);
            assert("report_id"@ != "sender"@);
        } else if j == 2 {
            assert(ss[2][t].0 == "timestamp"@);
            assert("timestamp"@.len() == 9 && "sender"@.len() == 6);
            assert("timestamp"@ != "sender"@);
        } else if j == 3 {
            assert(ss[3][t].0 == "reporter"@);
            assert("reporter"@.len() == 8 && "sender"@.len() == 6);
            assert("reporter"@ != "sender"@);
        } else if j == 5 {
            assert(ss[5][t].0 == "source_identifier"@);
            assert("source_identifier"@.len() == 17 && "sender"@.len() == 6);
            assert("source_identifier"@ != "sender"@);
        } else if j == 6 {
            assert(ss[6][t].0 == "category"@);
            assert("category"@.len() == 8 && "sender"@.len() == 6);
            assert("category"@ != "sender"@);
        } else if j == 7 {
            assert(ss[7][t].0 == "type"@);
            assert("type"@.len() == 4 && "sender"@.len() == 6);
            assert("type"@ != "sender"@);
        } else if j == 8 {
            assert(ss[8][t].0 == "legacy_version"@);
            assert("legacy_version"@.len() == 14 && "sender"@.len() == 6);
            assert("legacy_version"@ != "sender"@);
        } else if j == 9 {
            assert(ss[9][t].0 == "_internal"@);
            assert("_internal"@.len() == 9 && "sender"@.len() == 6);
            assert("_internal"@ != "sender"@);
        } else if j == 10 {
            assert(ss[10][t].0 == "description"@);
            assert("description"@.len() == 11 && "sender"@.len() == 6);
            assert("description"@ != "sender"@);
        } else if j == 11 {
            assert(ss[11][t].0 == "evidence_source"@);
            assert("evidence_source"@.len() == 15 && "sender"@.len() == 6);
            assert("evidence_source"@ != "sender"@);
        } else if j == 12 {
            assert(ss[12][t].0 == "evidence"@);
            assert("evidence"@.len() == 8 && "sender"@.len() == 6);
            assert("evidence"@ != "sender"@);
        } else if j == 13 {
            assert(ss[13] == extra);
            assert(category_key(extra[t].0));
            assert("protocol"@.len() == 8 && "sender"@.len() == 6);
            assert("protocol"@ != "sender"@);
            assert("smtp_from"@.len() == 9 && "sender"@.len() == 6);
            assert("smtp_from"@ != "sender"@);
            assert("smtp_to"@.len() == 7 && "sender"@.len() == 6);
            assert("smtp_to"@ != "sender"@);
            assert("subject"@.len() == 7 && "sender"@.len() == 6);
            assert("subject"@ != "sender"@);
            assert("source_port"@.len() == 11 && "sender"@.len() == 6);
            assert("source_port"@ != "sender"@);
            assert("first_seen"@.len() == 10 && "sender"@.len() == 6);
            assert("first_seen"@ != "sender"@);
            assert("destination_ip"@.len() == 14 && "sender"@.len() == 6);
            assert("destination_ip"@ != "sender"@);
            assert("destination_port"@.len() == 16 && "sender"@.len() == 6);
            assert("destination_port"@ != "sender"@);
            assert("attack_count"@.len() == 12 && "sender"@.len() == 6);
            assert("attack_count"@ != "sender"@);
            assert("url"@.len() == 3 && "sender"@.len() == 6);
            assert("url"@ != "sender"@);
        }
    }
    lemma_v3_segments(report, report_type, category, v4_type, source_identifier, contact, report_id, now, evidence, extra);
    lemma_get_in_segments(ss, 4, "sender"@);
    let core = v3_core_pairs(report, report_type, category, v4_type, source_identifier, contact, report_id, now, evidence);
    assert(ss[4] == seq![core[4]]);
    lemma_single("sender"@, core[4].1);
}

proof fn lemma_v3_get_8(
    report: Seq<(Seq<char>, Json)>,
    report_type: Seq<char>,
    category: Seq<char>,
    v4_type: Seq<char>,
    source_identifier: Seq<char>,
    contact: Json,
    report_id: Seq<char>,
    now: Seq<char>,
    evidence: Option<Seq<Json>>,
    extra: Seq<(Seq<char>, Json)>,
)
    requires
        forall|t: int| 0 <= t < extra.len() ==> category_key(#[trigger] extra[t].0),
    ensures
        obj_get(obj_from(v3_core_pairs(report, report_type, category, v4_type, source_identifier, contact, report_id, now, evidence) + extra), "legacy_version"@)
            == Some(v3_core_pairs(report, report_type, category, v4_type, source_identifier, contact, report_id, now, evidence)[8].1),
{
    let ss = v3_segments(report, report_type, category, v4_type, source_identifier, contact, report_id, now, evidence, extra);
    reveal_strlit("xarf_version");
    reveal_strlit("report_id");
    reveal_strlit("timestamp");
    reveal_strlit("reporter");
    reveal_strlit("sender");
    reveal_strlit("source_identifier");
    reveal_strlit("category");
    reveal_strlit("type");
    reveal_strlit("legacy_version");
    reveal_strlit("_internal");
    reveal_strlit("description");
    reveal_strlit("evidence_source");
    reveal_strlit("evidence");
    reveal_strlit("protocol");
    reveal_strlit("smtp_from");
    reveal_strlit("smtp_to");
    reveal_strlit("subject");
    reveal_strlit("source_port");
    reveal_strlit("first_seen");
    reveal_strlit("destination_ip");
    reveal_strlit("destination_port");
    reveal_strlit("attack_count");
    reveal_strlit("url");
    assert forall|j: int, t: int| 0 <= j < ss.len() && j != 8 && 0 <= t < ss[j].len() implies #[trigger] ss[j][t].0 != "legacy_version"@ by {
        if j == 0 {
            assert(ss[0][t].0 == "xarf_version"@);
            assert("xarf_version"@.len() == 12 && "legacy_version"@.len() == 14);
            assert("xarf_version"@ != "legacy_version"@);
        } else if j == 1 {
            assert(ss[1][t].0 == "report_id"@);
            assert("report_id"@.len() == 9 && "legacy_version"@.len() == 14);
            assert("report_id"@ != "legacy_version"@);
        } else if j == 2 {
            assert(ss[2][t].0 == "timestamp"@);
            assert("timestamp"@.len() == 9 && "legacy_version"@.len() == 14);
            assert("timestamp"@ != "legacy_version"@);
        } else if j == 3 {
            assert(ss[3][t].0 == "reporter"@);
            assert("reporter"@.len() == 8 && "legacy_version"@.len() == 14);
            assert("reporter"@ != "legacy_version"@);
        } else if j == 4 {
            assert(ss[4][t].0 == "sender"@);
            assert("sender"@.len() == 6 && "legacy_version"@.len() == 14);
            assert("sender"@ != "legacy_version"@);
        } else if j == 5 {
            assert(ss[5][t].0 == "source_identifier"@);
            assert("source_identifier"@.len() == 17 && "legacy_version"@.len() == 14);
            assert("source_identifier"@ != "legacy_version"@);
        } else if j == 6 {
            assert(ss[6][t].0 == "category"@);
            assert("category"@.len() == 8 && "legacy_version"@.len() == 14);
            assert("category"@ != "legacy_version"@);
        } else if j == 7 {
            assert(ss[7][t].0 == "type"@);
            assert("type"@.len() == 4 && "legacy_version"@.len() == 14);
            assert("type"@ != "legacy_version"@);
        } else if j == 9 {
            assert(ss[9][t].0 == "_internal"@);
            assert("_internal"@.len() == 9 && "legacy_version"@.len() == 14);
            assert("_internal"@ != "legacy_version"@);
        } else if j == 10 {
            assert(ss[10][t].0 == "description"@);
            assert("description"@.len() == 11 && "legacy_version"@.len() == 14);
            assert("description"@ != "legacy_version"@);
        } else if j == 11 {
            assert(ss[11][t].0 == "evidence_source"@);
            assert("evidence_source"@.len() == 15 && "legacy_version"@.len() == 14);
            assert("evidence_source"@ != "legacy_version"@);
        } else if j == 12 {
            assert(ss[12][t].0 == "evidence"@);
            assert("evidence"@.len() == 8 && "legacy_version"@.len() == 14);
            assert("evidence"@ != "legacy_version"@);
        } else if j == 13 {
            assert(ss[13] == extra);
            assert(category_key(extra[t].0));
            assert("protocol"@.len() == 8 && "legacy_version"@.len() == 14);
            assert("protocol"@ != "legacy_version"@);
            assert("smtp_from"@.len() == 9 && "legacy_version"@.len() == 14);
            assert("smtp_from"@ != "legacy_version"@);
            assert("smtp_to"@.len() == 7 && "legacy_version"@.len() == 14);
            assert("smtp_to"@ != "legacy_version"@);
            assert("subject"@.len() == 7 && "legacy_version"@.len() == 14);
            assert("subject"@ != "legacy_version"@);
            assert("source_port"@.len() == 11 && "legacy_version"@.len() == 14);
            assert("source_port"@ != "legacy_version"@);
            assert("first_seen"@.len() == 10 && "legacy_version"@.len() == 14);
            assert("first_seen"@ != "legacy_version"@);
            assert("destination_ip"@[0] != "legacy_version"@[0]);
            assert("destination_ip"@ != "legacy_version"@);
            assert("destination_port"@.len() == 16 && "legacy_version"@.len() == 14);
            assert("destination_port"@ != "legacy_version"@);
            assert("attack_count"@.len() == 12 && "legacy_version"@.len() == 14);
            assert("attack_count"@ != "legacy_version"@);
            assert("url"@.len() == 3 && "legacy_version"@.len() == 14);
            assert("url"@ != "legacy_version"@);
        }
    }
    lemma_v3_segments(report, report_type, category, v4_type, source_identifier, contact, report_id, now, evidence, extra);
    lemma_get_in_segments(ss, 8, "legacy_version"@);
    let core = v3_core_pairs(report, report_type, category, v4_type, source_identifier, contact, report_id, now, evidence);
    assert(ss[8] == seq![core[8]]);
    lemma_single("legacy_version"@, core[8].1);
}

proof fn lemma_v3_get_9(
    report: Seq<(Seq<char>, Json)>,
    report_type: Seq<char>,
    category: Seq<char>,
    v4_type: Seq<char>,
    source_identifier: Seq<char>,
    contact: Json,
    report_id: Seq<char>,
    now: Seq<char>,
    evidence: Option<Seq<Json>>,
    extra: Seq<(Seq<char>, Json)>,
)
    requires
        forall|t: int| 0 <= t < extra.len() ==> category_key(#[trigger] extra[t].0),
    ensures
        obj_get(obj_from(v3_core_pairs(report, report_type, category, v4_type, source_identifier, contact, report_id, now, evidence) + extra), "_internal"@)
            == Some(v3_core_pairs(report, report_type, category, v4_type, source_identifier, contact, report_id, now, evidence)[9].1),
{
    let ss = v3_segments(report, report_type, category, v4_type, source_identifier, contact, report_id, now, evidence, extra);
    reveal_strlit("xarf_version");
    reveal_strlit("report_id");
    reveal_strlit("timestamp");
    reveal_strlit("reporter");
    reveal_strlit("sender");
    reveal_strlit("source_identifier");
    reveal_strlit("category");
    reveal_strlit("type");
    reveal_strlit("legacy_version");
    reveal_strlit("_internal");
    reveal_strlit("description");
    reveal_strlit("evidence_source");
    reveal_strlit("evidence");
    reveal_strlit("protocol");
    reveal_strlit("smtp_from");
    reveal_strlit("smtp_to");
    reveal_strlit("subject");
    reveal_strlit("source_port");
    reveal_strlit("first_seen");
    reveal_strlit("destination_ip");
    reveal_strlit("destination_port");
    reveal_strlit("attack_count");
    reveal_strlit("url");
    assert forall|j: int, t: int| 0 <= j < ss.len() && j != 9 && 0 <= t < ss[j].len() implies #[trigger] ss[j][t].0 != "_internal"@ by {
        if j == 0 {
            assert(ss[0][t].0 == "xarf_version"@);
            assert("xarf_version"@.len() == 12 && "_internal"@.len() == 9);
            assert("xarf_version"@ != "_internal"@);
        } else if j == 1 {
            assert(ss[1][t].0 == "report_id"@);
            assert("report_id"@[0] != "_internal"@[0]);
            assert("report_id"@ != "_internal"@);
        } else if j == 2 {
            assert(ss[2][t].0 == "timestamp"@);
            assert("timestamp"@[0] != "_internal"@[0]);
            assert("timestamp"@ != "_internal"@);
        } else if j == 3 {
            assert(ss[3][t].0 == "reporter"@);
            assert("reporter"@.len() == 8 && "_internal"@.len() == 9);
            assert("reporter"@ != "_internal"@);
        } else if j == 4 {
            assert(ss[4][t].0 == "sender"@);
            assert("sender"@.len() == 6 && "_internal"@.len() == 9);
            assert("sender"@ != "_internal"@);
        } else if j == 5 {
            assert(ss[5][t].0 == "source_identifier"@);
            assert("source_identifier"@.len() == 17 && "_internal"@.len() == 9);
            assert("source_identifier"@ != "_internal"@);
        } else if j == 6 {
            assert(ss[6][t].0 == "category"@);
            assert("category"@.len() == 8 && "_internal"@.len() == 9);
            assert("category"@ != "_internal"@);
        } else if j == 7 {
            assert(ss[7][t].0 == "type"@);
            assert("type"@.len() == 4 && "_internal"@.len() == 9);
            assert("type"@ != "_internal"@);
        } else if j == 8 {
            assert(ss[8][t].0 == "legacy_version"@);
            assert("legacy_version"@.len() == 14 && "_internal"@.len() == 9);
            assert("legacy_version"@ != "_internal"@);
        } else if j == 10 {
            assert(ss[10][t].0 == "description"@);
            assert("description"@.len() == 11 && "_internal"@.len() == 9);
            assert("description"@ != "_internal"@);
        } else if j == 11 {
            assert(ss[11][t].0 == "evidence_source"@);
            assert("evidence_source"@.len() == 15 && "_internal"@.len() == 9);
            assert("evidence_source"@ != "_internal"@);
        } else if j == 12 {
            assert(ss[12][t].0 == "evidence"@);
            assert("evidence"@.len() == 8 && "_internal"@.len() == 9);
            assert("evidence"@ != "_internal"@);
        } else if j == 13 {
            assert(ss[13] == extra);
            assert(category_key(extra[t].0));
            assert("protocol"@.len() == 8 && "_internal"@.len() == 9);
            assert("protocol"@ != "_internal"@);
            assert("smtp_from"@[0] != "_internal"@[0]);
            assert("smtp_from"@ != "_internal"@);
            assert("smtp_to"@.len() == 7 && "_internal"@.len() == 9);
            assert("smtp_to"@ != "_internal"@);
            assert("subject"@.len() == 7 && "_internal"@.len() == 9);
            assert("subject"@ != "_internal"@);
            assert("source_port"@.len() == 11 && "_internal"@.len() == 9);
            assert("source_port"@ != "_internal"@);
            assert("first_seen"@.len() == 10 && "_internal"@.len() == 9);
            assert("first_seen"@ != "_internal"@);
            assert("destination_ip"@.len() == 14 && "_internal"@.len() == 9);
            assert("destination_ip"@ != "_internal"@);
            assert("destination_port"@.len() == 16 && "_internal"@.len() == 9);
            assert("destination_port"@ != "_internal"@);
            assert("attack_count"@.len() == 12 && "_internal"@.len() == 9);
            assert("attack_count"@ != "_internal"@);
            assert("url"@.len() == 3 && "_internal"@.len() == 9);
            assert("url"@ != "_internal"@);
        }
    }
    lemma_v3_segments(report, report_type, category, v4_type, source_identifier, contact, report_id, now, evidence, extra);
    lemma_get_in_segments(ss, 9, "_internal"@);
    let core = v3_core_pairs(report, report_type, category, v4_type, source_identifier, contact, report_id, now, evidence);
    assert(ss[9] == seq![core[9]]);
    lemma_single("_internal"@, core[9].1);
}

/// A v3 conversion that succeeds gives an object whose `xarf_version` is
/// `4.2.0` and `legacy_version` is `3`, whose `report_id` is the id it was
/// given, whose sender is the reporter, whose `timestamp` is the report's
/// `Date` when there is one and the conversion time otherwise, and whose
/// `_internal` member keeps the original report type and the conversion
/// time. (The warnings of [`crate::v3_compat::convert_v3_to_v4`] only
/// append to what was there; its contract states that.)
pub proof fn lemma_v3_conversion_shape(v3: Json, report_id: Seq<char>, now: Seq<char>)
    requires
        v3_conversion(v3, report_id, now).0 is Ok,
    ensures
        ({
            let v4 = v3_conversion(v3, report_id, now).0->Ok_0;
            let report = obj_or_empty(obj_get_obj(v3->Object_0, "Report"@));
            let report_type = str_or(obj_get_str(report, "ReportType"@), Seq::empty());
            &&& v4 is Object
            &&& obj_get(v4->Object_0, "xarf_version"@) == Some(Json::Str("4.2.0"@))
            &&& obj_get(v4->Object_0, "legacy_version"@) == Some(Json::Str("3"@))
            &&& obj_get(v4->Object_0, "report_id"@) == Some(Json::Str(report_id))
            &&& obj_get(v4->Object_0, "reporter"@) is Some
            &&& obj_get(v4->Object_0, "sender"@) == obj_get(v4->Object_0, "reporter"@)
            &&& obj_get(v4->Object_0, "timestamp"@) == Some(
                match obj_get(report, "Date"@) {
                    Some(d) => d,
                    None => Json::Str(now),
                },
            )
            &&& obj_get(v4->Object_0, "_internal"@) == Some(
                Json::Object(
                    obj_from(
                        seq![
                            ("original_report_type"@, Json::Str(report_type)),
                            ("converted_at"@, Json::Str(now)),
                        ],
                    ),
                ),
            )
        }),
{
    let top = v3->Object_0;
    let report = obj_or_empty(obj_get_obj(top, "Report"@));
    let info = obj_or_empty(obj_get_obj(top, "ReporterInfo"@));
    let rt = str_or(obj_get_str(report, "ReportType"@), Seq::empty());
    let (cat, ty) = v3_type_mapping(rt)->Some_0;
    let sid = source_identifier_of(report)->Some_0;
    let contact = contact_info(info).0->Ok_0;
    let ev = match attachments_of(report) {
        Some(a) => Some(converted_attachments(a).0),
        None => None,
    };
    let extra = category_pairs(cat, report, ty)->Ok_0;
    lemma_category_keys(cat, report, ty);
    lemma_v3_get_0(report, rt, cat, ty, sid, contact, report_id, now, ev, extra);
    lemma_v3_get_1(report, rt, cat, ty, sid, contact, report_id, now, ev, extra);
    lemma_v3_get_2(report, rt, cat, ty, sid, contact, report_id, now, ev, extra);
    lemma_v3_get_3(report, rt, cat, ty, sid, contact, report_id, now, ev, extra);
    lemma_v3_get_4(report, rt, cat, ty, sid, contact, report_id, now, ev, extra);
    lemma_v3_get_8(report, rt, cat, ty, sid, contact, report_id, now, ev, extra);
    lemma_v3_get_9(report, rt, cat, ty, sid, contact, report_id, now, ev, extra);
}

/// The reporter contact of a conversion: it exists exactly when there is a
/// reporter email (`ReporterContactEmail`, else `ReporterOrgEmail`) with a
/// non-empty part after its first `@`; its organisation is `ReporterOrg`
/// when that is a non-empty string and `Unknown Organization` otherwise,
/// with one warning exactly in that case.
pub proof fn lemma_contact_law(info: Seq<(Seq<char>, Json)>)
    ensures
        contact_info(info).0 is Ok <==> (reporter_email(info) is Some && email_domain(
            reporter_email(info)->Some_0,
        ) is Some),
        contact_info(info).0 is Ok ==> contact_info(info).0->Ok_0 == contact_json(
            ContactModel {
                org: str_or(reporter_org(info), "Unknown Organization"@),
                contact: reporter_email(info)->Some_0,
                domain: email_domain(reporter_email(info)->Some_0)->Some_0,
            },
        ),
        contact_info(info).1 == (if contact_info(info).0 is Ok && reporter_org(info) is None {
            seq![no_org_warning()]
        } else {
            Seq::<Seq<char>>::empty()
        }),
{
}

/// The attachment objects among `a`, in order.
pub open spec fn attachment_objects(a: Seq<Json>) -> Seq<Json> {
    a.filter(|j: Json| is_object(j))
}

/// Whether a value is an object.
pub open spec fn is_object(j: Json) -> bool {
    j is Object
}

/// The attachment objects among `a` without a string `Description`.
pub open spec fn undescribed_attachments(a: Seq<Json>) -> Seq<Json> {
    a.filter(|j: Json| j is Object && obj_get_str(j->Object_0, "Description"@) is None)
}

/// The evidence item of each attachment object.
pub open spec fn attachment_items(objects: Seq<Json>) -> Seq<Json> {
    objects.map_values(|j: Json| attachment_evidence(j->Object_0))
}

/// One warning per attachment.
pub open spec fn description_warnings(objects: Seq<Json>) -> Seq<Seq<char>> {
    objects.map_values(|j: Json| no_description_warning())
}

/// The evidence of a conversion: one item per attachment object, in order
/// (other elements are skipped), each the item of that attachment (its
/// `Data` as payload, the decoded length as size, the SHA-256 of the
/// decoded bytes as hash, its `ContentType` or `application/octet-stream`);
/// and one warning per attachment object without a string `Description`.
pub proof fn lemma_attachments_law(a: Seq<Json>)
    ensures
        converted_attachments(a).0 == attachment_items(attachment_objects(a)),
        converted_attachments(a).1 == description_warnings(undescribed_attachments(a)),
    decreases a.len(),
{
    reveal(Seq::filter);
    if a.len() == 0 {
        assert(attachment_objects(a) =~= Seq::<Json>::empty());
        assert(undescribed_attachments(a) =~= Seq::<Json>::empty());
        assert(attachment_items(attachment_objects(a)) =~= Seq::<Json>::empty());
        assert(description_warnings(undescribed_attachments(a)) =~= Seq::<Seq<char>>::empty());
    } else {
        let init = a.drop_last();
        lemma_attachments_law(init);
        let last = a.last();
        if last is Object {
            assert(attachment_objects(a) == attachment_objects(init).push(last));
            assert(attachment_items(attachment_objects(a)) =~= attachment_items(
                attachment_objects(init),
            ).push(attachment_evidence(last->Object_0)));
        } else {
            assert(attachment_objects(a) == attachment_objects(init));
        }
        if last is Object && obj_get_str(last->Object_0, "Description"@) is None {
            assert(undescribed_attachments(a) == undescribed_attachments(init).push(last));
            assert(description_warnings(undescribed_attachments(a)) =~= description_warnings(
                undescribed_attachments(init),
            ).push(no_description_warning()));
        } else {
            assert(undescribed_attachments(a) == undescribed_attachments(init));
        }
    }
}

proof fn lemma_v3_get_6(
    report: Seq<(Seq<char>, Json)>,
    report_type: Seq<char>,
    category: Seq<char>,
    v4_type: Seq<char>,
    source_identifier: Seq<char>,
    contact: Json,
    report_id: Seq<char>,
    now: Seq<char>,
    evidence: Option<Seq<Json>>,
    extra: Seq<(Seq<char>, Json)>,
)
    requires
        forall|t: int| 0 <= t < extra.len() ==> category_key(#[trigger] extra[t].0),
    ensures
        obj_get(obj_from(v3_core_pairs(report, report_type, category, v4_type, source_identifier, contact, report_id, now, evidence) + extra), "category"@)
            == Some(v3_core_pairs(report, report_type, category, v4_type, source_identifier, contact, report_id, now, evidence)[6].1),
{
    let ss = v3_segments(report, report_type, category, v4_type, source_identifier, contact, report_id, now, evidence, extra);
    reveal_strlit("xarf_version");
    reveal_strlit("report_id");
    reveal_strlit("timestamp");
    reveal_strlit("reporter");
    reveal_strlit("sender");
    reveal_strlit("source_identifier");
    reveal_strlit("category");
    reveal_strlit("type");
    reveal_strlit("legacy_version");
    reveal_strlit("_internal");
    reveal_strlit("description");
    reveal_strlit("evidence_source");
    reveal_strlit("evidence");
    reveal_strlit("protocol");
    reveal_strlit("smtp_from");
    reveal_strlit("smtp_to");
    reveal_strlit("subject");
    reveal_strlit("source_port");
    reveal_strlit("first_seen");
    reveal_strlit("destination_ip");
    reveal_strlit("destination_port");
    reveal_strlit("attack_count");
    reveal_strlit("url");
    assert forall|j: int, t: int| 0 <= j < ss.len() && j != 6 && 0 <= t < ss[j].len() implies #[trigger] ss[j][t].0 != "category"@ by {
        if j == 0 {
            assert(ss[0][t].0 == "xarf_version"@);
            assert("xarf_version"@.len() == 12 && "category"@.len() == 8);
            assert("xarf_version"@ != "category"@);
        } else if j == 1 {
            assert(ss[1][t].0 == "report_id"@);
            assert("report_id"@.len() == 9 && "category"@.len() == 8);
            assert("report_id"@ != "category"@);
        } else if j == 2 {
            assert(ss[2][t].0 == "timestamp"@);
            assert("timestamp"@.len() == 9 && "category"@.len() == 8);
            assert("timestamp"@ != "category"@);
        } else if j == 3 {
            assert(ss[3][t].0 == "reporter"@);
            assert("reporter"@[0] != "category"@[0]);
            assert("reporter"@ != "category"@);
        } else if j == 4 {
            assert(ss[4][t].0 == "sender"@);
            assert("sender"@.len() == 6 && "category"@.len() == 8);
            assert("sender"@ != "category"@);
        } else if j == 5 {
            assert(ss[5][t].0 == "source_identifier"@);
            assert("source_identifier"@.len() == 17 && "category"@.len() == 8);
            assert("source_identifier"@ != "category"@);
        } else if j == 7 {
            assert(ss[7][t].0 == "type"@);
            assert("type"@.len() == 4 && "category"@.len() == 8);
            assert("type"@ != "category"@);
        } else if j == 8 {
            assert(ss[8][t].0 == "legacy_version"@);
            assert("legacy_version"@.len() == 14 && "category"@.len() == 8);
            assert("legacy_version"@ != "category"@);
        } else if j == 9 {
            assert(ss[9][t].0 == "_internal"@);
            assert("_internal"@.len() == 9 && "category"@.len() == 8);
            assert("_internal"@ != "category"@);
        } else if j == 10 {
            assert(ss[10][t].0 == "description"@);
            assert("description"@.len() == 11 && "category"@.len() == 8);
            assert("description"@ != "category"@);
        } else if j == 11 {
            assert(ss[11][t].0 == "evidence_source"@);
            assert("evidence_source"@.len() == 15 && "category"@.len() == 8);
            assert("evidence_source"@ != "category"@);
        } else if j == 12 {
            assert(ss[12][t].0 == "evidence"@);
            assert("evidence"@[0] != "category"@[0]);
            assert("evidence"@ != "category"@);
        } else if j == 13 {
            assert(ss[13] == extra);
            assert(category_key(extra[t].0));
            assert("protocol"@[0] != "category"@[0]);
            assert("protocol"@ != "category"@);
            assert("smtp_from"@.len() == 9 && "category"@.len() == 8);
            assert("smtp_from"@ != "category"@);
            assert("smtp_to"@.len() == 7 && "category"@.len() == 8);
            assert("smtp_to"@ != "category"@);
            assert("subject"@.len() == 7 && "category"@.len() == 8);
            assert("subject"@ != "category"@);
            assert("source_port"@.len() == 11 && "category"@.len() == 8);
            assert("source_port"@ != "category"@);
            assert("first_seen"@.len() == 10 && "category"@.len() == 8);
            assert("first_seen"@ != "category"@);
            assert("destination_ip"@.len() == 14 && "category"@.len() == 8);
            assert("destination_ip"@ != "category"@);
            assert("destination_port"@.len() == 16 && "category"@.len() == 8);
            assert("destination_port"@ != "category"@);
            assert("attack_count"@.len() == 12 && "category"@.len() == 8);
            assert("attack_count"@ != "category"@);
            assert("url"@.len() == 3 && "category"@.len() == 8);
            assert("url"@ != "category"@);
        }
    }
    lemma_v3_segments(report, report_type, category, v4_type, source_identifier, contact, report_id, now, evidence, extra);
    lemma_get_in_segments(ss, 6, "category"@);
    let core = v3_core_pairs(report, report_type, category, v4_type, source_identifier, contact, report_id, now, evidence);
    assert(ss[6] == seq![core[6]]);
    lemma_single("category"@, core[6].1);
}

proof fn lemma_v3_get_7(
    report: Seq<(Seq<char>, Json)>,
    report_type: Seq<char>,
    category: Seq<char>,
    v4_type: Seq<char>,
    source_identifier: Seq<char>,
    contact: Json,
    report_id: Seq<char>,
    now: Seq<char>,
    evidence: Option<Seq<Json>>,
    extra: Seq<(Seq<char>, Json)>,
)
    requires
        forall|t: int| 0 <= t < extra.len() ==> category_key(#[trigger] extra[t].0),
    ensures
        obj_get(obj_from(v3_core_pairs(report, report_type, category, v4_type, source_identifier, contact, report_id, now, evidence) + extra), "type"@)
            == Some(v3_core_pairs(report, report_type, category, v4_type, source_identifier, contact, report_id, now, evidence)[7].1),
{
    let ss = v3_segments(report, report_type, category, v4_type, source_identifier, contact, report_id, now, evidence, extra);
    reveal_strlit("xarf_version");
    reveal_strlit("report_id");
    reveal_strlit("timestamp");
    reveal_strlit("reporter");
    reveal_strlit("sender");
    reveal_strlit("source_identifier");
    reveal_strlit("category");
    reveal_strlit("type");
    reveal_strlit("legacy_version");
    reveal_strlit("_internal");
    reveal_strlit("description");
    reveal_strlit("evidence_source");
    reveal_strlit("evidence");
    reveal_strlit("protocol");
    reveal_strlit("smtp_from");
    reveal_strlit("smtp_to");
    reveal_strlit("subject");
    reveal_strlit("source_port");
    reveal_strlit("first_seen");
    reveal_strlit("destination_ip");
    reveal_strlit("destination_port");
    reveal_strlit("attack_count");
    reveal_strlit("url");
    assert forall|j: int, t: int| 0 <= j < ss.len() && j != 7 && 0 <= t < ss[j].len() implies #[trigger] ss[j][t].0 != "type"@ by {
        if j == 0 {
            assert(ss[0][t].0 == "xarf_version"@);
            assert("xarf_version"@.len() == 12 && "type"@.len() == 4);
            assert("xarf_version"@ != "type"@);
        } else if j == 1 {
            assert(ss[1][t].0 == "report_id"@);
            assert("report_id"@.len() == 9 && "type"@.len() == 4);
            assert("report_id"@ != "type"@);
        } else if j == 2 {
            assert(ss[2][t].0 == "timestamp"@);
            assert("timestamp"@.len() == 9 && "type"@.len() == 4);
            assert("timestamp"@ != "type"@);
        } else if j == 3 {
            assert(ss[3][t].0 == "reporter"@);
            assert("reporter"@.len() == 8 && "type"@.len() == 4);
            assert("reporter"@ != "type"@);
        } else if j == 4 {
            assert(ss[4][t].0 == "sender"@);
            assert("sender"@.len() == 6 && "type"@.len() == 4);
            assert("sender"@ != "type"@);
        } else if j == 5 {
            assert(ss[5][t].0 == "source_identifier"@);
            assert("source_identifier"@.len() == 17 && "type"@.len() == 4);
            assert("source_identifier"@ != "type"@);
        } else if j == 6 {
            assert(ss[6][t].0 == "category"@);
            assert("category"@.len() == 8 && "type"@.len() == 4);
            assert("category"@ != "type"@);
        } else if j == 8 {
            assert(ss[8][t].0 == "legacy_version"@);
            assert("legacy_version"@.len() == 14 && "type"@.len() == 4);
            assert("legacy_version"@ != "type"@);
        } else if j == 9 {
            assert(ss[9][t].0 == "_internal"@);
            assert("_internal"@.len() == 9 && "type"@.len() == 4);
            assert("_internal"@ != "type"@);
        } else if j == 10 {
            assert(ss[10][t].0 == "description"@);
            assert("description"@.len() == 11 && "type"@.len() == 4);
            assert("description"@ != "type"@);
        } else if j == 11 {
            assert(ss[11][t].0 == "evidence_source"@);
            assert("evidence_source"@.len() == 15 && "type"@.len() == 4);
            assert("evidence_source"@ != "type"@);
        } else if j == 12 {
            assert(ss[12][t].0 == "evidence"@);
            assert("evidence"@.len() == 8 && "type"@.len() == 4);
            assert("evidence"@ != "type"@);
        } else if j == 13 {
            assert(ss[13] == extra);
            assert(category_key(extra[t].0));
            assert("protocol"@.len() == 8 && "type"@.len() == 4);
            assert("protocol"@ != "type"@);
            assert("smtp_from"@.len() == 9 && "type"@.len() == 4);
            assert("smtp_from"@ != "type"@);
            assert("smtp_to"@.len() == 7 && "type"@.len() == 4);
            assert("smtp_to"@ != "type"@);
            assert("subject"@.len() == 7 && "type"@.len() == 4);
            assert("subject"@ != "type"@);
            assert("source_port"@.len() == 11 && "type"@.len() == 4);
            assert("source_port"@ != "type"@);
            assert("first_seen"@.len() == 10 && "type"@.len() == 4);
            assert("first_seen"@ != "type"@);
            assert("destination_ip"@.len() == 14 && "type"@.len() == 4);
            assert("destination_ip"@ != "type"@);
            assert("destination_port"@.len() == 16 && "type"@.len() == 4);
            assert("destination_port"@ != "type"@);
            assert("attack_count"@.len() == 12 && "type"@.len() == 4);
            assert("attack_count"@ != "type"@);
            assert("url"@.len() == 3 && "type"@.len() == 4);
            assert("url"@ != "type"@);
        }
    }
    lemma_v3_segments(report, report_type, category, v4_type, source_identifier, contact, report_id, now, evidence, extra);
    lemma_get_in_segments(ss, 7, "type"@);
    let core = v3_core_pairs(report, report_type, category, v4_type, source_identifier, contact, report_id, now, evidence);
    assert(ss[7] == seq![core[7]]);
    lemma_single("type"@, core[7].1);
}

/// The v4 category and type of a converted v3 report follow the XARF v3
/// report types: Spam is messaging/spam; Login-Attack, Port-Scan and DDoS
/// are connection/login_attack, connection/port_scan and connection/ddos;
/// Phishing and Malware are content/phishing and content/malware; Botnet is
/// infrastructure/botnet; Copyright is copyright/copyright (each also in
/// lower case). No other report type converts.
pub proof fn lemma_v3_report_types(v3: Json, report_id: Seq<char>, now: Seq<char>)
    requires
        v3_conversion(v3, report_id, now).0 is Ok,
    ensures
        ({
            let v4 = v3_conversion(v3, report_id, now).0->Ok_0;
            let report = obj_or_empty(obj_get_obj(v3->Object_0, "Report"@));
            let report_type = str_or(obj_get_str(report, "ReportType"@), Seq::empty());
            &&& v4 is Object
            &&& report_type == "Spam"@ || report_type == "spam"@ || report_type == "Login-Attack"@ || report_type == "login-attack"@ || report_type == "Port-Scan"@ || report_type == "port-scan"@ || report_type == "DDoS"@ || report_type == "ddos"@ || report_type == "Phishing"@ || report_type == "phishing"@ || report_type == "Malware"@ || report_type == "malware"@ || report_type == "Botnet"@ || report_type == "botnet"@ || report_type == "Copyright"@ || report_type == "copyright"@
            &&& (report_type == "Spam"@ || report_type == "spam"@) ==> obj_get(v4->Object_0, "category"@)
                == Some(Json::Str("messaging"@)) && obj_get(v4->Object_0, "type"@) == Some(Json::Str("spam"@))
            &&& (report_type == "Login-Attack"@ || report_type == "login-attack"@) ==> obj_get(v4->Object_0, "category"@)
                == Some(Json::Str("connection"@)) && obj_get(v4->Object_0, "type"@) == Some(Json::Str("login_attack"@))
            &&& (report_type == "Port-Scan"@ || report_type == "port-scan"@) ==> obj_get(v4->Object_0, "category"@)
                == Some(Json::Str("connection"@)) && obj_get(v4->Object_0, "type"@) == Some(Json::Str("port_scan"@))
            &&& (report_type == "DDoS"@ || report_type == "ddos"@) ==> obj_get(v4->Object_0, "category"@)
                == Some(Json::Str("connection"@)) && obj_get(v4->Object_0, "type"@) == Some(Json::Str("ddos"@))
            &&& (report_type == "Phishing"@ || report_type == "phishing"@) ==> obj_get(v4->Object_0, "category"@)
                == Some(Json::Str("content"@)) && obj_get(v4->Object_0, "type"@) == Some(Json::Str("phishing"@))
            &&& (report_type == "Malware"@ || report_type == "malware"@) ==> obj_get(v4->Object_0, "category"@)
                == Some(Json::Str("content"@)) && obj_get(v4->Object_0, "type"@) == Some(Json::Str("malware"@))
            &&& (report_type == "Botnet"@ || report_type == "botnet"@) ==> obj_get(v4->Object_0, "category"@)
                == Some(Json::Str("infrastructure"@)) && obj_get(v4->Object_0, "type"@) == Some(Json::Str("botnet"@))
            &&& (report_type == "Copyright"@ || report_type == "copyright"@) ==> obj_get(v4->Object_0, "category"@)
                == Some(Json::Str("copyright"@)) && obj_get(v4->Object_0, "type"@) == Some(Json::Str("copyright"@))
        }),
{
    reveal_strlit("Spam");
    reveal_strlit("spam");
    reveal_strlit("Login-Attack");
    reveal_strlit("login-attack");
    reveal_strlit("Port-Scan");
    reveal_strlit("port-scan");
    reveal_strlit("DDoS");
    reveal_strlit("ddos");
    reveal_strlit("Phishing");
    reveal_strlit("phishing");
    reveal_strlit("Malware");
    reveal_strlit("malware");
    reveal_strlit("Botnet");
    reveal_strlit("botnet");
    reveal_strlit("Copyright");
    reveal_strlit("copyright");
    reveal_strlit("messaging");
    reveal_strlit("connection");
    reveal_strlit("connection");
    reveal_strlit("connection");
    reveal_strlit("content");
    reveal_strlit("content");
    reveal_strlit("infrastructure");
    reveal_strlit("copyright");
    reveal_strlit("spam");
    reveal_strlit("login_attack");
    reveal_strlit("port_scan");
    reveal_strlit("ddos");
    reveal_strlit("phishing");
    reveal_strlit("malware");
    reveal_strlit("botnet");
    reveal_strlit("copyright");
    let top = v3->Object_0;
    let report = obj_or_empty(obj_get_obj(top, "Report"@));
    let info = obj_or_empty(obj_get_obj(top, "ReporterInfo"@));
    let rt = str_or(obj_get_str(report, "ReportType"@), Seq::empty());
    let (cat, ty) = v3_type_mapping(rt)->Some_0;
    let sid = source_identifier_of(report)->Some_0;
    let contact = contact_info(info).0->Ok_0;
    let ev = match attachments_of(report) {
        Some(a) => Some(converted_attachments(a).0),
        None => None,
    };
    let extra = category_pairs(cat, report, ty)->Ok_0;
    lemma_category_keys(cat, report, ty);
    lemma_v3_get_6(report, rt, cat, ty, sid, contact, report_id, now, ev, extra);
    lemma_v3_get_7(report, rt, cat, ty, sid, contact, report_id, now, ev, extra);
    let v4 = v3_conversion(v3, report_id, now).0->Ok_0;
    assert(v4 == Json::Object(obj_from(v3_core_pairs(report, rt, cat, ty, sid, contact, report_id, now, ev) + extra)));
    assert(obj_get(v4->Object_0, "category"@) == Some(Json::Str(cat)));
    assert(obj_get(v4->Object_0, "type"@) == Some(Json::Str(ty)));
    if rt == "Spam"@ || rt == "spam"@ {
        assert(v3_type_mapping(rt) == Some(("messaging"@, "spam"@)));
    }
    if rt == "Login-Attack"@ || rt == "login-attack"@ {
        assert(v3_type_mapping(rt) == Some(("connection"@, "login_attack"@)));
    }
    if rt == "Port-Scan"@ || rt == "port-scan"@ {
        assert(v3_type_mapping(rt) == Some(("connection"@, "port_scan"@)));
    }
    if rt == "DDoS"@ || rt == "ddos"@ {
        assert(rt[0] != "Spam"@[0] && rt[0] != "spam"@[0]);
        assert(rt != "Spam"@ && rt != "spam"@);
        assert(rt.len() != "Login-Attack"@.len() && rt.len() != "Port-Scan"@.len());
        assert(v3_type_mapping(rt) == Some(("connection"@, "ddos"@)));
    }
    if rt == "Phishing"@ || rt == "phishing"@ {
        assert(v3_type_mapping(rt) == Some(("content"@, "phishing"@)));
    }
    if rt == "Malware"@ || rt == "malware"@ {
        assert(v3_type_mapping(rt) == Some(("content"@, "malware"@)));
    }
    if rt == "Botnet"@ || rt == "botnet"@ {
        assert(v3_type_mapping(rt) == Some(("infrastructure"@, "botnet"@)));
    }
    if rt == "Copyright"@ || rt == "copyright"@ {
        assert(rt[0] != "Port-Scan"@[0] && rt[0] != "port-scan"@[0]);
        assert(rt != "Port-Scan"@ && rt != "port-scan"@);
        assert(rt.len() != "Spam"@.len() && rt.len() != "Login-Attack"@.len() && rt.len() != "DDoS"@.len());
        assert(rt.len() != "Phishing"@.len() && rt.len() != "Malware"@.len() && rt.len() != "Botnet"@.len());
        assert(v3_type_mapping(rt) == Some(("copyright"@, "copyright"@)));
    }
}

} // verus!

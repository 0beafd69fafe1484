//! The typed view of a XARF v4 report: core fields strongly typed,
//! category-specific fields kept verbatim in a sorted object.

use vstd::prelude::*;

use crate::json::{
    lemma_entries_view, entries_view, json_view, json_view_seq, lemma_insert_all_push, lemma_view_seq, obj_from,
    keys_sorted, obj_get, obj_insert, obj_insert_all, opt_pair, Json, JsonMap, JsonNumber, JsonValue,
    Num,
};
use crate::text::{
    concat, debug_quoted, debug_text, decimal, decimal_string, owned, str_eq,
};

verus! {

/// Contact information of the reporter or the sender.
#[derive(Debug, PartialEq, Eq)]
pub struct Contact {
    pub org: String,
    pub contact: String,
    pub domain: String,
}

pub ghost struct ContactModel {
    pub org: Seq<char>,
    pub contact: Seq<char>,
    pub domain: Seq<char>,
}

impl View for Contact {
    type V = ContactModel;

    open spec fn view(&self) -> ContactModel {
        ContactModel { org: self.org@, contact: self.contact@, domain: self.domain@ }
    }
}

/// One evidence item. `payload` is base64 text.
#[derive(Debug, PartialEq, Eq)]
pub struct Evidence {
    pub content_type: String,
    pub payload: String,
    pub description: Option<String>,
    pub hash: Option<String>,
    pub size: Option<u64>,
}

pub ghost struct EvidenceModel {
    pub content_type: Seq<char>,
    pub payload: Seq<char>,
    pub description: Option<Seq<char>>,
    pub hash: Option<Seq<char>>,
    pub size: Option<u64>,
}

pub open spec fn opt_str_view(o: Option<String>) -> Option<Seq<char>> {
    match o {
        Some(s) => Some(s@),
        None => None,
    }
}

impl View for Evidence {
    type V = EvidenceModel;

    open spec fn view(&self) -> EvidenceModel {
        EvidenceModel {
            content_type: self.content_type@,
            payload: self.payload@,
            description: opt_str_view(self.description),
            hash: opt_str_view(self.hash),
            size: self.size,
        }
    }
}

/// The seven XARF v4 categories, and any other text (which validation
/// always rejects) kept for round-tripping.
#[derive(Debug, PartialEq, Eq, Hash)]
pub enum Category {
    Messaging,
    Connection,
    Content,
    Copyright,
    Vulnerability,
    Infrastructure,
    Reputation,
    Other(String),
}

pub ghost enum CategoryModel {
    Messaging,
    Connection,
    Content,
    Copyright,
    Vulnerability,
    Infrastructure,
    Reputation,
    Other(Seq<char>),
}

impl View for Category {
    type V = CategoryModel;

    open spec fn view(&self) -> CategoryModel {
        match self {
            Category::Messaging => CategoryModel::Messaging,
            Category::Connection => CategoryModel::Connection,
            Category::Content => CategoryModel::Content,
            Category::Copyright => CategoryModel::Copyright,
            Category::Vulnerability => CategoryModel::Vulnerability,
            Category::Infrastructure => CategoryModel::Infrastructure,
            Category::Reputation => CategoryModel::Reputation,
            Category::Other(s) => CategoryModel::Other(s@),
        }
    }
}

/// The wire name of a category.
pub open spec fn category_name(c: CategoryModel) -> Seq<char> {
    match c {
        CategoryModel::Messaging => "messaging"@,
        CategoryModel::Connection => "connection"@,
        CategoryModel::Content => "content"@,
        CategoryModel::Copyright => "copyright"@,
        CategoryModel::Vulnerability => "vulnerability"@,
        CategoryModel::Infrastructure => "infrastructure"@,
        CategoryModel::Reputation => "reputation"@,
        CategoryModel::Other(s) => s,
    }
}

/// The category a wire name denotes.
pub open spec fn category_of(s: Seq<char>) -> CategoryModel {
    if s == "messaging"@ {
        CategoryModel::Messaging
    } else if s == "connection"@ {
        CategoryModel::Connection
    } else if s == "content"@ {
        CategoryModel::Content
    } else if s == "copyright"@ {
        CategoryModel::Copyright
    } else if s == "vulnerability"@ {
        CategoryModel::Vulnerability
    } else if s == "infrastructure"@ {
        CategoryModel::Infrastructure
    } else if s == "reputation"@ {
        CategoryModel::Reputation
    } else {
        CategoryModel::Other(s)
    }
}

/// Reading a category from its name gives back the same name.
pub proof fn lemma_category_name_of(s: Seq<char>)
    ensures
        category_name(category_of(s)) == s,
{
}

/// A canonical category, or an `Other` whose text is no canonical name,
/// reads back as itself from its name.
pub proof fn lemma_category_of_name(c: CategoryModel)
    requires
        c matches CategoryModel::Other(t) ==> category_of(t) is Other,
    ensures
        category_of(category_name(c)) == c,
{
    reveal_strlit("messaging");
    reveal_strlit("connection");
    reveal_strlit("content");
    reveal_strlit("copyright");
    reveal_strlit("vulnerability");
    reveal_strlit("infrastructure");
    reveal_strlit("reputation");
    assert("connection"@ != "messaging"@) by {
        assert("connection"@.len() != "messaging"@.len());
    }
    assert("content"@ != "messaging"@) by {
        assert("content"@.len() != "messaging"@.len());
    }
    assert("content"@ != "connection"@) by {
        assert("content"@.len() != "connection"@.len());
    }
    assert("copyright"@ != "messaging"@) by {
        assert("copyright"@[0] != "messaging"@[0]);
    }
    assert("copyright"@ != "connection"@) by {
        assert("copyright"@.len() != "connection"@.len());
    }
    assert("copyright"@ != "content"@) by {
        assert("copyright"@.len() != "content"@.len());
    }
    assert("vulnerability"@ != "messaging"@) by {
        assert("vulnerability"@.len() != "messaging"@.len());
    }
    assert("vulnerability"@ != "connection"@) by {
        assert("vulnerability"@.len() != "connection"@.len());
    }
    assert("vulnerability"@ != "content"@) by {
        assert("vulnerability"@.len() != "content"@.len());
    }
    assert("vulnerability"@ != "copyright"@) by {
        assert("vulnerability"@.len() != "copyright"@.len());
    }
    assert("infrastructure"@ != "messaging"@) by {
        assert("infrastructure"@.len() != "messaging"@.len());
    }
    assert("infrastructure"@ != "connection"@) by {
        assert("infrastructure"@.len() != "connection"@.len());
    }
    assert("infrastructure"@ != "content"@) by {
        assert("infrastructure"@.len() != "content"@.len());
    }
    assert("infrastructure"@ != "copyright"@) by {
        assert("infrastructure"@.len() != "copyright"@.len());
    }
    assert("infrastructure"@ != "vulnerability"@) by {
        assert("infrastructure"@.len() != "vulnerability"@.len());
    }
    assert("reputation"@ != "messaging"@) by {
        assert("reputation"@.len() != "messaging"@.len());
    }
    assert("reputation"@ != "connection"@) by {
        assert("reputation"@[0] != "connection"@[0]);
    }
    assert("reputation"@ != "content"@) by {
        assert("reputation"@.len() != "content"@.len());
    }
    assert("reputation"@ != "copyright"@) by {
        assert("reputation"@.len() != "copyright"@.len());
    }
    assert("reputation"@ != "vulnerability"@) by {
        assert("reputation"@.len() != "vulnerability"@.len());
    }
    assert("reputation"@ != "infrastructure"@) by {
        assert("reputation"@.len() != "infrastructure"@.len());
    }
}

impl Category {
    /// The wire name.
    pub fn as_str(&self) -> (r: &str)
        ensures
            r@ == category_name(self@),
    {
        match self {
            Category::Messaging => "messaging",
            Category::Connection => "connection",
            Category::Content => "content",
            Category::Copyright => "copyright",
            Category::Vulnerability => "vulnerability",
            Category::Infrastructure => "infrastructure",
            Category::Reputation => "reputation",
            Category::Other(s) => s.as_str(),
        }
    }

    /// The category named `s`; any other text becomes `Other`.
    pub fn from_str_value(s: &str) -> (r: Category)
        ensures
            r@ == category_of(s@),
    {
        if str_eq(s, "messaging") {
            Category::Messaging
        } else if str_eq(s, "connection") {
            Category::Connection
        } else if str_eq(s, "content") {
            Category::Content
        } else if str_eq(s, "copyright") {
            Category::Copyright
        } else if str_eq(s, "vulnerability") {
            Category::Vulnerability
        } else if str_eq(s, "infrastructure") {
            Category::Infrastructure
        } else if str_eq(s, "reputation") {
            Category::Reputation
        } else {
            Category::Other(owned(s))
        }
    }

    /// `true` for the seven canonical categories.
    pub fn is_known(&self) -> (r: bool)
        ensures
            r == !(self@ is Other),
    {
        match self {
            Category::Other(_) => false,
            _ => true,
        }
    }
}

impl Clone for Category {
    fn clone(&self) -> (r: Self)
        ensures
            r@ == self@,
    {
        match self {
            Category::Messaging => Category::Messaging,
            Category::Connection => Category::Connection,
            Category::Content => Category::Content,
            Category::Copyright => Category::Copyright,
            Category::Vulnerability => Category::Vulnerability,
            Category::Infrastructure => Category::Infrastructure,
            Category::Reputation => Category::Reputation,
            Category::Other(s) => Category::Other(s.clone()),
        }
    }
}

impl Clone for Contact {
    fn clone(&self) -> (r: Self)
        ensures
            r@ == self@,
    {
        Contact { org: self.org.clone(), contact: self.contact.clone(), domain: self.domain.clone() }
    }
}

pub fn clone_opt_string(o: &Option<String>) -> (r: Option<String>)
    ensures
        opt_str_view(r) == opt_str_view(*o),
{
    match o {
        Some(s) => Some(s.clone()),
        None => None,
    }
}

impl Clone for Evidence {
    fn clone(&self) -> (r: Self)
        ensures
            r@ == self@,
    {
        Evidence {
            content_type: self.content_type.clone(),
            payload: self.payload.clone(),
            description: clone_opt_string(&self.description),
            hash: clone_opt_string(&self.hash),
            size: self.size,
        }
    }
}

impl Contact {
    pub fn new(org: String, contact: String, domain: String) -> (r: Contact)
        ensures
            r@ == (ContactModel { org: org@, contact: contact@, domain: domain@ }),
    {
        Contact { org, contact, domain }
    }
}

// ---------------------------------------------------------------------------
// Reading typed values out of JSON objects.
// ---------------------------------------------------------------------------

/// The message for a required member that is absent.
pub open spec fn missing_field_msg(k: Seq<char>) -> Seq<char> {
    "missing field `"@ + k + "`"@
}

/// The decimal text of a signed integer.
pub open spec fn signed_decimal(i: int) -> Seq<char> {
    if i < 0 {
        seq!['-'] + decimal((-i) as nat)
    } else {
        decimal(i as nat)
    }
}

/// How a value of an unexpected kind is described in a reading error, as
/// `serde_json` describes it (a number of the `Float` kind by its text).
pub open spec fn unexpected_text(v: Json) -> Seq<char> {
    match v {
        Json::Null => "null"@,
        Json::Bool(b) => if b {
            "boolean `true`"@
        } else {
            "boolean `false`"@
        },
        Json::Number(Num::PosInt(u)) => "integer `"@ + decimal(u as nat) + "`"@,
        Json::Number(Num::NegInt(i)) => "integer `"@ + signed_decimal(i as int) + "`"@,
        Json::Number(Num::Float(t)) => "floating point `"@ + t + "`"@,
        Json::Str(t) => "string "@ + (seq!['"'] + debug_text(t) + seq!['"']),
        Json::Array(_) => "sequence"@,
        Json::Object(_) => "map"@,
    }
}

/// The message for a value of the wrong kind.
pub open spec fn wrong_type_msg(v: Json, expected: Seq<char>) -> Seq<char> {
    "invalid type: "@ + unexpected_text(v) + ", expected "@ + expected
}

/// The message for a value of the right kind but out of range.
pub open spec fn wrong_value_msg(v: Json, expected: Seq<char>) -> Seq<char> {
    "invalid value: "@ + unexpected_text(v) + ", expected "@ + expected
}

/// A required string member.
pub open spec fn req_str(es: Seq<(Seq<char>, Json)>, k: Seq<char>) -> Result<Seq<char>, Seq<char>> {
    match obj_get(es, k) {
        None => Err(missing_field_msg(k)),
        Some(Json::Str(s)) => Ok(s),
        Some(other) => Err(wrong_type_msg(other, "a string"@)),
    }
}

/// An optional string member: absent or `null` reads as `None`.
pub open spec fn opt_str(es: Seq<(Seq<char>, Json)>, k: Seq<char>) -> Result<
    Option<Seq<char>>,
    Seq<char>,
> {
    match obj_get(es, k) {
        None => Ok(None),
        Some(Json::Null) => Ok(None),
        Some(Json::Str(s)) => Ok(Some(s)),
        Some(other) => Err(wrong_type_msg(other, "a string"@)),
    }
}

/// An optional non-negative integer member.
pub open spec fn opt_u64(es: Seq<(Seq<char>, Json)>, k: Seq<char>) -> Result<Option<u64>, Seq<char>> {
    match obj_get(es, k) {
        None => Ok(None),
        Some(Json::Null) => Ok(None),
        Some(Json::Number(Num::PosInt(u))) => Ok(Some(u)),
        Some(Json::Number(Num::NegInt(i))) => Err(wrong_value_msg(Json::Number(Num::NegInt(i)), "u64"@)),
        Some(other) => Err(wrong_type_msg(other, "u64"@)),
    }
}

/// An optional port number member.
pub open spec fn opt_u16(es: Seq<(Seq<char>, Json)>, k: Seq<char>) -> Result<Option<u16>, Seq<char>> {
    match obj_get(es, k) {
        None => Ok(None),
        Some(Json::Null) => Ok(None),
        Some(Json::Number(Num::PosInt(u))) => if u <= 65535 {
            Ok(Some(u as u16))
        } else {
            Err(wrong_value_msg(Json::Number(Num::PosInt(u)), "u16"@))
        },
        Some(Json::Number(Num::NegInt(i))) => Err(wrong_value_msg(Json::Number(Num::NegInt(i)), "u16"@)),
        Some(other) => Err(wrong_type_msg(other, "u16"@)),
    }
}

/// An optional number member.
pub open spec fn opt_num(es: Seq<(Seq<char>, Json)>, k: Seq<char>) -> Result<Option<Num>, Seq<char>> {
    match obj_get(es, k) {
        None => Ok(None),
        Some(Json::Null) => Ok(None),
        Some(Json::Number(n)) => Ok(Some(n)),
        Some(other) => Err(wrong_type_msg(other, "f64"@)),
    }
}

/// An optional object member.
pub open spec fn opt_obj(es: Seq<(Seq<char>, Json)>, k: Seq<char>) -> Result<
    Option<Seq<(Seq<char>, Json)>>,
    Seq<char>,
> {
    match obj_get(es, k) {
        None => Ok(None),
        Some(Json::Null) => Ok(None),
        Some(Json::Object(m)) => Ok(Some(m)),
        Some(other) => Err(wrong_type_msg(other, "a map"@)),
    }
}

/// The strings of an array, or the error for its first element that is
/// not a string.
pub open spec fn strings_of(a: Seq<Json>) -> Result<Seq<Seq<char>>, Seq<char>>
    decreases a.len(),
{
    if a.len() == 0 {
        Ok(Seq::empty())
    } else {
        match strings_of(a.drop_last()) {
            Err(e) => Err(e),
            Ok(ss) => match a.last() {
                Json::Str(t) => Ok(ss.push(t)),
                other => Err(wrong_type_msg(other, "a string"@)),
            },
        }
    }
}

/// An error in a prefix is the error of the whole array.
proof fn lemma_strings_prefix_err(a: Seq<Json>, j: int)
    requires
        0 <= j <= a.len(),
        strings_of(a.take(j)) is Err,
    ensures
        strings_of(a) == strings_of(a.take(j)),
    decreases a.len() - j,
{
    if j < a.len() {
        assert(a.take(j + 1).drop_last() =~= a.take(j));
        lemma_strings_prefix_err(a, j + 1);
    } else {
        assert(a.take(j) =~= a);
    }
}

/// An optional member holding an array of strings.
pub open spec fn opt_strings(es: Seq<(Seq<char>, Json)>, k: Seq<char>) -> Result<
    Option<Seq<Seq<char>>>,
    Seq<char>,
> {
    match obj_get(es, k) {
        None => Ok(None),
        Some(Json::Null) => Ok(None),
        Some(Json::Array(a)) => match strings_of(a) {
            Ok(ss) => Ok(Some(ss)),
            Err(e) => Err(e),
        },
        Some(other) => Err(wrong_type_msg(other, "a sequence"@)),
    }
}

pub fn missing_field(k: &str) -> (r: String)
    ensures
        r@ == missing_field_msg(k@),
{
    let head = concat("missing field `", k);
    concat(head.as_str(), "`")
}

/// The description of a value of an unexpected kind.
pub fn unexpected(v: &JsonValue) -> (r: String)
    ensures
        r@ == unexpected_text(v@),
{
    match v {
        JsonValue::Null => owned("null"),
        JsonValue::Bool(b) => if *b {
            owned("boolean `true`")
        } else {
            owned("boolean `false`")
        },
        JsonValue::Number(JsonNumber::PosInt(u)) => {
            let d = decimal_string(*u);
            let head = concat("integer `", d.as_str());
            let r = concat(head.as_str(), "`");
            r
        },
        JsonValue::Number(JsonNumber::NegInt(i)) => {
            let d = if *i < 0 {
                let a: u64 = ((-(*i + 1)) as u64) + 1;
                let t = decimal_string(a);
                let r = concat("-", t.as_str());
                proof {
                    reveal_strlit("-");
                    assert(r@ =~= signed_decimal(*i as int));
                }
                r
            } else {
                decimal_string(*i as u64)
            };
            let head = concat("integer `", d.as_str());
            concat(head.as_str(), "`")
        },
        JsonValue::Number(JsonNumber::Float(t)) => {
            let head = concat("floating point `", t.as_str());
            concat(head.as_str(), "`")
        },
        JsonValue::String(t) => {
            let q = debug_quoted(t.as_str());
            concat("string ", q.as_str())
        },
        JsonValue::Array(_) => owned("sequence"),
        JsonValue::Object(_) => owned("map"),
    }
}

pub fn wrong_type(v: &JsonValue, expected: &str) -> (r: String)
    ensures
        r@ == wrong_type_msg(v@, expected@),
{
    let u = unexpected(v);
    let head = concat("invalid type: ", u.as_str());
    let mid = concat(head.as_str(), ", expected ");
    concat(mid.as_str(), expected)
}

pub fn wrong_value(v: &JsonValue, expected: &str) -> (r: String)
    ensures
        r@ == wrong_value_msg(v@, expected@),
{
    let u = unexpected(v);
    let head = concat("invalid value: ", u.as_str());
    let mid = concat(head.as_str(), ", expected ");
    concat(mid.as_str(), expected)
}

pub fn read_req_str(m: &JsonMap, k: &str) -> (r: Result<String, String>)
    ensures
        match r {
            Ok(s) => req_str(m@, k@) == Ok::<Seq<char>, Seq<char>>(s@),
            Err(e) => req_str(m@, k@) == Err::<Seq<char>, Seq<char>>(e@),
        },
{
    match m.get(k) {
        None => Err(missing_field(k)),
        Some(JsonValue::String(s)) => Ok(s.clone()),
        Some(other) => Err(wrong_type(other, "a string")),
    }
}

pub fn read_opt_str(m: &JsonMap, k: &str) -> (r: Result<Option<String>, String>)
    ensures
        match r {
            Ok(o) => opt_str(m@, k@) == Ok::<Option<Seq<char>>, Seq<char>>(opt_str_view(o)),
            Err(e) => opt_str(m@, k@) == Err::<Option<Seq<char>>, Seq<char>>(e@),
        },
{
    match m.get(k) {
        None => Ok(None),
        Some(JsonValue::Null) => Ok(None),
        Some(JsonValue::String(s)) => Ok(Some(s.clone())),
        Some(other) => Err(wrong_type(other, "a string")),
    }
}

pub fn read_opt_u64(m: &JsonMap, k: &str) -> (r: Result<Option<u64>, String>)
    ensures
        match r {
            Ok(o) => opt_u64(m@, k@) == Ok::<Option<u64>, Seq<char>>(o),
            Err(e) => opt_u64(m@, k@) == Err::<Option<u64>, Seq<char>>(e@),
        },
{
    match m.get(k) {
        None => Ok(None),
        Some(JsonValue::Null) => Ok(None),
        Some(JsonValue::Number(JsonNumber::PosInt(u))) => Ok(Some(*u)),
        Some(JsonValue::Number(JsonNumber::NegInt(i))) => Err(
            wrong_value(&JsonValue::Number(JsonNumber::NegInt(*i)), "u64"),
        ),
        Some(other) => Err(wrong_type(other, "u64")),
    }
}

pub fn read_opt_u16(m: &JsonMap, k: &str) -> (r: Result<Option<u16>, String>)
    ensures
        match r {
            Ok(o) => opt_u16(m@, k@) == Ok::<Option<u16>, Seq<char>>(o),
            Err(e) => opt_u16(m@, k@) == Err::<Option<u16>, Seq<char>>(e@),
        },
{
    match m.get(k) {
        None => Ok(None),
        Some(JsonValue::Null) => Ok(None),
        Some(JsonValue::Number(JsonNumber::PosInt(u))) => {
            if *u <= 65535 {
                Ok(Some(*u as u16))
            } else {
                Err(wrong_value(&JsonValue::Number(JsonNumber::PosInt(*u)), "u16"))
            }
        },
        Some(JsonValue::Number(JsonNumber::NegInt(i))) => Err(
            wrong_value(&JsonValue::Number(JsonNumber::NegInt(*i)), "u16"),
        ),
        Some(other) => Err(wrong_type(other, "u16")),
    }
}

pub fn read_opt_num(m: &JsonMap, k: &str) -> (r: Result<Option<JsonNumber>, String>)
    ensures
        match r {
            Ok(Some(n)) => opt_num(m@, k@) == Ok::<Option<Num>, Seq<char>>(Some(n@)),
            Ok(None) => opt_num(m@, k@) == Ok::<Option<Num>, Seq<char>>(None),
            Err(e) => opt_num(m@, k@) == Err::<Option<Num>, Seq<char>>(e@),
        },
{
    match m.get(k) {
        None => Ok(None),
        Some(JsonValue::Null) => Ok(None),
        Some(JsonValue::Number(n)) => Ok(Some(n.clone())),
        Some(other) => Err(wrong_type(other, "f64")),
    }
}

pub fn read_opt_obj(m: &JsonMap, k: &str) -> (r: Result<Option<JsonMap>, String>)
    ensures
        match r {
            Ok(Some(o)) => opt_obj(m@, k@) == Ok::<Option<Seq<(Seq<char>, Json)>>, Seq<char>>(
                Some(o@),
            ),
            Ok(None) => opt_obj(m@, k@) == Ok::<Option<Seq<(Seq<char>, Json)>>, Seq<char>>(None),
            Err(e) => opt_obj(m@, k@) == Err::<Option<Seq<(Seq<char>, Json)>>, Seq<char>>(e@),
        },
{
    match m.get(k) {
        None => Ok(None),
        Some(JsonValue::Null) => Ok(None),
        Some(JsonValue::Object(o)) => Ok(Some(o.clone())),
        Some(other) => Err(wrong_type(other, "a map")),
    }
}

pub fn read_opt_strings(m: &JsonMap, k: &str) -> (r: Result<Option<Vec<String>>, String>)
    ensures
        match r {
            Ok(Some(v)) => opt_strings(m@, k@) == Ok::<Option<Seq<Seq<char>>>, Seq<char>>(
                Some(v@.map_values(|s: String| s@)),
            ),
            Ok(None) => opt_strings(m@, k@) == Ok::<Option<Seq<Seq<char>>>, Seq<char>>(None),
            Err(e) => opt_strings(m@, k@) == Err::<Option<Seq<Seq<char>>>, Seq<char>>(e@),
        },
{
    match m.get(k) {
        None => Ok(None),
        Some(JsonValue::Null) => Ok(None),
        Some(JsonValue::Array(a)) => {
            proof {
                lemma_view_seq(a@);
            }
            let ghost av = json_view_seq(a@);
            let n = a.len();
            let mut out: Vec<String> = Vec::new();
            let mut i: usize = 0;
            assert(av.take(0) =~= Seq::<Json>::empty());
            assert(out@.map_values(|s: String| s@) =~= Seq::<Seq<char>>::empty());
            while i < n
                invariant
                    n == a@.len(),
                    av == json_view_seq(a@),
                    obj_get(m@, k@) == Some(Json::Array(av)),
                    av.len() == n,
                    forall|j: int| 0 <= j < n ==> #[trigger] av[j] == json_view(a@[j]),
                    i <= n,
                    strings_of(av.take(i as int)) == Ok::<Seq<Seq<char>>, Seq<char>>(
                        out@.map_values(|s: String| s@),
                    ),
                decreases n - i,
            {
                assert(av.take(i + 1).drop_last() =~= av.take(i as int));
                assert(av.take(i + 1).last() == av[i as int]);
                assert(av[i as int] == json_view(a@[i as int]));
                match &a[i] {
                    JsonValue::String(t) => {
                        let ghost prev = out@.map_values(|s: String| s@);
                        out.push(t.clone());
                        assert(out@.map_values(|s: String| s@) =~= prev.push(t@));
                    },
                    other => {
                        let e = wrong_type(other, "a string");
                        proof {
                            lemma_strings_prefix_err(av, i + 1);
                        }
                        return Err(e);
                    },
                }
                i = i + 1;
            }
            assert(av.take(n as int) =~= av);
            Ok(Some(out))
        },
        Some(other) => Err(wrong_type(other, "a sequence")),
    }
}

// ---------------------------------------------------------------------------
// Contact and evidence as JSON.
// ---------------------------------------------------------------------------

/// The JSON object of a contact.
pub open spec fn contact_json(c: ContactModel) -> Json {
    Json::Object(
        obj_from(
            seq![
                ("org"@, Json::Str(c.org)),
                ("contact"@, Json::Str(c.contact)),
                ("domain"@, Json::Str(c.domain)),
            ],
        ),
    )
}

/// A contact read from JSON: an object with three string members (others
/// are ignored).
pub open spec fn contact_from_json(j: Json) -> Result<ContactModel, Seq<char>> {
    match j {
        Json::Object(es) => match req_str(es, "org"@) {
            Err(e) => Err(e),
            Ok(org) => match req_str(es, "contact"@) {
                Err(e) => Err(e),
                Ok(contact) => match req_str(es, "domain"@) {
                    Err(e) => Err(e),
                    Ok(domain) => Ok(ContactModel { org, contact, domain }),
                },
            },
        },
        other => Err(wrong_type_msg(other, "struct Contact"@)),
    }
}

/// Insert `k: v` into `m`.
pub fn put(m: &mut JsonMap, k: &str, v: JsonValue)
    ensures
        final(m)@ == obj_insert(old(m)@, k@, v@),
{
    let _ = m.insert(owned(k), v);
}

impl Contact {
    /// The JSON object of the contact.
    pub fn to_json(&self) -> (r: JsonValue)
        ensures
            r@ == contact_json(self@),
    {
        let mut m = JsonMap::new();
        put(&mut m, "org", JsonValue::String(self.org.clone()));
        put(&mut m, "contact", JsonValue::String(self.contact.clone()));
        put(&mut m, "domain", JsonValue::String(self.domain.clone()));
        proof {
            let p = seq![
                ("org"@, Json::Str(self.org@)),
                ("contact"@, Json::Str(self.contact@)),
                ("domain"@, Json::Str(self.domain@)),
            ];
            assert(p.drop_last() =~= seq![p[0], p[1]]);
            assert(p.drop_last().drop_last() =~= seq![p[0]]);
            assert(p.drop_last().drop_last().drop_last() =~= Seq::<(Seq<char>, Json)>::empty());
            reveal_with_fuel(obj_insert_all, 4);
        }
        JsonValue::Object(m)
    }

    /// The contact a JSON value holds.
    pub fn from_json(v: &JsonValue) -> (r: Result<Contact, String>)
        ensures
            match r {
                Ok(c) => contact_from_json(v@) == Ok::<ContactModel, Seq<char>>(c@),
                Err(e) => contact_from_json(v@) == Err::<ContactModel, Seq<char>>(e@),
            },
    {
        match v {
            JsonValue::Object(m) => {
                let org = read_req_str(m, "org")?;
                let contact = read_req_str(m, "contact")?;
                let domain = read_req_str(m, "domain")?;
                Ok(Contact { org, contact, domain })
            },
            other => Err(wrong_type(other, "struct Contact")),
        }
    }
}

pub open spec fn opt_str_json(o: Option<Seq<char>>) -> Option<Json> {
    match o {
        Some(s) => Some(Json::Str(s)),
        None => None,
    }
}

pub open spec fn opt_u64_json(o: Option<u64>) -> Option<Json> {
    match o {
        Some(u) => Some(Json::Number(Num::PosInt(u))),
        None => None,
    }
}

/// The JSON object of an evidence item; absent optional members are left
/// out.
pub open spec fn evidence_json(e: EvidenceModel) -> Json {
    Json::Object(
        obj_from(
            seq![("content_type"@, Json::Str(e.content_type)), ("payload"@, Json::Str(e.payload))]
                + opt_pair("description"@, opt_str_json(e.description)) + opt_pair(
                "hash"@,
                opt_str_json(e.hash),
            ) + opt_pair("size"@, opt_u64_json(e.size)),
        ),
    )
}

/// An evidence item read from JSON.
pub open spec fn evidence_from_json(j: Json) -> Result<EvidenceModel, Seq<char>> {
    match j {
        Json::Object(es) => match req_str(es, "content_type"@) {
            Err(e) => Err(e),
            Ok(content_type) => match req_str(es, "payload"@) {
                Err(e) => Err(e),
                Ok(payload) => match opt_str(es, "description"@) {
                    Err(e) => Err(e),
                    Ok(description) => match opt_str(es, "hash"@) {
                        Err(e) => Err(e),
                        Ok(hash) => match opt_u64(es, "size"@) {
                            Err(e) => Err(e),
                            Ok(size) => Ok(
                                EvidenceModel { content_type, payload, description, hash, size },
                            ),
                        },
                    },
                },
            },
        },
        other => Err(wrong_type_msg(other, "struct Evidence"@)),
    }
}

/// Insert `k: v` when `v` is present, tracking the pairs inserted so far.
pub(crate) fn put_opt(m: &mut JsonMap, k: &str, v: Option<JsonValue>, Ghost(pairs): Ghost<Seq<(Seq<char>, Json)>>)
    requires
        old(m)@ == obj_from(pairs),
    ensures
        final(m)@ == obj_from(
            pairs + opt_pair(
                k@,
                match v {
                    Some(x) => Some(x@),
                    None => None,
                },
            ),
        ),
{
    match v {
        Some(x) => {
            let ghost xv = x@;
            put(m, k, x);
            proof {
                lemma_insert_all_push(Seq::empty(), pairs, (k@, xv));
                assert(pairs + opt_pair(k@, Some(xv)) =~= pairs.push((k@, xv)));
            }
        },
        None => {
            assert(pairs + opt_pair(k@, None) =~= pairs);
        },
    }
}

pub(crate) fn opt_string_json(o: &Option<String>) -> (r: Option<JsonValue>)
    ensures
        match r {
            Some(x) => Some(x@),
            None => None,
        } == opt_str_json(opt_str_view(*o)),
{
    match o {
        Some(s) => Some(JsonValue::String(s.clone())),
        None => None,
    }
}

fn opt_u64_value(o: Option<u64>) -> (r: Option<JsonValue>)
    ensures
        match r {
            Some(x) => Some(x@),
            None => None,
        } == opt_u64_json(o),
{
    match o {
        Some(u) => Some(JsonValue::Number(JsonNumber::PosInt(u))),
        None => None,
    }
}

impl Evidence {
    /// The JSON object of the evidence item.
    pub fn to_json(&self) -> (r: JsonValue)
        ensures
            r@ == evidence_json(self@),
    {
        let mut m = JsonMap::new();
        let ghost p0 = seq![("content_type"@, Json::Str(self.content_type@))];
        let ghost p1 = p0.push(("payload"@, Json::Str(self.payload@)));
        put(&mut m, "content_type", JsonValue::String(self.content_type.clone()));
        proof {
            lemma_insert_all_push(Seq::empty(), Seq::empty(), p0[0]);
            assert(Seq::<(Seq<char>, Json)>::empty().push(p0[0]) =~= p0);
            assert(obj_insert_all(Seq::empty(), Seq::empty()) == Seq::<(Seq<char>, Json)>::empty());
        }
        put(&mut m, "payload", JsonValue::String(self.payload.clone()));
        proof {
            lemma_insert_all_push(Seq::empty(), p0, p1.last());
            assert(p0.push(p1.last()) =~= p1);
        }
        put_opt(&mut m, "description", opt_string_json(&self.description), Ghost(p1));
        let ghost p2 = p1 + opt_pair("description"@, opt_str_json(self@.description));
        put_opt(&mut m, "hash", opt_string_json(&self.hash), Ghost(p2));
        let ghost p3 = p2 + opt_pair("hash"@, opt_str_json(self@.hash));
        put_opt(&mut m, "size", opt_u64_value(self.size), Ghost(p3));
        assert(seq![("content_type"@, Json::Str(self.content_type@)), ("payload"@, Json::Str(self.payload@))] =~= p1);
        JsonValue::Object(m)
    }

    /// The evidence item a JSON value holds.
    pub fn from_json(v: &JsonValue) -> (r: Result<Evidence, String>)
        ensures
            match r {
                Ok(e) => evidence_from_json(v@) == Ok::<EvidenceModel, Seq<char>>(e@),
                Err(e) => evidence_from_json(v@) == Err::<EvidenceModel, Seq<char>>(e@),
            },
    {
        match v {
            JsonValue::Object(m) => {
                let content_type = read_req_str(m, "content_type")?;
                let payload = read_req_str(m, "payload")?;
                let description = read_opt_str(m, "description")?;
                let hash = read_opt_str(m, "hash")?;
                let size = read_opt_u64(m, "size")?;
                Ok(Evidence { content_type, payload, description, hash, size })
            },
            other => Err(wrong_type(other, "struct Evidence")),
        }
    }
}

// ---------------------------------------------------------------------------
// The report.
// ---------------------------------------------------------------------------

/// A XARF v4 report. Category-specific fields live in `extra`, an object
/// whose keys stay sorted.
#[derive(Debug)]
pub struct Report {
    pub xarf_version: String,
    pub report_id: String,
    pub timestamp: String,
    pub reporter: Contact,
    pub sender: Contact,
    pub source_identifier: String,
    pub category: Category,
    pub type_: String,
    pub source_port: Option<u16>,
    pub evidence_source: Option<String>,
    pub evidence: Option<Vec<Evidence>>,
    pub confidence: Option<JsonNumber>,
    pub tags: Option<Vec<String>>,
    pub description: Option<String>,
    pub legacy_version: Option<String>,
    pub internal: Option<JsonMap>,
    pub extra: JsonMap,
}

pub ghost struct ReportModel {
    pub xarf_version: Seq<char>,
    pub report_id: Seq<char>,
    pub timestamp: Seq<char>,
    pub reporter: ContactModel,
    pub sender: ContactModel,
    pub source_identifier: Seq<char>,
    pub category: CategoryModel,
    pub type_: Seq<char>,
    pub source_port: Option<u16>,
    pub evidence_source: Option<Seq<char>>,
    pub evidence: Option<Seq<EvidenceModel>>,
    pub confidence: Option<Num>,
    pub tags: Option<Seq<Seq<char>>>,
    pub description: Option<Seq<char>>,
    pub legacy_version: Option<Seq<char>>,
    pub internal: Option<Seq<(Seq<char>, Json)>>,
    pub extra: Seq<(Seq<char>, Json)>,
}

pub open spec fn evidence_list_view(v: Seq<Evidence>) -> Seq<EvidenceModel> {
    v.map_values(|e: Evidence| e@)
}

pub open spec fn strings_view(v: Seq<String>) -> Seq<Seq<char>> {
    v.map_values(|s: String| s@)
}

impl View for Report {
    type V = ReportModel;

    open spec fn view(&self) -> ReportModel {
        ReportModel {
            xarf_version: self.xarf_version@,
            report_id: self.report_id@,
            timestamp: self.timestamp@,
            reporter: self.reporter@,
            sender: self.sender@,
            source_identifier: self.source_identifier@,
            category: self.category@,
            type_: self.type_@,
            source_port: self.source_port,
            evidence_source: opt_str_view(self.evidence_source),
            evidence: match self.evidence {
                Some(v) => Some(evidence_list_view(v@)),
                None => None,
            },
            confidence: match self.confidence {
                Some(n) => Some(n@),
                None => None,
            },
            tags: match self.tags {
                Some(v) => Some(strings_view(v@)),
                None => None,
            },
            description: opt_str_view(self.description),
            legacy_version: opt_str_view(self.legacy_version),
            internal: match self.internal {
                Some(m) => Some(m@),
                None => None,
            },
            extra: self.extra@,
        }
    }
}

/// The members a report reads itself; every other member is an extra.
pub open spec fn is_report_field(k: Seq<char>) -> bool {
    ||| k == "xarf_version"@
    ||| k == "report_id"@
    ||| k == "timestamp"@
    ||| k == "reporter"@
    ||| k == "sender"@
    ||| k == "source_identifier"@
    ||| k == "category"@
    ||| k == "type"@
    ||| k == "source_port"@
    ||| k == "evidence_source"@
    ||| k == "evidence"@
    ||| k == "confidence"@
    ||| k == "tags"@
    ||| k == "description"@
    ||| k == "legacy_version"@
    ||| k == "_internal"@
}

/// Whether `k` is a member the report reads itself.
pub fn report_field(k: &str) -> (r: bool)
    ensures
        r == is_report_field(k@),
{
    str_eq(k, "xarf_version") || str_eq(k, "report_id") || str_eq(k, "timestamp") || str_eq(
        k,
        "reporter",
    ) || str_eq(k, "sender") || str_eq(k, "source_identifier") || str_eq(k, "category")
        || str_eq(k, "type") || str_eq(k, "source_port") || str_eq(k, "evidence_source")
        || str_eq(k, "evidence") || str_eq(k, "confidence") || str_eq(k, "tags") || str_eq(
        k,
        "description",
    ) || str_eq(k, "legacy_version") || str_eq(k, "_internal")
}

/// The entries of `es` that are not report members, in order.
pub open spec fn non_report_entries(es: Seq<(Seq<char>, Json)>) -> Seq<(Seq<char>, Json)>
    decreases es.len(),
{
    if es.len() == 0 {
        es
    } else if is_report_field(es.last().0) {
        non_report_entries(es.drop_last())
    } else {
        non_report_entries(es.drop_last()).push(es.last())
    }
}

/// The evidence items of a JSON array: the first failing element decides
/// the error.
pub open spec fn evidence_items(a: Seq<Json>) -> Result<Seq<EvidenceModel>, Seq<char>>
    decreases a.len(),
{
    if a.len() == 0 {
        Ok(Seq::empty())
    } else {
        match evidence_items(a.drop_last()) {
            Err(e) => Err(e),
            Ok(v) => match evidence_from_json(a.last()) {
                Err(e) => Err(e),
                Ok(x) => Ok(v.push(x)),
            },
        }
    }
}

/// An optional member holding an array of evidence items.
pub open spec fn opt_evidence(es: Seq<(Seq<char>, Json)>, k: Seq<char>) -> Result<
    Option<Seq<EvidenceModel>>,
    Seq<char>,
> {
    match obj_get(es, k) {
        None => Ok(None),
        Some(Json::Null) => Ok(None),
        Some(Json::Array(a)) => match evidence_items(a) {
            Ok(v) => Ok(Some(v)),
            Err(e) => Err(e),
        },
        Some(other) => Err(wrong_type_msg(other, "a sequence"@)),
    }
}

/// A required contact member.
pub open spec fn req_contact(es: Seq<(Seq<char>, Json)>, k: Seq<char>) -> Result<
    ContactModel,
    Seq<char>,
> {
    match obj_get(es, k) {
        None => Err(missing_field_msg(k)),
        Some(j) => contact_from_json(j),
    }
}

/// A report read from a JSON object: the required members, the optional
/// ones (absent or `null` read as `None`), and every other member as an
/// extra. The first member (in the order of the report's fields) that is
/// missing or of the wrong shape decides the error.
pub open spec fn report_from_json(j: Json) -> Result<ReportModel, Seq<char>> {
    match j {
        Json::Object(es) => match req_str(es, "xarf_version"@) {
            Err(e) => Err(e),
            Ok(xarf_version) => match req_str(es, "report_id"@) {
                Err(e) => Err(e),
                Ok(report_id) => match req_str(es, "timestamp"@) {
                    Err(e) => Err(e),
                    Ok(timestamp) => match req_contact(es, "reporter"@) {
                        Err(e) => Err(e),
                        Ok(reporter) => match req_contact(es, "sender"@) {
                            Err(e) => Err(e),
                            Ok(sender) => match req_str(es, "source_identifier"@) {
                                Err(e) => Err(e),
                                Ok(source_identifier) => match req_str(es, "category"@) {
                                    Err(e) => Err(e),
                                    Ok(category) => match req_str(es, "type"@) {
                                        Err(e) => Err(e),
                                        Ok(type_) => match opt_u16(es, "source_port"@) {
                                            Err(e) => Err(e),
                                            Ok(source_port) => match opt_str(
                                                es,
                                                "evidence_source"@,
                                            ) {
                                                Err(e) => Err(e),
                                                Ok(evidence_source) => match opt_evidence(
                                                    es,
                                                    "evidence"@,
                                                ) {
                                                    Err(e) => Err(e),
                                                    Ok(evidence) => match opt_num(
                                                        es,
                                                        "confidence"@,
                                                    ) {
                                                        Err(e) => Err(e),
                                                        Ok(confidence) => match opt_strings(
                                                            es,
                                                            "tags"@,
                                                        ) {
                                                            Err(e) => Err(e),
                                                            Ok(tags) => match opt_str(
                                                                es,
                                                                "description"@,
                                                            ) {
                                                                Err(e) => Err(e),
                                                                Ok(description) => match opt_str(
                                                                    es,
                                                                    "legacy_version"@,
                                                                ) {
                                                                    Err(e) => Err(e),
                                                                    Ok(legacy_version) => match opt_obj(
                                                                        es,
                                                                        "_internal"@,
                                                                    ) {
                                                                        Err(e) => Err(e),
                                                                        Ok(internal) => Ok(
                                                                            ReportModel {
                                                                                xarf_version,
                                                                                report_id,
                                                                                timestamp,
                                                                                reporter,
                                                                                sender,
                                                                                source_identifier,
                                                                                category: category_of(
                                                                                    category,
                                                                                ),
                                                                                type_,
                                                                                source_port,
                                                                                evidence_source,
                                                                                evidence,
                                                                                confidence,
                                                                                tags,
                                                                                description,
                                                                                legacy_version,
                                                                                internal,
                                                                                extra: obj_from(
                                                                                    non_report_entries(
                                                                                        es,
                                                                                    ),
                                                                                ),
                                                                            },
                                                                        ),
                                                                    },
                                                                },
                                                            },
                                                        },
                                                    },
                                                },
                                            },
                                        },
                                    },
                                },
                            },
                        },
                    },
                },
            },
        },
        other => Err(wrong_type_msg(other, "struct Report"@)),
    }
}

pub open spec fn opt_num_json(o: Option<Num>) -> Option<Json> {
    match o {
        Some(n) => Some(Json::Number(n)),
        None => None,
    }
}

pub open spec fn opt_port_json(o: Option<u16>) -> Option<Json> {
    match o {
        Some(p) => Some(Json::Number(Num::PosInt(p as u64))),
        None => None,
    }
}

pub open spec fn opt_evidence_json(o: Option<Seq<EvidenceModel>>) -> Option<Json> {
    match o {
        Some(v) => Some(Json::Array(v.map_values(|e: EvidenceModel| evidence_json(e)))),
        None => None,
    }
}

pub open spec fn opt_tags_json(o: Option<Seq<Seq<char>>>) -> Option<Json> {
    match o {
        Some(v) => Some(Json::Array(v.map_values(|t: Seq<char>| Json::Str(t)))),
        None => None,
    }
}

pub open spec fn opt_obj_json(o: Option<Seq<(Seq<char>, Json)>>) -> Option<Json> {
    match o {
        Some(m) => Some(Json::Object(m)),
        None => None,
    }
}

/// The members of a report's JSON object, in the order they are written:
/// the core fields, the present optional ones, then the extras (which win
/// over a core field of the same name).
pub open spec fn report_pairs(r: ReportModel) -> Seq<(Seq<char>, Json)> {
    seq![
        ("xarf_version"@, Json::Str(r.xarf_version)),
        ("report_id"@, Json::Str(r.report_id)),
        ("timestamp"@, Json::Str(r.timestamp)),
        ("reporter"@, contact_json(r.reporter)),
        ("sender"@, contact_json(r.sender)),
        ("source_identifier"@, Json::Str(r.source_identifier)),
        ("category"@, Json::Str(category_name(r.category))),
        ("type"@, Json::Str(r.type_)),
    ] + opt_pair("source_port"@, opt_port_json(r.source_port)) + opt_pair(
        "evidence_source"@,
        opt_str_json(r.evidence_source),
    ) + opt_pair("evidence"@, opt_evidence_json(r.evidence)) + opt_pair(
        "confidence"@,
        opt_num_json(r.confidence),
    ) + opt_pair("tags"@, opt_tags_json(r.tags)) + opt_pair(
        "description"@,
        opt_str_json(r.description),
    ) + opt_pair("legacy_version"@, opt_str_json(r.legacy_version)) + opt_pair(
        "_internal"@,
        opt_obj_json(r.internal),
    ) + r.extra
}

/// The JSON object of a report.
pub open spec fn report_json(r: ReportModel) -> Json {
    Json::Object(obj_from(report_pairs(r)))
}

/// Insert `k: v`, tracking the pairs inserted so far.
pub(crate) fn put_tracked(m: &mut JsonMap, k: &str, v: JsonValue, Ghost(pairs): Ghost<Seq<(Seq<char>, Json)>>)
    requires
        old(m)@ == obj_from(pairs),
    ensures
        final(m)@ == obj_from(pairs.push((k@, v@))),
{
    let ghost vv = v@;
    put(m, k, v);
    proof {
        lemma_insert_all_push(Seq::empty(), pairs, (k@, vv));
    }
}

fn read_opt_evidence(m: &JsonMap, k: &str) -> (r: Result<Option<Vec<Evidence>>, String>)
    ensures
        match r {
            Ok(Some(v)) => opt_evidence(m@, k@) == Ok::<Option<Seq<EvidenceModel>>, Seq<char>>(
                Some(evidence_list_view(v@)),
            ),
            Ok(None) => opt_evidence(m@, k@) == Ok::<Option<Seq<EvidenceModel>>, Seq<char>>(None),
            Err(e) => opt_evidence(m@, k@) == Err::<Option<Seq<EvidenceModel>>, Seq<char>>(e@),
        },
{
    match m.get(k) {
        None => Ok(None),
        Some(JsonValue::Null) => Ok(None),
        Some(JsonValue::Array(a)) => {
            proof {
                lemma_view_seq(a@);
            }
            let ghost av = json_view_seq(a@);
            let n = a.len();
            let mut out: Vec<Evidence> = Vec::new();
            let mut i: usize = 0;
            assert(av.take(0) =~= Seq::<Json>::empty());
            assert(evidence_list_view(out@) =~= Seq::<EvidenceModel>::empty());
            while i < n
                invariant
                    n == a@.len(),
                    av == json_view_seq(a@),
                    obj_get(m@, k@) == Some(Json::Array(av)),
                    av.len() == n,
                    forall|j: int| 0 <= j < n ==> #[trigger] av[j] == json_view(a@[j]),
                    i <= n,
                    evidence_items(av.take(i as int)) == Ok::<Seq<EvidenceModel>, Seq<char>>(
                        evidence_list_view(out@),
                    ),
                decreases n - i,
            {
                assert(av.take(i + 1).drop_last() =~= av.take(i as int));
                assert(av.take(i + 1).last() == av[i as int]);
                let ghost prev = evidence_list_view(out@);
                assert(av[i as int] == json_view(a@[i as int]));
                match Evidence::from_json(&a[i]) {
                    Ok(e) => {
                        let ghost ev = e@;
                        out.push(e);
                        assert(evidence_list_view(out@) =~= prev.push(ev));
                    },
                    Err(e) => {
                        proof {
                            lemma_evidence_items_prefix_err(av, i + 1);
                        }
                        return Err(e);
                    },
                }
                i = i + 1;
            }
            assert(av.take(n as int) =~= av);
            Ok(Some(out))
        },
        Some(other) => Err(wrong_type(other, "a sequence")),
    }
}

/// An error in a prefix is the error of the whole array.
pub proof fn lemma_evidence_items_prefix_err(a: Seq<Json>, j: int)
    requires
        0 <= j <= a.len(),
        evidence_items(a.take(j)) is Err,
    ensures
        evidence_items(a) == evidence_items(a.take(j)),
    decreases a.len() - j,
{
    if j < a.len() {
        assert(a.take(j + 1).drop_last() =~= a.take(j));
        lemma_evidence_items_prefix_err(a, j + 1);
    } else {
        assert(a.take(j) =~= a);
    }
}

fn read_req_contact(m: &JsonMap, k: &str) -> (r: Result<Contact, String>)
    ensures
        match r {
            Ok(c) => req_contact(m@, k@) == Ok::<ContactModel, Seq<char>>(c@),
            Err(e) => req_contact(m@, k@) == Err::<ContactModel, Seq<char>>(e@),
        },
{
    match m.get(k) {
        None => Err(missing_field(k)),
        Some(j) => Contact::from_json(j),
    }
}

fn clone_evidence_list(v: &Vec<Evidence>) -> (r: Vec<Evidence>)
    ensures
        evidence_list_view(r@) == evidence_list_view(v@),
{
    let n = v.len();
    let mut out: Vec<Evidence> = Vec::new();
    let mut i: usize = 0;
    while i < n
        invariant
            n == v@.len(),
            i <= n,
            out@.len() == i,
            forall|j: int| 0 <= j < i ==> #[trigger] out@[j]@ == v@[j]@,
        decreases n - i,
    {
        out.push(v[i].clone());
        i = i + 1;
    }
    assert(evidence_list_view(out@) =~= evidence_list_view(v@));
    out
}

pub(crate) fn clone_strings(v: &Vec<String>) -> (r: Vec<String>)
    ensures
        strings_view(r@) == strings_view(v@),
{
    let n = v.len();
    let mut out: Vec<String> = Vec::new();
    let mut i: usize = 0;
    while i < n
        invariant
            n == v@.len(),
            i <= n,
            out@.len() == i,
            forall|j: int| 0 <= j < i ==> #[trigger] out@[j]@ == v@[j]@,
        decreases n - i,
    {
        out.push(v[i].clone());
        i = i + 1;
    }
    assert(strings_view(out@) =~= strings_view(v@));
    out
}

pub(crate) fn evidence_array(v: &Vec<Evidence>) -> (r: JsonValue)
    ensures
        r@ == Json::Array(evidence_list_view(v@).map_values(|e: EvidenceModel| evidence_json(e))),
{
    let n = v.len();
    let mut out: Vec<JsonValue> = Vec::new();
    let mut i: usize = 0;
    while i < n
        invariant
            n == v@.len(),
            i <= n,
            out@.len() == i,
            forall|j: int| 0 <= j < i ==> #[trigger] json_view(out@[j]) == evidence_json(v@[j]@),
        decreases n - i,
    {
        out.push(v[i].to_json());
        i = i + 1;
    }
    proof {
        lemma_view_seq(out@);
    }
    assert(json_view_seq(out@) =~= evidence_list_view(v@).map_values(
        |e: EvidenceModel| evidence_json(e),
    ));
    JsonValue::Array(out)
}

/// A JSON array of strings.
pub fn string_array(v: &Vec<String>) -> (r: JsonValue)
    ensures
        r@ == Json::Array(strings_view(v@).map_values(|t: Seq<char>| Json::Str(t))),
{
    let n = v.len();
    let mut out: Vec<JsonValue> = Vec::new();
    let mut i: usize = 0;
    while i < n
        invariant
            n == v@.len(),
            i <= n,
            out@.len() == i,
            forall|j: int| 0 <= j < i ==> #[trigger] json_view(out@[j]) == Json::Str(v@[j]@),
        decreases n - i,
    {
        out.push(JsonValue::String(v[i].clone()));
        i = i + 1;
    }
    proof {
        lemma_view_seq(out@);
    }
    assert(json_view_seq(out@) =~= strings_view(v@).map_values(|t: Seq<char>| Json::Str(t)));
    JsonValue::Array(out)
}

impl Report {
    /// Remove the `_internal` block and return it.
    pub fn strip_internal(&mut self) -> (r: Option<JsonMap>)
        ensures
            match r {
                Some(m) => old(self)@.internal == Some(m@),
                None => old(self)@.internal is None,
            },
            final(self)@ == (ReportModel { internal: None, ..old(self)@ }),
    {
        let mut out: Option<JsonMap> = None;
        std::mem::swap(&mut out, &mut self.internal);
        out
    }

    /// The extra member `key`.
    pub fn extra(&self, key: &str) -> (r: Option<&JsonValue>)
        ensures
            match r {
                Some(v) => obj_get(self@.extra, key@) == Some(v@),
                None => obj_get(self@.extra, key@) is None,
            },
    {
        self.extra.get(key)
    }

    /// Insert or replace an extra member. Returns the previous value.
    pub fn set_extra(&mut self, key: String, value: JsonValue) -> (r: Option<JsonValue>)
        ensures
            final(self)@ == (ReportModel {
                extra: obj_insert(old(self)@.extra, key@, value@),
                ..old(self)@
            }),
            match r {
                Some(p) => obj_get(old(self)@.extra, key@) == Some(p@),
                None => obj_get(old(self)@.extra, key@) is None,
            },
            keys_sorted(old(self)@.extra),
            keys_sorted(final(self)@.extra),
    {
        let _ = self.extra.entries();
        let r = self.extra.insert(key, value);
        let _ = self.extra.entries();
        r
    }

    /// The report as a JSON object.
    #[verifier::spinoff_prover]
    #[verifier::rlimit(60)]
    pub fn to_json_value(&self) -> (r: JsonValue)
        ensures
            r@ == report_json(self@),
    {
        let mut m = JsonMap::new();
        let ghost r = self@;
        let ghost p0 = Seq::<(Seq<char>, Json)>::empty();
        put_tracked(&mut m, "xarf_version", JsonValue::String(self.xarf_version.clone()), Ghost(p0));
        let ghost p1 = p0.push(("xarf_version"@, Json::Str(r.xarf_version)));
        put_tracked(&mut m, "report_id", JsonValue::String(self.report_id.clone()), Ghost(p1));
        let ghost p2 = p1.push(("report_id"@, Json::Str(r.report_id)));
        put_tracked(&mut m, "timestamp", JsonValue::String(self.timestamp.clone()), Ghost(p2));
        let ghost p3 = p2.push(("timestamp"@, Json::Str(r.timestamp)));
        put_tracked(&mut m, "reporter", self.reporter.to_json(), Ghost(p3));
        let ghost p4 = p3.push(("reporter"@, contact_json(r.reporter)));
        put_tracked(&mut m, "sender", self.sender.to_json(), Ghost(p4));
        let ghost p5 = p4.push(("sender"@, contact_json(r.sender)));
        put_tracked(
            &mut m,
            "source_identifier",
            JsonValue::String(self.source_identifier.clone()),
            Ghost(p5),
        );
        let ghost p6 = p5.push(("source_identifier"@, Json::Str(r.source_identifier)));
        put_tracked(&mut m, "category", JsonValue::String(owned(self.category.as_str())), Ghost(p6));
        let ghost p7 = p6.push(("category"@, Json::Str(category_name(r.category))));
        put_tracked(&mut m, "type", JsonValue::String(self.type_.clone()), Ghost(p7));
        let ghost p8 = p7.push(("type"@, Json::Str(r.type_)));
        let port = match self.source_port {
            Some(p) => Some(JsonValue::Number(JsonNumber::PosInt(p as u64))),
            None => None,
        };
        put_opt(&mut m, "source_port", port, Ghost(p8));
        let ghost p9 = p8 + opt_pair("source_port"@, opt_port_json(r.source_port));
        put_opt(&mut m, "evidence_source", opt_string_json(&self.evidence_source), Ghost(p9));
        let ghost p10 = p9 + opt_pair("evidence_source"@, opt_str_json(r.evidence_source));
        let ev = match &self.evidence {
            Some(v) => Some(evidence_array(v)),
            None => None,
        };
        put_opt(&mut m, "evidence", ev, Ghost(p10));
        let ghost p11 = p10 + opt_pair("evidence"@, opt_evidence_json(r.evidence));
        let conf = match &self.confidence {
            Some(n) => Some(JsonValue::Number(n.clone())),
            None => None,
        };
        put_opt(&mut m, "confidence", conf, Ghost(p11));
        let ghost p12 = p11 + opt_pair("confidence"@, opt_num_json(r.confidence));
        let tags = match &self.tags {
            Some(v) => Some(string_array(v)),
            None => None,
        };
        put_opt(&mut m, "tags", tags, Ghost(p12));
        let ghost p13 = p12 + opt_pair("tags"@, opt_tags_json(r.tags));
        put_opt(&mut m, "description", opt_string_json(&self.description), Ghost(p13));
        let ghost p14 = p13 + opt_pair("description"@, opt_str_json(r.description));
        put_opt(&mut m, "legacy_version", opt_string_json(&self.legacy_version), Ghost(p14));
        let ghost p15 = p14 + opt_pair("legacy_version"@, opt_str_json(r.legacy_version));
        let internal = match &self.internal {
            Some(i) => Some(JsonValue::Object(i.clone())),
            None => None,
        };
        put_opt(&mut m, "_internal", internal, Ghost(p15));
        let ghost p16 = p15 + opt_pair("_internal"@, opt_obj_json(r.internal));
        let es = self.extra.entries();
        proof {
            lemma_entries_view(es@);
        }
        let n = es.len();
        let mut i: usize = 0;
        assert(p16 + r.extra.take(0) =~= p16);
        while i < n
            invariant
                n == es@.len(),
                r.extra == entries_view(es@),
                r.extra.len() == n,
                forall|j: int|
                    0 <= j < n ==> #[trigger] r.extra[j] == (es@[j].0@, json_view(es@[j].1)),
                i <= n,
                m@ == obj_from(p16 + r.extra.take(i as int)),
            decreases n - i,
        {
            let ghost before = p16 + r.extra.take(i as int);
            put_tracked(&mut m, es[i].0.as_str(), es[i].1.clone(), Ghost(before));
            assert(before.push(r.extra[i as int]) =~= p16 + r.extra.take(i + 1));
            i = i + 1;
        }
        assert(r.extra.take(n as int) =~= r.extra);
        assert(p16 + r.extra =~= report_pairs(r));
        JsonValue::Object(m)
    }

    /// The report a JSON value holds.
    pub fn from_json(v: &JsonValue) -> (r: Result<Report, String>)
        ensures
            match r {
                Ok(rep) => report_from_json(v@) == Ok::<ReportModel, Seq<char>>(rep@),
                Err(e) => report_from_json(v@) == Err::<ReportModel, Seq<char>>(e@),
            },
    {
        match v {
            JsonValue::Object(m) => {
                let xarf_version = read_req_str(m, "xarf_version")?;
                let report_id = read_req_str(m, "report_id")?;
                let timestamp = read_req_str(m, "timestamp")?;
                let reporter = read_req_contact(m, "reporter")?;
                let sender = read_req_contact(m, "sender")?;
                let source_identifier = read_req_str(m, "source_identifier")?;
                let category = read_req_str(m, "category")?;
                let type_ = read_req_str(m, "type")?;
                let source_port = read_opt_u16(m, "source_port")?;
                let evidence_source = read_opt_str(m, "evidence_source")?;
                let evidence = read_opt_evidence(m, "evidence")?;
                let confidence = read_opt_num(m, "confidence")?;
                let tags = read_opt_strings(m, "tags")?;
                let description = read_opt_str(m, "description")?;
                let legacy_version = read_opt_str(m, "legacy_version")?;
                let internal = read_opt_obj(m, "_internal")?;
                let extra = non_report_members(m);
                Ok(
                    Report {
                        xarf_version,
                        report_id,
                        timestamp,
                        reporter,
                        sender,
                        source_identifier,
                        category: Category::from_str_value(category.as_str()),
                        type_,
                        source_port,
                        evidence_source,
                        evidence,
                        confidence,
                        tags,
                        description,
                        legacy_version,
                        internal,
                        extra,
                    },
                )
            },
            other => Err(wrong_type(other, "struct Report")),
        }
    }
}

impl Clone for Report {
    fn clone(&self) -> (r: Self)
        ensures
            r@ == self@,
    {
        Report {
            xarf_version: self.xarf_version.clone(),
            report_id: self.report_id.clone(),
            timestamp: self.timestamp.clone(),
            reporter: self.reporter.clone(),
            sender: self.sender.clone(),
            source_identifier: self.source_identifier.clone(),
            category: self.category.clone(),
            type_: self.type_.clone(),
            source_port: self.source_port,
            evidence_source: clone_opt_string(&self.evidence_source),
            evidence: match &self.evidence {
                Some(v) => Some(clone_evidence_list(v)),
                None => None,
            },
            confidence: match &self.confidence {
                Some(n) => Some(n.clone()),
                None => None,
            },
            tags: match &self.tags {
                Some(v) => Some(clone_strings(v)),
                None => None,
            },
            description: clone_opt_string(&self.description),
            legacy_version: clone_opt_string(&self.legacy_version),
            internal: match &self.internal {
                Some(m) => Some(m.clone()),
                None => None,
            },
            extra: self.extra.clone(),
        }
    }
}

/// The members of `m` that are not report fields.
fn non_report_members(m: &JsonMap) -> (r: JsonMap)
    ensures
        r@ == obj_from(non_report_entries(m@)),
{
    let es = m.entries();
    proof {
        lemma_entries_view(es@);
    }
    let ghost mv = m@;
    let n = es.len();
    let mut out = JsonMap::new();
    let mut i: usize = 0;
    assert(mv.take(0) =~= Seq::<(Seq<char>, Json)>::empty());
    while i < n
        invariant
            n == es@.len(),
            mv == entries_view(es@),
            mv.len() == n,
            forall|j: int| 0 <= j < n ==> #[trigger] mv[j] == (es@[j].0@, json_view(es@[j].1)),
            i <= n,
            out@ == obj_from(non_report_entries(mv.take(i as int))),
        decreases n - i,
    {
        let ghost before = non_report_entries(mv.take(i as int));
        assert(mv.take(i + 1).drop_last() =~= mv.take(i as int));
        assert(mv.take(i + 1).last() == mv[i as int]);
        if !report_field(es[i].0.as_str()) {
            put_tracked(&mut out, es[i].0.as_str(), es[i].1.clone(), Ghost(before));
        }
        i = i + 1;
    }
    assert(mv.take(n as int) =~= mv);
    out
}

} // verus!

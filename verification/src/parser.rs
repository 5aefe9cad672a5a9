//! The per-line transformation: tokenize the raw line, parse the JSON
//! body through serde_json, filter semantically-null entries, validate
//! the action name, flatten the body and assemble the tagged record.

use vstd::prelude::*;
use crate::action_names::{classify, is_allowed, Enrichable, EnrichableView, LineEntry};
use crate::errors::{ErrView, ProcessingError};
use crate::flatten::{flat_of, FlatRecord};
use crate::json::{assoc_get, filter_present, Json, JsonValue};
use crate::numfmt::int_text;
use crate::tokenize::{eu_text, postal_spec, trimmed_fields, LogEntry};

verus! {

#[verifier::external_type_specification]
#[verifier::external_body]
pub struct ExSerdeValue(serde_json::Value);

/// The JSON tree a text parses to, when it is valid JSON; parsing is a
/// function of the text alone.
pub uninterp spec fn json_of(s: Seq<char>) -> Option<Json>;

/// The tree a `serde_json::Value` holds, as this library models it.
pub uninterp spec fn tree_of(v: serde_json::Value) -> Json;

/// Relies on serde_json::from_str: whether a text parses as JSON, and
/// to what value, depends on the text alone.
#[verifier::external_body]
fn parse_json_text(s: &str) -> (r: Option<serde_json::Value>)
    ensures
        r is Some <==> json_of(s@) is Some,
        r matches Some(v) ==> json_of(s@) == Some(tree_of(v)),
{
    serde_json::from_str::<serde_json::Value>(s).ok()
}

/// Relies on serde_json::Value's six variants: each is mirrored, one
/// for one, into the library's tree; a number becomes its serde_json
/// decimal text.
#[verifier::external_body]
fn value_to_json(v: serde_json::Value) -> (r: JsonValue)
    ensures
        r@ == tree_of(v),
{
    match v {
        serde_json::Value::Null => JsonValue::Null,
        serde_json::Value::Bool(b) => JsonValue::Bool(b),
        serde_json::Value::Number(n) => JsonValue::Num(n.to_string()),
        serde_json::Value::String(s) => JsonValue::Str(s),
        serde_json::Value::Array(a) => JsonValue::Arr(
            a.into_iter().map(value_to_json).collect(),
        ),
        serde_json::Value::Object(m) => JsonValue::Obj(
            m.into_iter().map(|p: (String, serde_json::Value)| (p.0, value_to_json(p.1))).collect(),
        ),
    }
}

/// The line metadata merged over the flattened body: what the record
/// assembler adds for the given trimmed fields.
pub open spec fn geo_merged(
    m: Map<Seq<char>, Json>,
    fields: Seq<Seq<char>>,
    name: Seq<char>,
    batch_id: int,
) -> Map<Seq<char>, Json> {
    m.insert("event_date"@, Json::Str(fields[0])).insert("source_ip"@, Json::Str(fields[1]))
        .insert("country_code"@, Json::Str(fields[2])).insert(
        "eu"@,
        Json::Str(eu_text(fields[3])),
    ).insert("subdivision"@, Json::Str(fields[4])).insert(
        "postal_code"@,
        match postal_spec(fields[5]) {
            Some(p) => Json::Str(p),
            None => Json::Null,
        },
    ).insert("isp"@, Json::Str(fields[6])).insert("raw_user_agent"@, Json::Str(fields[7])).insert(
        "action_name"@,
        Json::Str(name),
    ).insert("request_uri"@, Json::Str(fields[9])).insert(
        "batch_id"@,
        Json::Num(int_text(batch_id)),
    )
}

/// What one raw line becomes: the record variant named by its
/// `action_name`, or the error that applies, in the order the engine
/// checks them.
pub open spec fn parse_result(batch_id: int, line: Seq<char>) -> EnrichableView {
    if line.len() == 0 {
        EnrichableView::Error(ErrView::EmptyLine)
    } else {
        let fields = trimmed_fields(line);
        if fields.len() != 10 {
            EnrichableView::Error(ErrView::WrongFieldCount)
        } else if fields[8].len() == 0 || fields[7].len() == 0 || !crate::chars::contains_seq(
            fields[8],
            "action_group_id"@,
        ) {
            EnrichableView::Error(ErrView::EmptyBody)
        } else {
            match json_of(fields[8]) {
                Option::None => EnrichableView::Error(ErrView::MalformedBody),
                Option::Some(j) => match j {
                    Json::Obj(entries) => {
                        let filtered = filter_present(entries);
                        match assoc_get(filtered, "action_name"@) {
                            Option::Some(Json::Str(name)) => if is_allowed(name) {
                                classify(
                                    name,
                                    geo_merged(
                                        flat_of(Seq::empty(), filtered),
                                        fields,
                                        name,
                                        batch_id,
                                    ),
                                )
                            } else {
                                EnrichableView::Error(ErrView::UnrecognizedActionName(name))
                            },
                            _ => EnrichableView::Error(ErrView::MissingActionName),
                        }
                    },
                    _ => EnrichableView::Error(ErrView::MalformedBody),
                },
            }
        }
    }
}

/// Transforms one raw line into a tagged record or a per-line error.
pub fn parse(batch_id: i32, line: String) -> (r: Enrichable)
    ensures
        r@ == parse_result(batch_id as int, line@),
        crate::action_names::wf_payload(r),
{
    let cs = crate::chars::str_to_chars(line.as_str());
    if cs.len() == 0 {
        return Enrichable::Error(ProcessingError::EmptyLine);
    }
    let fields = crate::tokenize::split_and_trim(cs.as_slice());
    if fields.len() != 10 {
        return Enrichable::Error(ProcessingError::WrongFieldCount);
    }
    let marker = crate::chars::str_to_chars("action_group_id");
    let body_chars = crate::chars::str_to_chars(fields[8].as_str());
    if fields[8].as_str().is_empty() || fields[7].as_str().is_empty()
        || !crate::chars::chars_contain(body_chars.as_slice(), marker.as_slice()) {
        return Enrichable::Error(ProcessingError::EmptyBody);
    }
    let parsed = match parse_json_text(fields[8].as_str()) {
        Option::Some(v) => value_to_json(v),
        Option::None => {
            return Enrichable::Error(ProcessingError::MalformedBody);
        },
    };
    let entries = match parsed {
        JsonValue::Obj(entries) => entries,
        _ => {
            return Enrichable::Error(ProcessingError::MalformedBody);
        },
    };
    let filtered = crate::json::filter_object(&entries);
    let action_name: String = match crate::json::entries_get(&filtered, "action_name") {
        Option::Some(v) => match v {
            JsonValue::Str(s) => {
                if crate::action_names::action_allowed(s.as_str()) {
                    s.clone()
                } else {
                    return Enrichable::Error(ProcessingError::UnrecognizedActionName(s.clone()));
                }
            },
            _ => {
                return Enrichable::Error(ProcessingError::MissingActionName);
            },
        },
        Option::None => {
            return Enrichable::Error(ProcessingError::MissingActionName);
        },
    };
    let flat: FlatRecord = crate::flatten::flatten("", &filtered);
    let log_entry = LogEntry::new(
        fields[0].as_str(),
        fields[1].as_str(),
        fields[2].as_str(),
        fields[3].as_str(),
        fields[4].as_str(),
        fields[5].as_str(),
        fields[6].as_str(),
        fields[7].as_str(),
        fields[8].as_str(),
        fields[9].as_str(),
    );
    let line_entry = LineEntry {
        event_date: log_entry.date,
        source_ip: log_entry.ip,
        country_code: log_entry.country,
        eu: log_entry.eu,
        subdivision: log_entry.subdivision,
        postal_code: log_entry.postal_code,
        isp: log_entry.isp,
        raw_user_agent: log_entry.user_agent,
        action_name,
        request_body: flat,
        request_uri: log_entry.request_uri,
        batch_id,
    };
    proof {
        assert(Seq::<char>::empty() =~= crate::flatten::spec_prefix(""@)) by {
            reveal_strlit("");
        }
    }
    line_entry.into_request_body_map()
}

/// Law: an empty line fails with the empty-line error, whatever the
/// batch identifier.
pub proof fn lemma_empty_line(batch_id: int, line: Seq<char>)
    requires
        line.len() == 0,
    ensures
        parse_result(batch_id, line) == EnrichableView::Error(ErrView::EmptyLine),
{
}

/// Law: a non-empty line whose tab split does not yield exactly ten
/// fields fails with the field-count error.
pub proof fn lemma_wrong_field_count(batch_id: int, line: Seq<char>)
    requires
        line.len() > 0,
        trimmed_fields(line).len() != 10,
    ensures
        parse_result(batch_id, line) == EnrichableView::Error(ErrView::WrongFieldCount),
{
}

/// Law: when the body text of a ten-field line does not parse as JSON,
/// or parses to anything but an object, the line fails as malformed.
pub proof fn lemma_malformed_body(batch_id: int, line: Seq<char>)
    requires
        line.len() > 0,
        trimmed_fields(line).len() == 10,
        trimmed_fields(line)[8].len() > 0,
        trimmed_fields(line)[7].len() > 0,
        crate::chars::contains_seq(trimmed_fields(line)[8], "action_group_id"@),
        match json_of(trimmed_fields(line)[8]) {
            Option::None => true,
            Option::Some(j) => !(j is Obj),
        },
    ensures
        parse_result(batch_id, line) == EnrichableView::Error(ErrView::MalformedBody),
{
}

/// Law: a body object without a string `action_name` among its present
/// entries fails with the missing-name error.
pub proof fn lemma_missing_action_name(
    batch_id: int,
    line: Seq<char>,
    entries: Seq<(Seq<char>, Json)>,
)
    requires
        line.len() > 0,
        trimmed_fields(line).len() == 10,
        trimmed_fields(line)[8].len() > 0,
        trimmed_fields(line)[7].len() > 0,
        crate::chars::contains_seq(trimmed_fields(line)[8], "action_group_id"@),
        json_of(trimmed_fields(line)[8]) == Some(Json::Obj(entries)),
        !(assoc_get(filter_present(entries), "action_name"@) matches Some(Json::Str(_))),
    ensures
        parse_result(batch_id, line) == EnrichableView::Error(ErrView::MissingActionName),
{
}

/// Law: a string `action_name` outside the allow-list fails with the
/// unrecognized-name error carrying that very name.
pub proof fn lemma_unrecognized_action_name(
    batch_id: int,
    line: Seq<char>,
    entries: Seq<(Seq<char>, Json)>,
    name: Seq<char>,
)
    requires
        line.len() > 0,
        trimmed_fields(line).len() == 10,
        trimmed_fields(line)[8].len() > 0,
        trimmed_fields(line)[7].len() > 0,
        crate::chars::contains_seq(trimmed_fields(line)[8], "action_group_id"@),
        json_of(trimmed_fields(line)[8]) == Some(Json::Obj(entries)),
        assoc_get(filter_present(entries), "action_name"@) == Some(Json::Str(name)),
        !is_allowed(name),
    ensures
        parse_result(batch_id, line) == EnrichableView::Error(
            ErrView::UnrecognizedActionName(name),
        ),
{
}

/// Law: a well-formed line is classified by its action name. With ten
/// fields, a non-empty body and user agent, the marker present, an
/// object body and an allowed string `action_name`, the result is the
/// record variant that name selects, never an error.
pub proof fn lemma_valid_line_classified(
    batch_id: int,
    line: Seq<char>,
    entries: Seq<(Seq<char>, Json)>,
    name: Seq<char>,
)
    requires
        line.len() > 0,
        trimmed_fields(line).len() == 10,
        trimmed_fields(line)[8].len() > 0,
        trimmed_fields(line)[7].len() > 0,
        crate::chars::contains_seq(trimmed_fields(line)[8], "action_group_id"@),
        json_of(trimmed_fields(line)[8]) == Some(Json::Obj(entries)),
        assoc_get(filter_present(entries), "action_name"@) == Some(Json::Str(name)),
        is_allowed(name),
    ensures
        parse_result(batch_id, line) == classify(
            name,
            geo_merged(
                flat_of(Seq::empty(), filter_present(entries)),
                trimmed_fields(line),
                name,
                batch_id,
            ),
        ),
        !(parse_result(batch_id, line) is Error),
        crate::action_names::payload(parse_result(batch_id, line)) matches Some(m)
            && m["action_name"@] == Json::Str(name),
{
    reveal_strlit("action_name");
    reveal_strlit("request_uri");
    reveal_strlit("batch_id");
    assert("action_name"@[0] != "request_uri"@[0]);
    assert("action_name"@ != "request_uri"@);
    assert("action_name"@ != "batch_id"@);
    crate::action_names::lemma_allowed_classifies(
        name,
        geo_merged(
            flat_of(Seq::empty(), filter_present(entries)),
            trimmed_fields(line),
            name,
            batch_id,
        ),
    );
    let r = parse_result(batch_id, line);
    assert(r == classify(
        name,
        geo_merged(
            flat_of(Seq::empty(), filter_present(entries)),
            trimmed_fields(line),
            name,
            batch_id,
        ),
    ));
}

} // verus!

//! The action classifier and record assembler: the allow-list of
//! action categories, the tagged record type, and the merge of line
//! metadata into the flattened body.

use vstd::prelude::*;
use crate::errors::{ErrView, ProcessingError};
use crate::flatten::FlatRecord;
use crate::json::{Json, JsonValue};
use crate::numfmt::int_text;

verus! {

/// Whether a name stands in the fixed allow-list of action categories.
pub open spec fn is_allowed(name: Seq<char>) -> bool {
    ||| name == "Gotcha"@
    ||| name == "PreGotcha"@
    ||| name == "Reported"@
    ||| name == "Blocked"@
    ||| name == "Events"@
    ||| name == "Warnings"@
    ||| name == "InitializationFailed"@
    ||| name == "Collection"@
}

/// Decides membership in the allow-list.
pub fn action_allowed(name: &str) -> (r: bool)
    ensures
        r == is_allowed(name@),
{
    ||| crate::chars::str_eq(name, "Gotcha")
    ||| crate::chars::str_eq(name, "PreGotcha")
    ||| crate::chars::str_eq(name, "Reported")
    ||| crate::chars::str_eq(name, "Blocked")
    ||| crate::chars::str_eq(name, "Events")
    ||| crate::chars::str_eq(name, "Warnings")
    ||| crate::chars::str_eq(name, "InitializationFailed")
    ||| crate::chars::str_eq(name, "Collection")
}

/// One processed line: a record tagged by its action category, or the
/// error that stopped it.
pub enum Enrichable {
    Gotcha(FlatRecord),
    PreGotcha(FlatRecord),
    Reported(FlatRecord),
    Blocked(FlatRecord),
    Events(FlatRecord),
    Warnings(FlatRecord),
    InitializationFailed(FlatRecord),
    Collection(FlatRecord),
    Error(ProcessingError),
}

/// The mathematical shape of a processed line.
pub enum EnrichableView {
    Gotcha(Map<Seq<char>, Json>),
    PreGotcha(Map<Seq<char>, Json>),
    Reported(Map<Seq<char>, Json>),
    Blocked(Map<Seq<char>, Json>),
    Events(Map<Seq<char>, Json>),
    Warnings(Map<Seq<char>, Json>),
    InitializationFailed(Map<Seq<char>, Json>),
    Collection(Map<Seq<char>, Json>),
    Error(ErrView),
}

impl View for Enrichable {
    type V = EnrichableView;

    open spec fn view(&self) -> EnrichableView {
        match self {
            Enrichable::Gotcha(m) => EnrichableView::Gotcha(m@),
            Enrichable::PreGotcha(m) => EnrichableView::PreGotcha(m@),
            Enrichable::Reported(m) => EnrichableView::Reported(m@),
            Enrichable::Blocked(m) => EnrichableView::Blocked(m@),
            Enrichable::Events(m) => EnrichableView::Events(m@),
            Enrichable::Warnings(m) => EnrichableView::Warnings(m@),
            Enrichable::InitializationFailed(m) => EnrichableView::InitializationFailed(m@),
            Enrichable::Collection(m) => EnrichableView::Collection(m@),
            Enrichable::Error(e) => EnrichableView::Error(e@),
        }
    }
}

/// The record variant a validated name selects; a name outside the
/// allow-list falls to the defensive classification error.
pub open spec fn classify(name: Seq<char>, m: Map<Seq<char>, Json>) -> EnrichableView {
    if name == "Gotcha"@ {
        EnrichableView::Gotcha(m)
    } else if name == "PreGotcha"@ {
        EnrichableView::PreGotcha(m)
    } else if name == "Reported"@ {
        EnrichableView::Reported(m)
    } else if name == "Blocked"@ {
        EnrichableView::Blocked(m)
    } else if name == "Events"@ {
        EnrichableView::Events(m)
    } else if name == "Warnings"@ {
        EnrichableView::Warnings(m)
    } else if name == "InitializationFailed"@ {
        EnrichableView::InitializationFailed(m)
    } else if name == "Collection"@ {
        EnrichableView::Collection(m)
    } else {
        EnrichableView::Error(ErrView::InvalidClassification)
    }
}

/// The record a classified result carries, when it is no error.
pub open spec fn payload(v: EnrichableView) -> Option<Map<Seq<char>, Json>> {
    match v {
        EnrichableView::Gotcha(m) => Some(m),
        EnrichableView::PreGotcha(m) => Some(m),
        EnrichableView::Reported(m) => Some(m),
        EnrichableView::Blocked(m) => Some(m),
        EnrichableView::Events(m) => Some(m),
        EnrichableView::Warnings(m) => Some(m),
        EnrichableView::InitializationFailed(m) => Some(m),
        EnrichableView::Collection(m) => Some(m),
        EnrichableView::Error(_) => None,
    }
}

/// Law: the variant a name in the allow-list selects carries the given
/// record, never the classification error; the allow-list and the
/// dispatch agree.
pub proof fn lemma_allowed_classifies(name: Seq<char>, m: Map<Seq<char>, Json>)
    requires
        is_allowed(name),
    ensures
        classify(name, m) != EnrichableView::Error(ErrView::InvalidClassification),
        payload(classify(name, m)) == Some(m),
{
}

/// A finished line before tagging: the tokenized metadata, the
/// validated action name, the flattened body and the batch identifier.
pub struct LineEntry {
    pub event_date: String,
    pub source_ip: String,
    pub country_code: String,
    pub eu: String,
    pub subdivision: String,
    pub postal_code: Option<String>,
    pub isp: String,
    pub raw_user_agent: String,
    pub action_name: String,
    pub request_body: FlatRecord,
    pub request_uri: String,
    pub batch_id: i32,
}

/// The flattened body with the line metadata merged in, metadata
/// overriding any colliding body key.
pub open spec fn assembled_map(le: LineEntry) -> Map<Seq<char>, Json> {
    le.request_body@.insert("event_date"@, Json::Str(le.event_date@)).insert(
        "source_ip"@,
        Json::Str(le.source_ip@),
    ).insert("country_code"@, Json::Str(le.country_code@)).insert(
        "eu"@,
        Json::Str(le.eu@),
    ).insert("subdivision"@, Json::Str(le.subdivision@)).insert(
        "postal_code"@,
        match le.postal_code {
            Some(p) => Json::Str(p@),
            None => Json::Null,
        },
    ).insert("isp"@, Json::Str(le.isp@)).insert("raw_user_agent"@, Json::Str(le.raw_user_agent@))
        .insert("action_name"@, Json::Str(le.action_name@)).insert(
        "request_uri"@,
        Json::Str(le.request_uri@),
    ).insert("batch_id"@, Json::Num(int_text(le.batch_id as int)))
}

/// Whether the record a result carries, if any, has unique keys.
pub open spec fn wf_payload(r: Enrichable) -> bool {
    match r {
        Enrichable::Gotcha(m) => m.wf(),
        Enrichable::PreGotcha(m) => m.wf(),
        Enrichable::Reported(m) => m.wf(),
        Enrichable::Blocked(m) => m.wf(),
        Enrichable::Events(m) => m.wf(),
        Enrichable::Warnings(m) => m.wf(),
        Enrichable::InitializationFailed(m) => m.wf(),
        Enrichable::Collection(m) => m.wf(),
        Enrichable::Error(_) => true,
    }
}

impl LineEntry {
    /// Merges the metadata into the body record and tags the result by
    /// the action name.
    pub fn into_request_body_map(self) -> (r: Enrichable)
        ensures
            r@ == classify(self.action_name@, assembled_map(self)),
            self.request_body.wf() ==> wf_payload(r),
    {
        let LineEntry {
            event_date,
            source_ip,
            country_code,
            eu,
            subdivision,
            postal_code,
            isp,
            raw_user_agent,
            action_name,
            request_body,
            request_uri,
            batch_id,
        } = self;
        let mut map = request_body;
        map.insert("event_date".to_owned(), JsonValue::Str(event_date));
        map.insert("source_ip".to_owned(), JsonValue::Str(source_ip));
        map.insert("country_code".to_owned(), JsonValue::Str(country_code));
        map.insert("eu".to_owned(), JsonValue::Str(eu));
        map.insert("subdivision".to_owned(), JsonValue::Str(subdivision));
        map.insert(
            "postal_code".to_owned(),
            match postal_code {
                Some(p) => JsonValue::Str(p),
                None => JsonValue::Null,
            },
        );
        map.insert("isp".to_owned(), JsonValue::Str(isp));
        map.insert("raw_user_agent".to_owned(), JsonValue::Str(raw_user_agent));
        map.insert("action_name".to_owned(), JsonValue::Str(action_name.clone()));
        map.insert("request_uri".to_owned(), JsonValue::Str(request_uri));
        map.insert("batch_id".to_owned(), JsonValue::Num(crate::numfmt::i32_text(batch_id)));
        if crate::chars::str_eq(action_name.as_str(), "Gotcha") {
            Enrichable::Gotcha(map)
        } else if crate::chars::str_eq(action_name.as_str(), "PreGotcha") {
            Enrichable::PreGotcha(map)
        } else if crate::chars::str_eq(action_name.as_str(), "Reported") {
            Enrichable::Reported(map)
        } else if crate::chars::str_eq(action_name.as_str(), "Blocked") {
            Enrichable::Blocked(map)
        } else if crate::chars::str_eq(action_name.as_str(), "Events") {
            Enrichable::Events(map)
        } else if crate::chars::str_eq(action_name.as_str(), "Warnings") {
            Enrichable::Warnings(map)
        } else if crate::chars::str_eq(action_name.as_str(), "InitializationFailed") {
            Enrichable::InitializationFailed(map)
        } else if crate::chars::str_eq(action_name.as_str(), "Collection") {
            Enrichable::Collection(map)
        } else {
            Enrichable::Error(ProcessingError::InvalidClassification)
        }
    }
}

} // verus!

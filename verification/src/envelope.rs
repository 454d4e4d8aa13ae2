//! The message envelope: the wire schema for a single protocol message,
//! and its single-line JSON rendering.
use crate::json::{append_json, jview_pairs, lemma_jview_pairs, lemma_ser_single_line, ser,
    single_line, single_line_value, JsonSpecValue, JsonValue};
use vstd::prelude::*;

verus! {

/// The four protocol methods.
#[derive(Clone, Copy, PartialEq, Eq, Structural, Debug)]
pub enum Method {
    Opened,
    Closed,
    Log,
    ReportAssetMaterialization,
}

/// The wire name of a method.
pub open spec fn method_text(m: Method) -> Seq<char> {
    match m {
        Method::Opened => "opened"@,
        Method::Closed => "closed"@,
        Method::Log => "log"@,
        Method::ReportAssetMaterialization => "report_asset_materialization"@,
    }
}

/// One protocol message: a fixed version tag, a method, and the method's
/// parameters, if it has any.
pub struct MessageEnvelope {
    pub method: Method,
    pub params: Option<JsonValue>,
}

/// The mathematical model of a [`MessageEnvelope`].
#[verifier::ext_equal]
pub struct EnvelopeSpec {
    pub method: Method,
    pub params: Option<JsonSpecValue>,
}

impl View for MessageEnvelope {
    type V = EnvelopeSpec;

    open spec fn view(&self) -> EnvelopeSpec {
        EnvelopeSpec {
            method: self.method,
            params: match self.params {
                Option::None => None,
                Option::Some(p) => Some(p@),
            },
        }
    }
}

/// The one-line wire text of an envelope: a JSON object holding the
/// protocol version, the method name, and the parameters or null.
pub open spec fn envelope_text(e: EnvelopeSpec) -> Seq<char> {
    "{\"__dagster_pipes_version\":\"0.1\",\"method\":\""@ + method_text(e.method)
        + "\",\"params\":"@ + (match e.params {
        Option::None => "null"@,
        Option::Some(p) => ser(p),
    }) + "}"@
}

/// The wire name of a method, as text.
fn method_name(m: Method) -> (r: &'static str)
    ensures
        r@ == method_text(m),
{
    match m {
        Method::Opened => "opened",
        Method::Closed => "closed",
        Method::Log => "log",
        Method::ReportAssetMaterialization => "report_asset_materialization",
    }
}

/// Renders an envelope as its single-line wire text.
pub fn render_envelope(e: &MessageEnvelope) -> (s: String)
    ensures
        s@ == envelope_text(e@),
{
    let mut out = String::from_str("{\"__dagster_pipes_version\":\"0.1\",\"method\":\"");
    out.append(method_name(e.method));
    out.append("\",\"params\":");
    match &e.params {
        Option::None => out.append("null"),
        Option::Some(p) => append_json(&mut out, p),
    }
    out.append("}");
    proof {
        assert(out@ =~= envelope_text(e@));
    }
    out
}

/// One sink line per message: an envelope whose parameter value keeps its
/// number texts free of line breaks renders as a single line, whatever
/// the method name, the log strings or the metadata hold — the escaping
/// sees to it.
pub proof fn lemma_envelope_single_line(e: EnvelopeSpec)
    requires
        match e.params {
            Option::None => true,
            Option::Some(p) => single_line_value(p),
        },
    ensures
        single_line(envelope_text(e)),
{
    reveal_strlit("{\"__dagster_pipes_version\":\"0.1\",\"method\":\"");
    reveal_strlit("\",\"params\":");
    reveal_strlit("}");
    reveal_strlit("null");
    reveal_strlit("opened");
    reveal_strlit("closed");
    reveal_strlit("log");
    reveal_strlit("report_asset_materialization");
    match e.params {
        Option::None => {},
        Option::Some(p) => {
            lemma_ser_single_line(p);
        },
    }
}

/// The `opened` announcement: its `extras` parameter is a fresh empty
/// object, not the context's own extras.
pub open spec fn opened_envelope() -> EnvelopeSpec {
    EnvelopeSpec {
        method: Method::Opened,
        params: Some(
            JsonSpecValue::ObjV(seq![("extras"@, JsonSpecValue::ObjV(Seq::empty()))]),
        ),
    }
}

/// The terminal `closed` message: no parameters.
pub open spec fn closed_envelope() -> EnvelopeSpec {
    EnvelopeSpec { method: Method::Closed, params: None }
}

/// A `log` message carrying the two strings verbatim.
pub open spec fn log_envelope(message: Seq<char>, level: Seq<char>) -> EnvelopeSpec {
    EnvelopeSpec {
        method: Method::Log,
        params: Some(
            JsonSpecValue::ObjV(
                seq![
                    ("message"@, JsonSpecValue::StrV(message)),
                    ("level"@, JsonSpecValue::StrV(level)),
                ],
            ),
        ),
    }
}

/// A materialization report: the asset key, the caller's metadata, and a
/// `data_version` fixed to null.
pub open spec fn materialization_envelope(
    asset_key: Seq<char>,
    metadata: JsonSpecValue,
) -> EnvelopeSpec {
    EnvelopeSpec {
        method: Method::ReportAssetMaterialization,
        params: Some(
            JsonSpecValue::ObjV(
                seq![
                    ("asset_key"@, JsonSpecValue::StrV(asset_key)),
                    ("metadata"@, metadata),
                    ("data_version"@, JsonSpecValue::NullV),
                ],
            ),
        ),
    }
}

/// Builds the `opened` envelope.
pub fn opened_message() -> (e: MessageEnvelope)
    ensures
        e@ == opened_envelope(),
{
    let mut params: Vec<(String, JsonValue)> = Vec::new();
    params.push(("extras".to_owned(), JsonValue::Obj(Vec::new())));
    let e = MessageEnvelope { method: Method::Opened, params: Some(JsonValue::Obj(params)) };
    proof {
        lemma_jview_pairs(params@);
        assert(jview_pairs(params@) =~= seq![("extras"@, JsonSpecValue::ObjV(Seq::empty()))]);
        assert(e@ =~~= opened_envelope());
    }
    e
}

/// Builds the `closed` envelope.
pub fn closed_message() -> (e: MessageEnvelope)
    ensures
        e@ == closed_envelope(),
{
    let e = MessageEnvelope { method: Method::Closed, params: None };
    proof {
        assert(e@ =~~= closed_envelope());
    }
    e
}

/// Builds a `log` envelope.
pub fn log_message(message: &str, level: &str) -> (e: MessageEnvelope)
    ensures
        e@ == log_envelope(message@, level@),
{
    let mut params: Vec<(String, JsonValue)> = Vec::new();
    params.push(("message".to_owned(), JsonValue::Str(message.to_owned())));
    params.push(("level".to_owned(), JsonValue::Str(level.to_owned())));
    let e = MessageEnvelope { method: Method::Log, params: Some(JsonValue::Obj(params)) };
    proof {
        lemma_jview_pairs(params@);
        assert(jview_pairs(params@) =~= seq![
            ("message"@, JsonSpecValue::StrV(message@)),
            ("level"@, JsonSpecValue::StrV(level@)),
        ]);
        assert(e@ =~~= log_envelope(message@, level@));
    }
    e
}

/// Builds a materialization envelope.
pub fn materialization_message(asset_key: String, metadata: JsonValue) -> (e: MessageEnvelope)
    ensures
        e@ == materialization_envelope(asset_key@, metadata@),
{
    let ghost key_model = asset_key@;
    let ghost metadata_model = metadata@;
    let mut params: Vec<(String, JsonValue)> = Vec::new();
    params.push(("asset_key".to_owned(), JsonValue::Str(asset_key)));
    params.push(("metadata".to_owned(), metadata));
    params.push(("data_version".to_owned(), JsonValue::Null));
    let e = MessageEnvelope {
        method: Method::ReportAssetMaterialization,
        params: Some(JsonValue::Obj(params)),
    };
    proof {
        lemma_jview_pairs(params@);
        assert(jview_pairs(params@) =~= seq![
            ("asset_key"@, JsonSpecValue::StrV(key_model)),
            ("metadata"@, metadata_model),
            ("data_version"@, JsonSpecValue::NullV),
        ]);
        assert(e@ =~~= materialization_envelope(key_model, metadata_model));
    }
    e
}

} // verus!

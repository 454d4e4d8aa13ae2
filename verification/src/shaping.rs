//! Metadata shaping, on the compute-collaborator side: turns a query
//! analysis document (an array of analysis records, as a query engine
//! emits it) into the metadata value a materialization reports. The
//! session itself treats that value as opaque; these two interchangeable
//! shapers are the only places that look inside it.
use crate::context::{obj_get, obj_lookup};
use crate::json::{clone_json, jview_pairs, lemma_jview_pairs, lemma_jview_seq, JsonSpecValue,
    JsonValue};
use vstd::prelude::*;

verus! {

/// The first record of an analysis document, which must be an array.
pub open spec fn spec_first_element(doc: JsonSpecValue) -> Option<JsonSpecValue> {
    match doc {
        JsonSpecValue::ArrV(items) => if items.len() > 0 {
            Some(items[0])
        } else {
            None
        },
        _ => None,
    }
}

/// A reported section: the raw value beside its type tag.
pub open spec fn wrapped(v: JsonSpecValue, tag: Seq<char>) -> JsonSpecValue {
    JsonSpecValue::ObjV(seq![("raw_value"@, v), ("type"@, JsonSpecValue::StrV(tag))])
}

/// The raw shape: the whole first analysis record as one `json` section.
pub open spec fn spec_raw_analysis(doc: JsonSpecValue) -> Option<JsonSpecValue> {
    match spec_first_element(doc) {
        Option::None => None,
        Option::Some(a) => Some(
            JsonSpecValue::ObjV(seq![("analysis"@, wrapped(a, "json"@))]),
        ),
    }
}

/// The destructured shape: the plan and timing sections of the first
/// analysis record, each under its own tag; nothing if any is missing.
pub open spec fn spec_plan_timing(doc: JsonSpecValue) -> Option<JsonSpecValue> {
    match spec_first_element(doc) {
        Option::None => None,
        Option::Some(a) => match a {
            JsonSpecValue::ObjV(ps) => if {
                &&& obj_get(ps, "Plan"@) is Some
                &&& obj_get(ps, "Planning"@) is Some
                &&& obj_get(ps, "Planning Time"@) is Some
                &&& obj_get(ps, "Triggers"@) is Some
                &&& obj_get(ps, "Execution Time"@) is Some
            } {
                Some(
                    JsonSpecValue::ObjV(
                        seq![
                            ("plan"@, wrapped(obj_get(ps, "Plan"@)->0, "json"@)),
                            ("planning"@, wrapped(obj_get(ps, "Planning"@)->0, "json"@)),
                            ("planning_time"@, wrapped(obj_get(ps, "Planning Time"@)->0, "float"@)),
                            ("triggers"@, wrapped(obj_get(ps, "Triggers"@)->0, "json"@)),
                            (
                                "execution_time"@,
                                wrapped(obj_get(ps, "Execution Time"@)->0, "float"@),
                            ),
                        ],
                    ),
                )
            } else {
                None
            },
            _ => None,
        },
    }
}

/// The first record of an analysis document.
fn first_element(doc: &JsonValue) -> (r: Option<&JsonValue>)
    ensures
        match spec_first_element(doc@) {
            Option::None => r is None,
            Option::Some(m) => r is Some && r->0@ == m,
        },
{
    match doc {
        JsonValue::Arr(items) => {
            proof {
                lemma_jview_seq(items@);
            }
            if items.len() > 0 {
                Some(&items[0])
            } else {
                None
            }
        },
        _ => None,
    }
}

/// Builds one reported section.
fn wrap(v: JsonValue, tag: &str) -> (r: JsonValue)
    ensures
        r@ == wrapped(v@, tag@),
{
    let ghost vm = v@;
    let mut pairs: Vec<(String, JsonValue)> = Vec::new();
    pairs.push(("raw_value".to_owned(), v));
    pairs.push(("type".to_owned(), JsonValue::Str(tag.to_owned())));
    let r = JsonValue::Obj(pairs);
    proof {
        lemma_jview_pairs(pairs@);
        assert(jview_pairs(pairs@) =~= seq![
            ("raw_value"@, vm),
            ("type"@, JsonSpecValue::StrV(tag@)),
        ]);
        assert(r@ =~~= wrapped(vm, tag@));
    }
    r
}

/// Shapes the metadata as the whole analysis record, untouched, under a
/// single `json`-tagged section.
pub fn raw_analysis_metadata(doc: &JsonValue) -> (r: Option<JsonValue>)
    ensures
        match spec_raw_analysis(doc@) {
            Option::None => r is None,
            Option::Some(m) => r is Some && r->0@ == m,
        },
{
    let first = match first_element(doc) {
        Option::Some(a) => clone_json(a),
        Option::None => {
            return None;
        },
    };
    let ghost fm = first@;
    let section = wrap(first, "json");
    let mut pairs: Vec<(String, JsonValue)> = Vec::new();
    pairs.push(("analysis".to_owned(), section));
    let r = JsonValue::Obj(pairs);
    proof {
        lemma_jview_pairs(pairs@);
        assert(jview_pairs(pairs@) =~= seq![("analysis"@, wrapped(fm, "json"@))]);
        assert(r@ =~~= spec_raw_analysis(doc@)->0);
    }
    Some(r)
}

/// Shapes the metadata by destructuring the analysis record's plan and
/// timing sections, as a plan-inspection step reports them.
pub fn plan_timing_metadata(doc: &JsonValue) -> (r: Option<JsonValue>)
    ensures
        match spec_plan_timing(doc@) {
            Option::None => r is None,
            Option::Some(m) => r is Some && r->0@ == m,
        },
{
    let first = match first_element(doc) {
        Option::Some(a) => a,
        Option::None => {
            return None;
        },
    };
    let ps = match first {
        JsonValue::Obj(ps) => ps,
        _ => {
            return None;
        },
    };
    let plan = match obj_lookup(ps, "Plan") {
        Option::Some(x) => clone_json(x),
        Option::None => {
            return None;
        },
    };
    let planning = match obj_lookup(ps, "Planning") {
        Option::Some(x) => clone_json(x),
        Option::None => {
            return None;
        },
    };
    let planning_time = match obj_lookup(ps, "Planning Time") {
        Option::Some(x) => clone_json(x),
        Option::None => {
            return None;
        },
    };
    let triggers = match obj_lookup(ps, "Triggers") {
        Option::Some(x) => clone_json(x),
        Option::None => {
            return None;
        },
    };
    let execution_time = match obj_lookup(ps, "Execution Time") {
        Option::Some(x) => clone_json(x),
        Option::None => {
            return None;
        },
    };
    let ghost pm = jview_pairs(ps@);
    let mut out: Vec<(String, JsonValue)> = Vec::new();
    out.push(("plan".to_owned(), wrap(plan, "json")));
    out.push(("planning".to_owned(), wrap(planning, "json")));
    out.push(("planning_time".to_owned(), wrap(planning_time, "float")));
    out.push(("triggers".to_owned(), wrap(triggers, "json")));
    out.push(("execution_time".to_owned(), wrap(execution_time, "float")));
    let r = JsonValue::Obj(out);
    proof {
        lemma_jview_pairs(out@);
        assert(jview_pairs(out@) =~= seq![
            ("plan"@, wrapped(obj_get(pm, "Plan"@)->0, "json"@)),
            ("planning"@, wrapped(obj_get(pm, "Planning"@)->0, "json"@)),
            ("planning_time"@, wrapped(obj_get(pm, "Planning Time"@)->0, "float"@)),
            ("triggers"@, wrapped(obj_get(pm, "Triggers"@)->0, "json"@)),
            ("execution_time"@, wrapped(obj_get(pm, "Execution Time"@)->0, "float"@)),
        ]);
        assert(r@ =~~= spec_plan_timing(doc@)->0);
    }
    Some(r)
}

} // verus!

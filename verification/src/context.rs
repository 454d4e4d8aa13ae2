//! The bootstrap context: a JSON object read once before a step runs,
//! decoded into an immutable record. `run_id` and `retry_number` are
//! required; everything else is optional.
use crate::json::{
    jview, jview_pairs, jview_seq, json_model_of, lemma_jview_pairs, lemma_jview_seq, parse_json,
    JsonSpecValue, JsonValue,
};
use vstd::prelude::*;

verus! {

/// Why a bootstrap description could not be loaded.
#[derive(Clone, Copy, PartialEq, Eq, Structural, Debug)]
pub enum ContextLoadError {
    /// The context file could not be opened or read (reported by the host).
    Unreadable,
    /// The text is not a JSON document.
    InvalidJson,
    /// The document is not a JSON object.
    NotAnObject,
    MissingRunId,
    InvalidRunId,
    MissingRetryNumber,
    InvalidRetryNumber,
    InvalidAssetKeys,
    InvalidCodeVersions,
    InvalidPartitionKey,
    InvalidJobName,
    InvalidExtras,
}

/// The context record a session consumes for its whole lifetime.
#[derive(Debug, PartialEq, Eq)]
pub struct PipesContextData {
    /// Logical outputs this step is associated with, in order.
    pub asset_keys: Option<Vec<String>>,
    /// Version string, or null, per asset key.
    pub code_version_by_asset_key: Option<Vec<(String, Option<String>)>>,
    pub partition_key: Option<String>,
    pub job_name: Option<String>,
    pub retry_number: i64,
    pub run_id: String,
    /// Caller-defined payload, carried through without interpretation.
    pub extras: Option<Vec<(String, JsonValue)>>,
}

/// The mathematical model of a [`PipesContextData`].
#[verifier::ext_equal]
pub struct ContextSpec {
    pub asset_keys: Option<Seq<Seq<char>>>,
    pub code_version_by_asset_key: Option<Seq<(Seq<char>, Option<Seq<char>>)>>,
    pub partition_key: Option<Seq<char>>,
    pub job_name: Option<Seq<char>>,
    pub retry_number: i64,
    pub run_id: Seq<char>,
    pub extras: Option<Seq<(Seq<char>, JsonSpecValue)>>,
}

impl View for PipesContextData {
    type V = ContextSpec;

    open spec fn view(&self) -> ContextSpec {
        ContextSpec {
            asset_keys: match self.asset_keys {
                Option::None => None,
                Option::Some(keys) => Some(keys@.map_values(|s: String| s@)),
            },
            code_version_by_asset_key: match self.code_version_by_asset_key {
                Option::None => None,
                Option::Some(pairs) => Some(
                    pairs@.map_values(
                        |p: (String, Option<String>)|
                            (
                                p.0@,
                                match p.1 {
                                    Option::None => None,
                                    Option::Some(s) => Some(s@),
                                },
                            ),
                    ),
                ),
            },
            partition_key: match self.partition_key {
                Option::None => None,
                Option::Some(s) => Some(s@),
            },
            job_name: match self.job_name {
                Option::None => None,
                Option::Some(s) => Some(s@),
            },
            retry_number: self.retry_number,
            run_id: self.run_id@,
            extras: match self.extras {
                Option::None => None,
                Option::Some(pairs) => Some(jview_pairs(pairs@)),
            },
        }
    }
}

/// The value of the first member with the given key, if any.
pub open spec fn obj_get(
    pairs: Seq<(Seq<char>, JsonSpecValue)>,
    key: Seq<char>,
) -> Option<JsonSpecValue>
    decreases pairs.len(),
{
    if pairs.len() == 0 {
        None
    } else if pairs[0].0 == key {
        Some(pairs[0].1)
    } else {
        obj_get(pairs.drop_first(), key)
    }
}

/// How the required `run_id` field is decoded: present and a string.
pub open spec fn decode_run_id(f: Option<JsonSpecValue>) -> Result<Seq<char>, ContextLoadError> {
    match f {
        Option::None => Err(ContextLoadError::MissingRunId),
        Option::Some(JsonSpecValue::StrV(s)) => Ok(s),
        Option::Some(_) => Err(ContextLoadError::InvalidRunId),
    }
}

/// How the required `retry_number` field is decoded: present and an
/// integer that a machine word holds.
pub open spec fn decode_retry_number(f: Option<JsonSpecValue>) -> Result<i64, ContextLoadError> {
    match f {
        Option::None => Err(ContextLoadError::MissingRetryNumber),
        Option::Some(JsonSpecValue::IntV(i)) => Ok(i),
        Option::Some(_) => Err(ContextLoadError::InvalidRetryNumber),
    }
}

/// How an optional string field is decoded: absent and null both mean none.
pub open spec fn decode_opt_string(
    f: Option<JsonSpecValue>,
    bad: ContextLoadError,
) -> Result<Option<Seq<char>>, ContextLoadError> {
    match f {
        Option::None => Ok(None),
        Option::Some(JsonSpecValue::NullV) => Ok(None),
        Option::Some(JsonSpecValue::StrV(s)) => Ok(Some(s)),
        Option::Some(_) => Err(bad),
    }
}

/// How `asset_keys` is decoded: absent or null means none; else an array
/// whose elements are all strings.
pub open spec fn decode_asset_keys(f: Option<JsonSpecValue>) -> Result<
    Option<Seq<Seq<char>>>,
    ContextLoadError,
> {
    match f {
        Option::None => Ok(None),
        Option::Some(JsonSpecValue::NullV) => Ok(None),
        Option::Some(JsonSpecValue::ArrV(items)) => if forall|i: int|
            0 <= i < items.len() ==> items[i] is StrV {
            Ok(Some(items.map_values(|v: JsonSpecValue| v->StrV_0)))
        } else {
            Err(ContextLoadError::InvalidAssetKeys)
        },
        Option::Some(_) => Err(ContextLoadError::InvalidAssetKeys),
    }
}

/// How `code_version_by_asset_key` is decoded: absent or null means none;
/// else an object whose values are all strings or null.
pub open spec fn decode_code_versions(f: Option<JsonSpecValue>) -> Result<
    Option<Seq<(Seq<char>, Option<Seq<char>>)>>,
    ContextLoadError,
> {
    match f {
        Option::None => Ok(None),
        Option::Some(JsonSpecValue::NullV) => Ok(None),
        Option::Some(JsonSpecValue::ObjV(pairs)) => if forall|i: int|
            0 <= i < pairs.len() ==> (pairs[i].1 is StrV || pairs[i].1 is NullV) {
            Ok(
                Some(
                    pairs.map_values(
                        |p: (Seq<char>, JsonSpecValue)|
                            (
                                p.0,
                                match p.1 {
                                    JsonSpecValue::StrV(s) => Some(s),
                                    _ => None,
                                },
                            ),
                    ),
                ),
            )
        } else {
            Err(ContextLoadError::InvalidCodeVersions)
        },
        Option::Some(_) => Err(ContextLoadError::InvalidCodeVersions),
    }
}

/// How `extras` is decoded: absent or null means none; else the object's
/// members, carried through untouched.
pub open spec fn decode_extras(f: Option<JsonSpecValue>) -> Result<
    Option<Seq<(Seq<char>, JsonSpecValue)>>,
    ContextLoadError,
> {
    match f {
        Option::None => Ok(None),
        Option::Some(JsonSpecValue::NullV) => Ok(None),
        Option::Some(JsonSpecValue::ObjV(pairs)) => Ok(Some(pairs)),
        Option::Some(_) => Err(ContextLoadError::InvalidExtras),
    }
}

/// How a whole bootstrap document is decoded, field by field; the first
/// failing field, in this order, names the error.
pub open spec fn spec_decode_context(j: JsonSpecValue) -> Result<ContextSpec, ContextLoadError> {
    match j {
        JsonSpecValue::ObjV(ps) => match decode_run_id(obj_get(ps, "run_id"@)) {
            Err(e) => Err(e),
            Ok(run_id) => match decode_retry_number(obj_get(ps, "retry_number"@)) {
                Err(e) => Err(e),
                Ok(retry_number) => match decode_asset_keys(obj_get(ps, "asset_keys"@)) {
                    Err(e) => Err(e),
                    Ok(asset_keys) => match decode_code_versions(
                        obj_get(ps, "code_version_by_asset_key"@),
                    ) {
                        Err(e) => Err(e),
                        Ok(code_versions) => match decode_opt_string(
                            obj_get(ps, "partition_key"@),
                            ContextLoadError::InvalidPartitionKey,
                        ) {
                            Err(e) => Err(e),
                            Ok(partition_key) => match decode_opt_string(
                                obj_get(ps, "job_name"@),
                                ContextLoadError::InvalidJobName,
                            ) {
                                Err(e) => Err(e),
                                Ok(job_name) => match decode_extras(obj_get(ps, "extras"@)) {
                                    Err(e) => Err(e),
                                    Ok(extras) => Ok(
                                        ContextSpec {
                                            asset_keys,
                                            code_version_by_asset_key: code_versions,
                                            partition_key,
                                            job_name,
                                            retry_number,
                                            run_id,
                                            extras,
                                        },
                                    ),
                                },
                            },
                        },
                    },
                },
            },
        },
        _ => Err(ContextLoadError::NotAnObject),
    }
}

/// What loading a context text yields: a parse failure, a decode failure,
/// or the record.
pub open spec fn spec_load_context(t: Seq<char>) -> Result<ContextSpec, ContextLoadError> {
    match json_model_of(t) {
        Option::None => Err(ContextLoadError::InvalidJson),
        Option::Some(j) => spec_decode_context(j),
    }
}

/// The document members that state exactly the given record: every field
/// under its key, the absent optional ones as null.
pub open spec fn encode_context_pairs(c: ContextSpec) -> Seq<(Seq<char>, JsonSpecValue)> {
    seq![
        ("run_id"@, JsonSpecValue::StrV(c.run_id)),
        ("retry_number"@, JsonSpecValue::IntV(c.retry_number)),
        (
            "asset_keys"@,
            match c.asset_keys {
                Option::None => JsonSpecValue::NullV,
                Option::Some(keys) => JsonSpecValue::ArrV(
                    keys.map_values(|s: Seq<char>| JsonSpecValue::StrV(s)),
                ),
            },
        ),
        (
            "code_version_by_asset_key"@,
            match c.code_version_by_asset_key {
                Option::None => JsonSpecValue::NullV,
                Option::Some(vs) => JsonSpecValue::ObjV(
                    vs.map_values(
                        |p: (Seq<char>, Option<Seq<char>>)|
                            (
                                p.0,
                                match p.1 {
                                    Option::None => JsonSpecValue::NullV,
                                    Option::Some(s) => JsonSpecValue::StrV(s),
                                },
                            ),
                    ),
                ),
            },
        ),
        (
            "partition_key"@,
            match c.partition_key {
                Option::None => JsonSpecValue::NullV,
                Option::Some(s) => JsonSpecValue::StrV(s),
            },
        ),
        (
            "job_name"@,
            match c.job_name {
                Option::None => JsonSpecValue::NullV,
                Option::Some(s) => JsonSpecValue::StrV(s),
            },
        ),
        (
            "extras"@,
            match c.extras {
                Option::None => JsonSpecValue::NullV,
                Option::Some(ps) => JsonSpecValue::ObjV(ps),
            },
        ),
    ]
}

/// Round trip, constructively: any record, written out as a context
/// document, decodes back to exactly that record — no field is lost or
/// altered on the way through.
pub proof fn lemma_encode_decode_round_trip(c: ContextSpec)
    ensures
        spec_decode_context(JsonSpecValue::ObjV(encode_context_pairs(c))) == Ok::<
            ContextSpec,
            ContextLoadError,
        >(c),
{
    reveal_with_fuel(obj_get, 8);
    reveal_strlit("run_id");
    reveal_strlit("retry_number");
    reveal_strlit("asset_keys");
    reveal_strlit("code_version_by_asset_key");
    reveal_strlit("partition_key");
    reveal_strlit("job_name");
    reveal_strlit("extras");
    assert("run_id"@.len() == 6);
    assert("retry_number"@.len() == 12);
    assert("asset_keys"@.len() == 10);
    assert("code_version_by_asset_key"@.len() == 25);
    assert("partition_key"@.len() == 13);
    assert("job_name"@.len() == 8);
    assert("extras"@.len() == 6);
    assert("run_id"@[0] == 'r');
    assert("extras"@[0] == 'e');
    let ps = encode_context_pairs(c);
    let s1 = ps.drop_first();
    let s2 = s1.drop_first();
    let s3 = s2.drop_first();
    let s4 = s3.drop_first();
    let s5 = s4.drop_first();
    let s6 = s5.drop_first();
    assert(s1 =~= ps.subrange(1, 7));
    assert(s2 =~= ps.subrange(2, 7));
    assert(s3 =~= ps.subrange(3, 7));
    assert(s4 =~= ps.subrange(4, 7));
    assert(s5 =~= ps.subrange(5, 7));
    assert(s6 =~= ps.subrange(6, 7));
    assert(obj_get(ps, "run_id"@) == Some(JsonSpecValue::StrV(c.run_id)));
    assert(obj_get(ps, "retry_number"@) == Some(JsonSpecValue::IntV(c.retry_number)));
    assert(obj_get(ps, "asset_keys"@) == Some(ps[2].1));
    assert(obj_get(ps, "code_version_by_asset_key"@) == Some(ps[3].1));
    assert(obj_get(ps, "partition_key"@) == Some(ps[4].1));
    assert(obj_get(ps, "job_name"@) == Some(ps[5].1));
    assert(obj_get(ps, "extras"@) == Some(ps[6].1));
    let d = spec_decode_context(JsonSpecValue::ObjV(ps));
    match c.asset_keys {
        Option::None => {},
        Option::Some(keys) => {
            let enc = keys.map_values(|s: Seq<char>| JsonSpecValue::StrV(s));
            assert(forall|i: int| 0 <= i < enc.len() ==> (#[trigger] enc[i]) is StrV);
            assert(enc.map_values(|v: JsonSpecValue| v->StrV_0) =~= keys);
        },
    }
    match c.code_version_by_asset_key {
        Option::None => {},
        Option::Some(vs) => {
            let enc = vs.map_values(
                |p: (Seq<char>, Option<Seq<char>>)|
                    (
                        p.0,
                        match p.1 {
                            Option::None => JsonSpecValue::NullV,
                            Option::Some(s) => JsonSpecValue::StrV(s),
                        },
                    ),
            );
            assert(forall|i: int|
                0 <= i < enc.len() ==> ((#[trigger] enc[i]).1 is StrV || enc[i].1 is NullV));
            assert(enc.map_values(
                |p: (Seq<char>, JsonSpecValue)|
                    (
                        p.0,
                        match p.1 {
                            JsonSpecValue::StrV(s) => Some(s),
                            _ => None,
                        },
                    ),
            ) =~= vs);
        },
    }
    assert(d is Ok);
    assert(d->Ok_0 =~~= c);
}

/// Round trip: a context object whose required fields are present and
/// whose optional fields are well-formed loads successfully, and every
/// field of the record is exactly what the document holds — nothing is
/// lost or altered on the way in.
pub proof fn lemma_load_round_trip(
    ps: Seq<(Seq<char>, JsonSpecValue)>,
    run_id: Seq<char>,
    retry_number: i64,
)
    requires
        obj_get(ps, "run_id"@) == Some(JsonSpecValue::StrV(run_id)),
        obj_get(ps, "retry_number"@) == Some(JsonSpecValue::IntV(retry_number)),
        decode_asset_keys(obj_get(ps, "asset_keys"@)) is Ok,
        decode_code_versions(obj_get(ps, "code_version_by_asset_key"@)) is Ok,
        decode_opt_string(obj_get(ps, "partition_key"@), ContextLoadError::InvalidPartitionKey)
            is Ok,
        decode_opt_string(obj_get(ps, "job_name"@), ContextLoadError::InvalidJobName) is Ok,
        decode_extras(obj_get(ps, "extras"@)) is Ok,
    ensures
        spec_decode_context(JsonSpecValue::ObjV(ps)) is Ok,
        ({
            let c = spec_decode_context(JsonSpecValue::ObjV(ps))->Ok_0;
            &&& c.run_id == run_id
            &&& c.retry_number == retry_number
            &&& c.asset_keys == decode_asset_keys(obj_get(ps, "asset_keys"@))->Ok_0
            &&& c.code_version_by_asset_key == decode_code_versions(
                obj_get(ps, "code_version_by_asset_key"@),
            )->Ok_0
            &&& c.partition_key == decode_opt_string(
                obj_get(ps, "partition_key"@),
                ContextLoadError::InvalidPartitionKey,
            )->Ok_0
            &&& c.job_name == decode_opt_string(
                obj_get(ps, "job_name"@),
                ContextLoadError::InvalidJobName,
            )->Ok_0
            &&& c.extras == decode_extras(obj_get(ps, "extras"@))->Ok_0
        }),
{
}

/// The model of an optional borrowed value.
pub open spec fn opt_view(f: Option<&JsonValue>) -> Option<JsonSpecValue> {
    match f {
        Option::None => None,
        Option::Some(v) => Some(jview(*v)),
    }
}

/// Finds the first member with the given key, by index.
#[verifier::loop_isolation(false)]
fn obj_lookup_index(pairs: &Vec<(String, JsonValue)>, key: &str) -> (r: Option<usize>)
    ensures
        ({
            let model = jview_pairs(pairs@);
            match r {
                Option::None => obj_get(model, key@) is None,
                Option::Some(idx) => idx < model.len() && model[idx as int].0 == key@ && obj_get(
                    model,
                    key@,
                ) == Some(model[idx as int].1),
            }
        }),
{
    proof {
        lemma_jview_pairs(pairs@);
    }
    let ghost model = jview_pairs(pairs@);
    let owned = key.to_owned();
    let n = pairs.len();
    proof {
        assert(model.subrange(0, n as int) =~= model);
    }
    let mut i: usize = 0;
    while i < n
        invariant
            i <= n,
            n == pairs@.len(),
            owned@ == key@,
            model == jview_pairs(pairs@),
            model.len() == n,
            forall|k: int| 0 <= k < n ==> model[k] == (pairs@[k].0@, jview(pairs@[k].1)),
            obj_get(model, key@) == obj_get(model.subrange(i as int, n as int), key@),
        decreases n - i,
    {
        let ghost rest = model.subrange(i as int, n as int);
        proof {
            assert(rest[0] == model[i as int]);
        }
        if pairs[i].0 == owned {
            proof {
                assert(obj_get(rest, key@) == Some(model[i as int].1));
            }
            return Some(i);
        }
        proof {
            assert(rest.drop_first() =~= model.subrange(i as int + 1, n as int));
        }
        i = i + 1;
    }
    proof {
        assert(model.subrange(n as int, n as int).len() == 0);
    }
    None
}

/// Finds the first member with the given key.
pub(crate) fn obj_lookup<'a>(pairs: &'a Vec<(String, JsonValue)>, key: &str) -> (r: Option<&'a JsonValue>)
    ensures
        ({
            let model = jview_pairs(pairs@);
            match r {
                Option::None => obj_get(model, key@) is None,
                Option::Some(jv) => obj_get(model, key@) == Some(jv@),
            }
        }),
{
    proof {
        lemma_jview_pairs(pairs@);
    }
    match obj_lookup_index(pairs, key) {
        Option::Some(i) => Some(&pairs[i].1),
        Option::None => None,
    }
}

/// Decodes an optional string field.
fn take_opt_string(f: Option<&JsonValue>, bad: ContextLoadError) -> (r: Result<
    Option<String>,
    ContextLoadError,
>)
    ensures
        ({
            let d = decode_opt_string(opt_view(f), bad);
            match r {
                Ok(opt) => d is Ok && (match opt {
                    Option::None => d->Ok_0 is None,
                    Option::Some(s) => d->Ok_0 == Some(s@),
                }),
                Err(e) => d == Err::<Option<Seq<char>>, ContextLoadError>(e),
            }
        }),
{
    match f {
        Option::None => Ok(None),
        Option::Some(JsonValue::Null) => Ok(None),
        Option::Some(JsonValue::Str(s)) => Ok(Some(s.clone())),
        Option::Some(_) => Err(bad),
    }
}

/// Decodes the `asset_keys` field.
#[verifier::loop_isolation(false)]
fn take_asset_keys(f: Option<&JsonValue>) -> (r: Result<Option<Vec<String>>, ContextLoadError>)
    ensures
        ({
            let d = decode_asset_keys(opt_view(f));
            match r {
                Ok(opt) => d is Ok && (match opt {
                    Option::None => d->Ok_0 is None,
                    Option::Some(keys) => d->Ok_0 == Some(keys@.map_values(|s: String| s@)),
                }),
                Err(e) => d == Err::<Option<Seq<Seq<char>>>, ContextLoadError>(e),
            }
        }),
{
    match f {
        Option::None => Ok(None),
        Option::Some(JsonValue::Null) => Ok(None),
        Option::Some(JsonValue::Arr(items)) => {
            proof {
                lemma_jview_seq(items@);
            }
            let ghost m = jview_seq(items@);
            let mut keys: Vec<String> = Vec::new();
            let n = items.len();
            let mut i: usize = 0;
            while i < n
                invariant
                    i <= n,
                    n == items@.len(),
                    m == jview_seq(items@),
                    m.len() == n,
                    forall|k: int| 0 <= k < n ==> m[k] == jview(items@[k]),
                    keys@.len() == i,
                    forall|k: int| #![trigger m[k]] 0 <= k < i ==> m[k] is StrV,
                    forall|k: int| #![trigger keys@[k]] 0 <= k < i ==> keys@[k]@ == m[k]->StrV_0,
                decreases n - i,
            {
                match &items[i] {
                    JsonValue::Str(s) => {
                        proof {
                            assert(items@[i as int] == JsonValue::Str(*s));
                            assert(m[i as int] == JsonSpecValue::StrV(s@));
                        }
                        keys.push(s.clone());
                        proof {
                            assert(keys@[i as int]@ == m[i as int]->StrV_0);
                        }
                    },
                    _ => {
                        proof {
                            assert(!(m[i as int] is StrV));
                        }
                        return Err(ContextLoadError::InvalidAssetKeys);
                    },
                }
                i = i + 1;
            }
            proof {
                assert(keys@.map_values(|s: String| s@) =~= m.map_values(
                    |v: JsonSpecValue| v->StrV_0,
                ));
            }
            Ok(Some(keys))
        },
        Option::Some(_) => Err(ContextLoadError::InvalidAssetKeys),
    }
}

/// Decodes the `code_version_by_asset_key` field.
#[verifier::loop_isolation(false)]
fn take_code_versions(f: Option<&JsonValue>) -> (r: Result<
    Option<Vec<(String, Option<String>)>>,
    ContextLoadError,
>)
    ensures
        ({
            let d = decode_code_versions(opt_view(f));
            match r {
                Ok(opt) => d is Ok && (match opt {
                    Option::None => d->Ok_0 is None,
                    Option::Some(vs) => d->Ok_0 == Some(
                        vs@.map_values(
                            |p: (String, Option<String>)|
                                (
                                    p.0@,
                                    match p.1 {
                                        Option::None => None,
                                        Option::Some(s) => Some(s@),
                                    },
                                ),
                        ),
                    ),
                }),
                Err(e) => d == Err::<
                    Option<Seq<(Seq<char>, Option<Seq<char>>)>>,
                    ContextLoadError,
                >(e),
            }
        }),
{
    match f {
        Option::None => Ok(None),
        Option::Some(JsonValue::Null) => Ok(None),
        Option::Some(JsonValue::Obj(pairs)) => {
            proof {
                lemma_jview_pairs(pairs@);
            }
            let ghost m = jview_pairs(pairs@);
            let mut vs: Vec<(String, Option<String>)> = Vec::new();
            let n = pairs.len();
            let mut i: usize = 0;
            while i < n
                invariant
                    i <= n,
                    n == pairs@.len(),
                    m == jview_pairs(pairs@),
                    m.len() == n,
                    forall|k: int| 0 <= k < n ==> m[k] == (pairs@[k].0@, jview(pairs@[k].1)),
                    vs@.len() == i,
                    forall|k: int| #![trigger m[k]] 0 <= k < i ==> (m[k].1 is StrV || m[k].1
                        is NullV),
                    forall|k: int| #![trigger vs@[k]]
                        0 <= k < i ==> vs@[k].0@ == m[k].0 && (match vs@[k].1 {
                            Option::None => m[k].1 is NullV,
                            Option::Some(s) => m[k].1 == JsonSpecValue::StrV(s@),
                        }),
                decreases n - i,
            {
                let name = pairs[i].0.clone();
                match &pairs[i].1 {
                    JsonValue::Str(s) => {
                        vs.push((name, Some(s.clone())));
                    },
                    JsonValue::Null => {
                        vs.push((name, None));
                    },
                    _ => {
                        proof {
                            assert(!(m[i as int].1 is StrV) && !(m[i as int].1 is NullV));
                        }
                        return Err(ContextLoadError::InvalidCodeVersions);
                    },
                }
                i = i + 1;
            }
            proof {
                assert(vs@.map_values(
                    |p: (String, Option<String>)|
                        (
                            p.0@,
                            match p.1 {
                                Option::None => None,
                                Option::Some(s) => Some(s@),
                            },
                        ),
                ) =~= m.map_values(
                    |p: (Seq<char>, JsonSpecValue)|
                        (
                            p.0,
                            match p.1 {
                                JsonSpecValue::StrV(s) => Some(s),
                                _ => None,
                            },
                        ),
                ));
            }
            Ok(Some(vs))
        },
        Option::Some(_) => Err(ContextLoadError::InvalidCodeVersions),
    }
}

/// Decodes a whole bootstrap document.
pub fn decode_context(v: JsonValue) -> (r: Result<PipesContextData, ContextLoadError>)
    ensures
        match spec_decode_context(v@) {
            Ok(c) => r is Ok && r->Ok_0@ == c,
            Err(e) => r is Err && r->Err_0 == e,
        },
{
    let mut pairs = match v {
        JsonValue::Obj(pairs) => pairs,
        _ => {
            return Err(ContextLoadError::NotAnObject);
        },
    };
    proof {
        lemma_jview_pairs(pairs@);
    }
    let ghost ps = jview_pairs(pairs@);
    let run_id: String = match obj_lookup(&pairs, "run_id") {
        Option::None => {
            return Err(ContextLoadError::MissingRunId);
        },
        Option::Some(JsonValue::Str(s)) => s.clone(),
        Option::Some(_) => {
            return Err(ContextLoadError::InvalidRunId);
        },
    };
    let retry_number: i64 = match obj_lookup(&pairs, "retry_number") {
        Option::None => {
            return Err(ContextLoadError::MissingRetryNumber);
        },
        Option::Some(JsonValue::Int(i)) => *i,
        Option::Some(_) => {
            return Err(ContextLoadError::InvalidRetryNumber);
        },
    };
    let asset_keys: Option<Vec<String>> = match take_asset_keys(obj_lookup(&pairs, "asset_keys")) {
        Ok(opt) => opt,
        Err(e) => {
            return Err(e);
        },
    };
    let code_version_by_asset_key: Option<Vec<(String, Option<String>)>> = match take_code_versions(
        obj_lookup(&pairs, "code_version_by_asset_key"),
    ) {
        Ok(opt) => opt,
        Err(e) => {
            return Err(e);
        },
    };
    let partition_key: Option<String> = match take_opt_string(
        obj_lookup(&pairs, "partition_key"),
        ContextLoadError::InvalidPartitionKey,
    ) {
        Ok(opt) => opt,
        Err(e) => {
            return Err(e);
        },
    };
    let job_name: Option<String> = match take_opt_string(
        obj_lookup(&pairs, "job_name"),
        ContextLoadError::InvalidJobName,
    ) {
        Ok(opt) => opt,
        Err(e) => {
            return Err(e);
        },
    };
    let extras: Option<Vec<(String, JsonValue)>> = match obj_lookup_index(&pairs, "extras") {
        Option::None => None,
        Option::Some(idx) => {
            let found = pairs.remove(idx);
            proof {
                assert(jview(found.1) == ps[idx as int].1);
            }
            match found.1 {
                JsonValue::Null => None,
                JsonValue::Obj(inner) => Some(inner),
                _ => {
                    return Err(ContextLoadError::InvalidExtras);
                },
            }
        },
    };
    let data = PipesContextData {
        asset_keys,
        code_version_by_asset_key,
        partition_key,
        job_name,
        retry_number,
        run_id,
        extras,
    };
    proof {
        let c = spec_decode_context(v@)->Ok_0;
        assert(data@ =~~= c);
    }
    Ok(data)
}

/// Loads a bootstrap description from its text: parses the JSON and
/// decodes the record.
pub fn load_context(text: &str) -> (r: Result<PipesContextData, ContextLoadError>)
    ensures
        match spec_load_context(text@) {
            Ok(c) => r is Ok && r->Ok_0@ == c,
            Err(e) => r is Err && r->Err_0 == e,
        },
{
    match parse_json(text) {
        Option::None => Err(ContextLoadError::InvalidJson),
        Option::Some(v) => decode_context(v),
    }
}

} // verus!


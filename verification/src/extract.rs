//! Extraction of measurements and variable pairs from a query result.
//! A `Publish` producer expects one measure object, or an array of
//! measure objects; a `StoreVariable` producer expects a flat object of
//! string values.  Any other shape is a shape mismatch, which the caller
//! treats as a recoverable per-fire failure.
use vstd::prelude::*;

use crate::query::{EvalFault, JsonValue, Query};
use crate::varstore::pairs_view;
use crate::FireError;
use crate::VarPairs;

verus! {

/// One extracted measurement group: a measure name together with its
/// description/value points.  A value is the IEEE-754 bit pattern of the
/// number in the document.
#[derive(Debug, PartialEq, Eq)]
pub struct MeasureGroup {
    pub measure_name: String,
    pub measure_data: Vec<(String, u64)>,
}

/// The mathematical content of a measurement group.
#[verifier::ext_equal]
pub ghost struct GroupView {
    pub measure_name: Seq<char>,
    pub measure_data: Seq<(Seq<char>, u64)>,
}

impl View for MeasureGroup {
    type V = GroupView;

    open spec fn view(&self) -> GroupView {
        GroupView {
            measure_name: self.measure_name@,
            measure_data: self.measure_data@.map_values(|p: (String, u64)| (p.0@, p.1)),
        }
    }
}

/// The views of a sequence of groups.
pub open spec fn groups_view(gs: Seq<MeasureGroup>) -> Seq<GroupView> {
    gs.map_values(|g: MeasureGroup| g@)
}

/// The first field of `fields` named `key`, searching from position `i`.
pub open spec fn field_lookup_from(
    fields: Seq<(String, JsonValue)>,
    key: Seq<char>,
    i: int,
) -> Option<JsonValue>
    decreases fields.len() - i,
{
    if i < 0 || i >= fields.len() {
        None
    } else if fields[i].0@ == key {
        Some(fields[i].1)
    } else {
        field_lookup_from(fields, key, i + 1)
    }
}

/// The first field of `fields` named `key`.
pub open spec fn field_lookup(fields: Seq<(String, JsonValue)>, key: Seq<char>) -> Option<
    JsonValue,
> {
    field_lookup_from(fields, key, 0)
}

/// The looked-up field, or null when absent.
pub open spec fn field_or_null(fields: Seq<(String, JsonValue)>, key: Seq<char>) -> JsonValue {
    match field_lookup(fields, key) {
        Some(v) => v,
        None => JsonValue::Null,
    }
}

/// The fields of an object value; empty for any other shape.
pub open spec fn object_fields(v: JsonValue) -> Seq<(String, JsonValue)> {
    match v {
        JsonValue::Object(fields) => fields@,
        _ => Seq::empty(),
    }
}

/// The characters of a text value; empty for any other shape.
pub open spec fn text_chars(v: JsonValue) -> Seq<char> {
    match v {
        JsonValue::Text(s) => s@,
        _ => Seq::empty(),
    }
}

/// The bit pattern of a number value; zero for any other shape.
pub open spec fn number_bits(v: JsonValue) -> u64 {
    match v {
        JsonValue::Number(bits) => bits,
        _ => 0,
    }
}

/// `v` is an object with a text `measure_name` field and a `measure_data`
/// object whose values are all numbers.
pub open spec fn is_measure_object(v: JsonValue) -> bool {
    &&& v is Object
    &&& field_lookup(object_fields(v), "measure_name"@) matches Some(n) && n is Text
    &&& field_lookup(object_fields(v), "measure_data"@) matches Some(d) && d is Object
    &&& forall|k: int|
        0 <= k < object_fields(field_or_null(object_fields(v), "measure_data"@)).len()
            ==> #[trigger] object_fields(field_or_null(object_fields(v), "measure_data"@))[k].1
            is Number
}

/// The group extracted from a measure object.
pub open spec fn group_view_of(v: JsonValue) -> GroupView {
    let data = object_fields(field_or_null(object_fields(v), "measure_data"@));
    GroupView {
        measure_name: text_chars(field_or_null(object_fields(v), "measure_name"@)),
        measure_data: Seq::new(data.len(), |k: int| (data[k].0@, number_bits(data[k].1))),
    }
}

/// What measurement extraction yields for a query result value: one group
/// for a measure object, one group per element for an array of measure
/// objects, and a shape mismatch for everything else.
pub open spec fn extract_groups_spec(v: JsonValue) -> Result<Seq<GroupView>, FireError> {
    match v {
        JsonValue::Object(_) => {
            if is_measure_object(v) {
                Ok(seq![group_view_of(v)])
            } else {
                Err(FireError::ShapeMismatch)
            }
        },
        JsonValue::Array(elems) => {
            if forall|k: int| 0 <= k < elems@.len() ==> is_measure_object(#[trigger] elems@[k]) {
                Ok(Seq::new(elems@.len(), |k: int| group_view_of(elems@[k])))
            } else {
                Err(FireError::ShapeMismatch)
            }
        },
        _ => Err(FireError::ShapeMismatch),
    }
}

/// What pair extraction yields for a query result value: the fields of a
/// flat object of string values, in field order, and a shape mismatch for
/// everything else.
pub open spec fn extract_pairs_spec(v: JsonValue) -> Result<
    Seq<(Seq<char>, Seq<char>)>,
    FireError,
> {
    match v {
        JsonValue::Object(fields) => {
            if forall|k: int| 0 <= k < fields@.len() ==> #[trigger] fields@[k].1 is Text {
                Ok(Seq::new(fields@.len(), |k: int| (fields@[k].0@, text_chars(fields@[k].1))))
            } else {
                Err(FireError::ShapeMismatch)
            }
        },
        _ => Err(FireError::ShapeMismatch),
    }
}

/// The error a failed evaluation turns into: a document that does not
/// parse is a parse failure, a query that does not evaluate is a query
/// failure.
pub open spec fn fault_error(f: EvalFault) -> FireError {
    match f {
        EvalFault::Document => FireError::Parse,
        EvalFault::Evaluation => FireError::Query,
    }
}

/// What measurement extraction yields for a whole evaluation outcome.
pub open spec fn groups_result_of(outcome: Result<JsonValue, EvalFault>) -> Result<
    Seq<GroupView>,
    FireError,
> {
    match outcome {
        Ok(v) => extract_groups_spec(v),
        Err(f) => Err(fault_error(f)),
    }
}

/// What pair extraction yields for a whole evaluation outcome.
pub open spec fn pairs_result_of(outcome: Result<JsonValue, EvalFault>) -> Result<
    Seq<(Seq<char>, Seq<char>)>,
    FireError,
> {
    match outcome {
        Ok(v) => extract_pairs_spec(v),
        Err(f) => Err(fault_error(f)),
    }
}

/// A reference to the first field of `fields` named `key`.
fn get_field<'a>(fields: &'a Vec<(String, JsonValue)>, key: &str) -> (r: Option<&'a JsonValue>)
    ensures
        match r {
            Some(v) => field_lookup(fields@, key@) == Some(*v),
            None => field_lookup(fields@, key@) is None,
        },
{
    let wanted: String = key.to_owned();
    let n = fields.len();
    for i in 0..n
        invariant
            n == fields@.len(),
            wanted@ == key@,
            field_lookup(fields@, key@) == field_lookup_from(fields@, key@, i as int),
    {
        if fields[i].0 == wanted {
            return Some(&fields[i].1);
        }
    }
    None
}

/// Extracts one measurement group from a measure object.
pub fn parse_one_measure(result: &JsonValue) -> (r: Result<MeasureGroup, FireError>)
    ensures
        match r {
            Ok(g) => is_measure_object(*result) && g@ == group_view_of(*result),
            Err(e) => !is_measure_object(*result) && e == FireError::ShapeMismatch,
        },
{
    let fields = match result {
        JsonValue::Object(fields) => fields,
        _ => {
            return Err(FireError::ShapeMismatch);
        },
    };
    let measure_name = match get_field(fields, "measure_name") {
        Some(JsonValue::Text(name)) => name.clone(),
        _ => {
            return Err(FireError::ShapeMismatch);
        },
    };
    let data = match get_field(fields, "measure_data") {
        Some(JsonValue::Object(data)) => data,
        _ => {
            return Err(FireError::ShapeMismatch);
        },
    };
    proof {
        assert(object_fields(field_or_null(object_fields(*result), "measure_data"@)) == data@);
    }
    let mut measure_data: Vec<(String, u64)> = Vec::new();
    let n = data.len();
    for k in 0..n
        invariant
            n == data@.len(),
            measure_data@.len() == k as nat,
            object_fields(field_or_null(object_fields(*result), "measure_data"@)) == data@,
            forall|p: int| 0 <= p < k ==> #[trigger] data@[p].1 is Number,
            forall|p: int|
                0 <= p < k ==> (#[trigger] measure_data@[p]).0@ == data@[p].0@
                    && measure_data@[p].1 == number_bits(data@[p].1),
    {
        match &data[k].1 {
            JsonValue::Number(bits) => {
                measure_data.push((data[k].0.clone(), *bits));
            },
            _ => {
                proof {
                    assert(object_fields(
                        field_or_null(object_fields(*result), "measure_data"@),
                    )[k as int].1 == data@[k as int].1);
                    assert(!is_measure_object(*result));
                }
                return Err(FireError::ShapeMismatch);
            },
        }
    }
    let group = MeasureGroup { measure_name, measure_data };
    proof {
        assert(is_measure_object(*result));
        let md = group@.measure_data;
        let gv = group_view_of(*result).measure_data;
        assert forall|p: int| 0 <= p < md.len() implies md[p] == gv[p] by {
            assert(measure_data@[p].0@ == data@[p].0@);
        }
        assert(md =~~= gv);
        assert(group@ =~~= group_view_of(*result));
    }
    Ok(group)
}

/// Extracts the measurement groups from a query result value.
pub fn extract_groups(result: &JsonValue) -> (r: Result<Vec<MeasureGroup>, FireError>)
    ensures
        match r {
            Ok(gs) => extract_groups_spec(*result) == Ok::<Seq<GroupView>, FireError>(groups_view(gs@)),
            Err(e) => extract_groups_spec(*result) == Err::<Seq<GroupView>, FireError>(e),
        },
{
    match result {
        JsonValue::Object(_) => {
            let group = parse_one_measure(result)?;
            let mut out: Vec<MeasureGroup> = Vec::new();
            out.push(group);
            proof {
                assert(groups_view(out@) =~~= seq![group_view_of(*result)]);
                assert(extract_groups_spec(*result) == Ok::<Seq<GroupView>, FireError>(
                    groups_view(out@),
                ));
            }
            Ok(out)
        },
        JsonValue::Array(elems) => {
            let mut out: Vec<MeasureGroup> = Vec::new();
            let n = elems.len();
            for k in 0..n
                invariant
                    n == elems@.len(),
                    out@.len() == k as nat,
                    *result == JsonValue::Array(*elems),
                    forall|p: int| 0 <= p < k ==> is_measure_object(#[trigger] elems@[p]),
                    forall|p: int|
                        0 <= p < k ==> (#[trigger] out@[p])@ == group_view_of(elems@[p]),
            {
                let group = parse_one_measure(&elems[k])?;
                out.push(group);
            }
            proof {
                let gs = groups_view(out@);
                let vs = Seq::new(elems@.len(), |p: int| group_view_of(elems@[p]));
                assert forall|p: int| 0 <= p < gs.len() implies gs[p] == vs[p] by {
                    assert(out@[p]@ == group_view_of(elems@[p]));
                }
                assert(gs =~~= vs);
            }
            Ok(out)
        },
        _ => Err(FireError::ShapeMismatch),
    }
}

/// Extracts name/value pairs from a query result value.
pub fn extract_pairs(result: &JsonValue) -> (r: Result<VarPairs, FireError>)
    ensures
        match r {
            Ok(ps) => extract_pairs_spec(*result) == Ok::<Seq<(Seq<char>, Seq<char>)>, FireError>(pairs_view(ps@)),
            Err(e) => extract_pairs_spec(*result) == Err::<Seq<(Seq<char>, Seq<char>)>, FireError>(
                e,
            ),
        },
{
    let fields = match result {
        JsonValue::Object(fields) => fields,
        _ => {
            return Err(FireError::ShapeMismatch);
        },
    };
    let mut out: VarPairs = Vec::new();
    let n = fields.len();
    for k in 0..n
        invariant
            n == fields@.len(),
            out@.len() == k as nat,
            *result == JsonValue::Object(*fields),
            forall|p: int| 0 <= p < k ==> #[trigger] fields@[p].1 is Text,
            forall|p: int|
                0 <= p < k ==> (#[trigger] out@[p]).0@ == fields@[p].0@ && out@[p].1@
                    == text_chars(fields@[p].1),
    {
        match &fields[k].1 {
            JsonValue::Text(value) => {
                out.push((fields[k].0.clone(), value.clone()));
            },
            _ => {
                return Err(FireError::ShapeMismatch);
            },
        }
    }
    proof {
        let ps = pairs_view(out@);
        let vs = Seq::new(fields@.len(), |p: int| (fields@[p].0@, text_chars(fields@[p].1)));
        assert forall|p: int| 0 <= p < ps.len() implies ps[p] == vs[p] by {
            assert(out@[p].0@ == fields@[p].0@);
        }
        assert(ps =~~= vs);
    }
    Ok(out)
}

/// Evaluates the query against the response and extracts the measurement
/// groups: one group for a measure object result, one group per element
/// for an array result.
pub fn parse_json_data(translation: &Query, json_response: &str) -> (r: Result<
    Vec<MeasureGroup>,
    FireError,
>)
    ensures
        match r {
            Ok(gs) => groups_result_of(crate::query::query_value(translation@, json_response@))
                == Ok::<Seq<GroupView>, FireError>(groups_view(gs@)),
            Err(e) => groups_result_of(crate::query::query_value(translation@, json_response@))
                == Err::<Seq<GroupView>, FireError>(e),
        },
{
    match translation.eval(json_response) {
        Ok(value) => extract_groups(&value),
        Err(EvalFault::Document) => Err(FireError::Parse),
        Err(EvalFault::Evaluation) => Err(FireError::Query),
    }
}

/// Evaluates the query against the response and extracts name/value pairs
/// from the flat object result.
pub fn parse_json_pair(translation: &Query, json_response: &str) -> (r: Result<
    VarPairs,
    FireError,
>)
    ensures
        match r {
            Ok(ps) => pairs_result_of(crate::query::query_value(translation@, json_response@))
                == Ok::<Seq<(Seq<char>, Seq<char>)>, FireError>(pairs_view(ps@)),
            Err(e) => pairs_result_of(crate::query::query_value(translation@, json_response@))
                == Err::<Seq<(Seq<char>, Seq<char>)>, FireError>(e),
        },
{
    match translation.eval(json_response) {
        Ok(value) => extract_pairs(&value),
        Err(EvalFault::Document) => Err(FireError::Parse),
        Err(EvalFault::Evaluation) => Err(FireError::Query),
    }
}

/// Evaluates the query against the response and extracts the measurement
/// groups (the same contract as [`parse_json_data`]).
pub fn parse_json(translation: &Query, json_response: &str) -> (r: Result<
    Vec<MeasureGroup>,
    FireError,
>)
    ensures
        match r {
            Ok(gs) => groups_result_of(crate::query::query_value(translation@, json_response@))
                == Ok::<Seq<GroupView>, FireError>(groups_view(gs@)),
            Err(e) => groups_result_of(crate::query::query_value(translation@, json_response@))
                == Err::<Seq<GroupView>, FireError>(e),
        },
{
    parse_json_data(translation, json_response)
}

} // verus!


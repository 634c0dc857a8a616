use vstd::prelude::*;

verus! {

use crate::value::{ContextValue, ValueModel};

/// What serde_yaml parses a text to, in the library's model; `None` when
/// the text is not valid YAML. Parsing is a function of the text alone.
pub uninterp spec fn yaml_value_of(s: Seq<char>) -> Option<ValueModel>;

/// Rebuilds a value serde_yaml parsed in the library's own representation,
/// variant by variant; a tagged value is carried through whole. Called
/// only by `parse_yaml_text` below.
#[verifier::external_body]
fn yaml_to_context(v: serde_yaml::Value) -> ContextValue {
    match v {
        serde_yaml::Value::Null => ContextValue::Null,
        serde_yaml::Value::Bool(b) => ContextValue::Bool(b),
        serde_yaml::Value::Number(n) => ContextValue::Number(n),
        serde_yaml::Value::String(s) => ContextValue::Str(s),
        serde_yaml::Value::Sequence(xs) => ContextValue::Sequence(
            xs.into_iter().map(yaml_to_context).collect(),
        ),
        serde_yaml::Value::Mapping(m) => ContextValue::Mapping(
            m.into_iter().map(|(k, w)| (yaml_to_context(k), yaml_to_context(w))).collect(),
        ),
        tagged => ContextValue::Tagged(tagged),
    }
}

/// Relies on serde_yaml::from_str: whether a text parses, and to what
/// value, depends on the text alone; the text `null` parses to the null
/// value.
#[verifier::external_body]
pub(crate) fn parse_yaml_text(s: &str) -> (r: Result<ContextValue, String>)
    ensures
        r is Ok <==> yaml_value_of(s@) is Some,
        r is Ok ==> r->Ok_0@ == yaml_value_of(s@)->0,
        s@ == "null"@ ==> r is Ok && r->Ok_0@ == ValueModel::Null,
{
    match serde_yaml::from_str::<serde_yaml::Value>(s) {
        Ok(v) => Ok(yaml_to_context(v)),
        Err(e) => Err(e.to_string()),
    }
}

} // verus!

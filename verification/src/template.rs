use vstd::prelude::*;

verus! {

use crate::value::{ContextValue, ValueModel};

/// handlebars' compiled template type, kept opaque: the library only
/// carries a compiled template to hand it back to handlebars.
#[verifier::external_type_specification]
#[verifier::external_body]
pub struct ExTemplate(handlebars::Template);

/// Whether handlebars accepts a template text; compilation is a function
/// of the text alone.
pub uninterp spec fn template_compiles(s: Seq<char>) -> bool;

/// Relies on handlebars::Template::compile: success depends on the
/// template text alone.
#[verifier::external_body]
pub(crate) fn compile_template(s: &str) -> (r: Result<handlebars::Template, String>)
    ensures
        r is Ok <==> template_compiles(s@),
{
    match handlebars::Template::compile(s) {
        Ok(t) => Ok(t),
        Err(e) => Err(e.to_string()),
    }
}

/// What handlebars renders a template to against an evaluated context;
/// `None` when compilation or rendering fails. With only the built-in
/// helpers registered the output depends on the text and the data alone.
pub uninterp spec fn rendered_of(tpl: Seq<char>, ctx: ValueModel) -> Option<Seq<char>>;

/// Rebuilds a context value as the serde_yaml value it came from, variant
/// by variant; called only by `render_text` below.
#[verifier::external_body]
fn context_to_yaml(v: &ContextValue) -> serde_yaml::Value {
    match v {
        ContextValue::Null => serde_yaml::Value::Null,
        ContextValue::Bool(b) => serde_yaml::Value::Bool(*b),
        ContextValue::Number(n) => serde_yaml::Value::Number(n.clone()),
        ContextValue::Str(s) => serde_yaml::Value::String(s.clone()),
        ContextValue::Sequence(xs) => serde_yaml::Value::Sequence(
            xs.iter().map(context_to_yaml).collect(),
        ),
        ContextValue::Mapping(es) => serde_yaml::Value::Mapping(
            es.iter().map(|(k, w)| (context_to_yaml(k), context_to_yaml(w))).collect(),
        ),
        ContextValue::Tagged(raw) => raw.clone(),
    }
}

/// Relies on handlebars::Handlebars::render_template: with a fresh
/// registry, holding only the built-in helpers, the output depends on the
/// template text and the data alone.
#[verifier::external_body]
pub(crate) fn render_text(tpl: &str, ctx: &ContextValue) -> (r: Result<String, String>)
    ensures
        r is Ok <==> rendered_of(tpl@, ctx@) is Some,
        r is Ok ==> r->Ok_0@ == rendered_of(tpl@, ctx@)->0,
{
    let data = context_to_yaml(ctx);
    let hbs = handlebars::Handlebars::new();
    match hbs.render_template(tpl, &data) {
        Ok(s) => Ok(s),
        Err(e) => Err(e.to_string()),
    }
}

} // verus!

pub mod error;
pub mod evaluate_context;
pub mod extract_blocks;
pub mod source;
pub mod template;
pub mod value;
pub mod yaml;

use vstd::prelude::*;

verus! {

use crate::error::{error_matches, Error, ErrorModel};
use crate::evaluate_context::{evaluate_context, script_sources, str_views};
use crate::extract_blocks::{extract_blocks, extract_spec, opt_view};
use crate::template::{compile_template, render_text, rendered_of, template_compiles};
use crate::value::{chomp_spec, scripts_of, substituted, ContextValue, ValueModel};
use crate::yaml::{parse_yaml_text, yaml_value_of};

/// A string with at most one trailing newline removed; used both when a
/// script's captured output becomes a context value and when text is
/// embedded in an error message.
pub fn chomp(s: &str) -> (r: &str)
    ensures
        r@ == chomp_spec(s@),
{
    let n = s.unicode_len();
    if n > 0 && s.get_char(n - 1) == '\n' {
        s.substring_char(0, n - 1)
    } else {
        s
    }
}

pub open spec fn opt_text(src: Option<&String>) -> Option<Seq<char>> {
    match src {
        Some(s) => Some(s@),
        None => None,
    }
}

/// What parsing the context region yields: an absent region is the null
/// value, not a failure; a present one is handed to the YAML parser.
pub open spec fn parse_context_spec(src: Option<Seq<char>>) -> Result<ValueModel, ErrorModel> {
    match src {
        None => Ok(ValueModel::Null),
        Some(t) => match yaml_value_of(t) {
            Some(v) => Ok(v),
            None => Err(ErrorModel::YamlParse { context: t }),
        },
    }
}

/// Parse the context region; an absent region is a null context.
pub fn parse_context(src: Option<&String>) -> (r: Result<ContextValue, Error>)
    ensures
        r is Ok <==> parse_context_spec(opt_text(src)) is Ok,
        r is Ok ==> r->Ok_0@ == parse_context_spec(opt_text(src))->Ok_0,
        r is Err ==> error_matches(r->Err_0, parse_context_spec(opt_text(src))->Err_0),
{
    match src {
        Some(s) => match parse_yaml_text(s.as_str()) {
            Ok(v) => Ok(v),
            Err(cause) => Err(Error::YamlParse { context: s.clone(), cause }),
        },
        None => Ok(ContextValue::Null),
    }
}

/// Demand and compile the template region: an absent region is a failure
/// carrying a usage example, an unacceptable one carries the engine's
/// diagnostic.
pub fn parse_template(src: Option<&String>) -> (r: Result<handlebars::Template, Error>)
    ensures
        src is None ==> r is Err && r->Err_0 is MissingTemplate,
        src is Some ==> {
            &&& (r is Ok <==> template_compiles(opt_text(src)->0))
            &&& (r is Err ==> r->Err_0 is TemplateCompile)
        },
{
    match src {
        None => Err(Error::MissingTemplate),
        Some(s) => match compile_template(s.as_str()) {
            Ok(t) => Ok(t),
            Err(cause) => Err(Error::TemplateCompile { cause }),
        },
    }
}

/// The determined part of a plan: the parsed context, its scripts in
/// evaluation order, and the template text when one was given.
pub struct PlanModel {
    pub context: ValueModel,
    pub scripts: Seq<Seq<char>>,
    pub template: Option<Seq<char>>,
}

/// Everything a run needs once the document is read and before the shell
/// runs: the parsed context, the scripts to run in order, and the template
/// text when one was given.
pub struct Plan {
    context: ContextValue,
    scripts: Vec<String>,
    template: Option<String>,
}

impl View for Plan {
    type V = PlanModel;

    closed spec fn view(&self) -> PlanModel {
        PlanModel {
            context: self.context@,
            scripts: str_views(self.scripts@),
            template: opt_view(self.template),
        }
    }
}

impl Plan {
    #[verifier::type_invariant]
    spec fn scripts_are_of_context(self) -> bool {
        str_views(self.scripts@) == scripts_of(self.context@)
    }

    /// The shell scripts this plan asks to run, in evaluation order.
    pub fn scripts(&self) -> (r: &Vec<String>)
        ensures
            str_views(r@) == self@.scripts,
    {
        &self.scripts
    }

    /// The parsed, not yet evaluated, context.
    pub fn context(&self) -> (r: &ContextValue)
        ensures
            r@ == self@.context,
    {
        &self.context
    }

    /// The template text, if a template block was present.
    pub fn template(&self) -> (r: Option<&String>)
        ensures
            opt_text(r) == self@.template,
    {
        self.template.as_ref()
    }
}

/// What preparing a document yields: its blocks, the parsed context, and
/// the scripts the context asks to run.
pub open spec fn prepare_spec(doc: Seq<char>) -> Result<PlanModel, ErrorModel> {
    match extract_spec(doc) {
        Err(e) => Err(e),
        Ok(reg) => match parse_context_spec(reg.context) {
            Err(e) => Err(e),
            Ok(ctx) => Ok(PlanModel {
                context: ctx,
                scripts: scripts_of(ctx),
                template: reg.template,
            }),
        },
    }
}

/// Read a document into a plan: extract its blocks, parse the context
/// region - an absent one is null - and list the scripts to run. The
/// template's presence is checked only at `render`: scripts run first.
pub fn prepare(doc: &str) -> (r: Result<Plan, Error>)
    ensures
        r is Ok <==> prepare_spec(doc@) is Ok,
        r is Ok ==> r->Ok_0@ == prepare_spec(doc@)->Ok_0,
        r is Err ==> error_matches(r->Err_0, prepare_spec(doc@)->Err_0),
{
    let registry = match extract_blocks(doc) {
        Ok(r) => r,
        Err(e) => return Err(e),
    };
    let ctx = match parse_context(registry.context()) {
        Ok(c) => c,
        Err(e) => return Err(e),
    };
    let scripts = script_sources(&ctx);
    let template = match registry.template() {
        Some(t) => Some(t.clone()),
        None => None,
    };
    Ok(Plan { context: ctx, scripts, template })
}

/// What finishing a run yields: the context with its script outputs
/// substituted in, rendered through the template; without a template
/// nothing can be rendered.
pub open spec fn render_spec(plan: PlanModel, outs: Seq<Seq<char>>) -> Result<Seq<char>, ErrorModel> {
    let evaluated = substituted(plan.context, outs);
    match plan.template {
        None => Err(ErrorModel::MissingTemplate),
        Some(t) => if !template_compiles(t) {
            Err(ErrorModel::TemplateCompile)
        } else {
            match rendered_of(t, evaluated) {
                Some(o) => Ok(o),
                None => Err(ErrorModel::Render),
            }
        },
    }
}

/// Finish a run: substitute the raw script outputs - one per script of the
/// plan, in order - into the context, then demand, compile and render the
/// template.
pub fn render(plan: Plan, outputs: &Vec<String>) -> (r: Result<String, Error>)
    requires
        plan@.scripts.len() == outputs@.len(),
    ensures
        r is Ok <==> render_spec(plan@, str_views(outputs@)) is Ok,
        r is Ok ==> r->Ok_0@ == render_spec(plan@, str_views(outputs@))->Ok_0,
        r is Err ==> error_matches(r->Err_0, render_spec(plan@, str_views(outputs@))->Err_0),
{
    proof {
        use_type_invariant(&plan);
    }
    let Plan { context, scripts: _, template } = plan;
    let evaluated = evaluate_context(context, outputs);
    match parse_template(template.as_ref()) {
        Ok(_compiled) => {
            let tpl = template.unwrap();
            match render_text(tpl.as_str(), &evaluated) {
                Ok(out) => Ok(out),
                Err(cause) => Err(Error::Render { cause }),
            }
        }
        Err(e) => Err(e),
    }
}

/// The whole pipeline as a function of the document and the script
/// outputs: what a run returns when every script succeeds.
pub open spec fn pipeline_spec(doc: Seq<char>, outs: Seq<Seq<char>>) -> Result<Seq<char>, ErrorModel> {
    match prepare_spec(doc) {
        Err(e) => Err(e),
        Ok(plan) => render_spec(plan, outs),
    }
}

/// The pipeline is deterministic: run twice over one document with the
/// same script outputs - as side-effect-free scripts give - it returns
/// byte-identical results.
pub proof fn lemma_pipeline_deterministic(doc: Seq<char>, outs1: Seq<Seq<char>>, outs2: Seq<Seq<char>>)
    requires
        outs1 == outs2,
    ensures
        pipeline_spec(doc, outs1) == pipeline_spec(doc, outs2),
{
}

/// Without a template block a run fails with the missing-template error,
/// whatever the context held - even none at all.
pub proof fn lemma_missing_template_fails(plan: PlanModel, outs: Seq<Seq<char>>)
    requires
        plan.template is None,
    ensures
        render_spec(plan, outs) == Err::<Seq<char>, ErrorModel>(ErrorModel::MissingTemplate),
{
}

/// A document whose extraction gives no context block gets the null
/// context: no script to run, nothing for evaluation to fail on.
pub proof fn lemma_absent_context_is_null(doc: Seq<char>)
    requires
        extract_spec(doc) is Ok,
        extract_spec(doc)->Ok_0.context is None,
    ensures
        prepare_spec(doc) is Ok,
        prepare_spec(doc)->Ok_0.context == ValueModel::Null,
        prepare_spec(doc)->Ok_0.scripts == Seq::<Seq<char>>::empty(),
{
    assert(scripts_of(ValueModel::Null) =~= Seq::<Seq<char>>::empty());
}

} // verus!

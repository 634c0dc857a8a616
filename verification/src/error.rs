use vstd::prelude::*;

verus! {

use crate::value::chomp_spec;
use crate::chomp;

/// A pipeline failure: a kind tag with the data each stage attaches.
/// Fields named `cause` carry an underlying collaborator's diagnostic.
#[derive(Debug)]
pub enum Error {
    UnknownBlockName { name: String, line: usize },
    DuplicateBlockName { name: String, line: usize },
    YamlParse { context: String, cause: String },
    MissingTemplate,
    TemplateCompile { cause: String },
    ScriptFailure { script: String, stdout: String, stderr: String, cause: String },
    Render { cause: String },
}

/// The determined part of a failure: its kind, and those fields that are a
/// function of the document alone. Diagnostics produced by the YAML parser,
/// the template engine or the shell are left open.
pub enum ErrorModel {
    UnknownBlockName { name: Seq<char>, line: nat },
    DuplicateBlockName { name: Seq<char>, line: nat },
    YamlParse { context: Seq<char> },
    MissingTemplate,
    TemplateCompile,
    ScriptFailure,
    Render,
}

pub open spec fn error_matches(e: Error, m: ErrorModel) -> bool {
    match m {
        ErrorModel::UnknownBlockName { name, line } => e matches Error::UnknownBlockName {
            name: n2,
            line: l2,
        } && n2@ == name && l2 as nat == line,
        ErrorModel::DuplicateBlockName { name, line } => e matches Error::DuplicateBlockName {
            name: n2,
            line: l2,
        } && n2@ == name && l2 as nat == line,
        ErrorModel::YamlParse { context } => e matches Error::YamlParse { context: c2, .. }
            && c2@ == context,
        ErrorModel::MissingTemplate => e is MissingTemplate,
        ErrorModel::TemplateCompile => e is TemplateCompile,
        ErrorModel::ScriptFailure => e is ScriptFailure,
        ErrorModel::Render => e is Render,
    }
}

pub open spec fn decimal_digit(d: nat) -> char {
    if d == 0 { '0' }
    else if d == 1 { '1' }
    else if d == 2 { '2' }
    else if d == 3 { '3' }
    else if d == 4 { '4' }
    else if d == 5 { '5' }
    else if d == 6 { '6' }
    else if d == 7 { '7' }
    else if d == 8 { '8' }
    else { '9' }
}

/// The usual decimal writing of `n`, most significant digit first, with no
/// leading zero except for `n == 0` itself.
pub open spec fn decimal_spec(n: nat) -> Seq<char>
    decreases n,
{
    if n < 10 {
        seq![decimal_digit(n)]
    } else {
        decimal_spec(n / 10).push(decimal_digit(n % 10))
    }
}

fn digit_str(d: usize) -> (r: &'static str)
    requires
        d < 10,
    ensures
        r@ == seq![decimal_digit(d as nat)],
{
    let r: &'static str = match d {
        0 => "0",
        1 => "1",
        2 => "2",
        3 => "3",
        4 => "4",
        5 => "5",
        6 => "6",
        7 => "7",
        8 => "8",
        _ => "9",
    };
    proof {
        reveal_strlit("0");
        reveal_strlit("1");
        reveal_strlit("2");
        reveal_strlit("3");
        reveal_strlit("4");
        reveal_strlit("5");
        reveal_strlit("6");
        reveal_strlit("7");
        reveal_strlit("8");
        reveal_strlit("9");
        assert(r@ =~= seq![decimal_digit(d as nat)]);
    }
    r
}

/// `n` written in decimal.
pub fn decimal_string(n: usize) -> (r: String)
    ensures
        r@ == decimal_spec(n as nat),
    decreases n,
{
    if n < 10 {
        digit_str(n).to_owned()
    } else {
        let mut s = decimal_string(n / 10);
        s.append(digit_str(n % 10));
        proof {
            assert(decimal_spec((n / 10) as nat) + seq![decimal_digit((n % 10) as nat)]
                =~= decimal_spec((n / 10) as nat).push(decimal_digit((n % 10) as nat)));
        }
        s
    }
}

impl Error {
    /// The text a user is shown for this failure; underlying diagnostics
    /// reachable through `cause` are not part of it.
    pub open spec fn message_spec(&self) -> Seq<char> {
        match self {
            Error::UnknownBlockName { name, line } => "unknown block name `"@ + name@ + "` at line "@
                + decimal_spec(*line as nat),
            Error::DuplicateBlockName { name, line } => "duplicate block name `"@ + name@
                + "` at line "@ + decimal_spec(*line as nat),
            Error::YamlParse { context, .. } => "error while parsing context as YAML\n\n--- context ---\n"@
                + chomp_spec(context@),
            Error::MissingTemplate => "no template block found\n\nExample:\n\n    --- context ---\n    to: echo world\n\n    --- template ---\n    hello, {{to}}"@,
            Error::TemplateCompile { cause } => cause@,
            Error::ScriptFailure { script, stdout, stderr, .. } => "failed to execute script\n\n---- script ----\n"@
                + chomp_spec(script@) + "\n\n---- stdout ----\n"@ + chomp_spec(stdout@)
                + "\n\n---- stderr ----\n"@ + chomp_spec(stderr@),
            Error::Render { cause } => cause@,
        }
    }

    pub fn message(&self) -> (r: String)
        ensures
            r@ == self.message_spec(),
    {
        match self {
            Error::UnknownBlockName { name, line } => {
                let mut s = String::from_str("unknown block name `");
                s.append(name.as_str());
                s.append("` at line ");
                let num = decimal_string(*line);
                s.append(num.as_str());
                s
            }
            Error::DuplicateBlockName { name, line } => {
                let mut s = String::from_str("duplicate block name `");
                s.append(name.as_str());
                s.append("` at line ");
                let num = decimal_string(*line);
                s.append(num.as_str());
                s
            }
            Error::YamlParse { context, .. } => {
                let mut s = String::from_str("error while parsing context as YAML\n\n--- context ---\n");
                s.append(chomp(context.as_str()));
                s
            }
            Error::MissingTemplate => {
                String::from_str("no template block found\n\nExample:\n\n    --- context ---\n    to: echo world\n\n    --- template ---\n    hello, {{to}}")
            }
            Error::TemplateCompile { cause } => cause.clone(),
            Error::ScriptFailure { script, stdout, stderr, .. } => {
                let mut s = String::from_str("failed to execute script\n\n---- script ----\n");
                s.append(chomp(script.as_str()));
                s.append("\n\n---- stdout ----\n");
                s.append(chomp(stdout.as_str()));
                s.append("\n\n---- stderr ----\n");
                s.append(chomp(stderr.as_str()));
                s
            }
            Error::Render { cause } => cause.clone(),
        }
    }

    /// The underlying diagnostic behind this failure, for the kinds that
    /// wrap one; the other kinds carry their whole story in `message`.
    pub fn cause(&self) -> (r: Option<&String>)
        ensures
            match self {
                Error::YamlParse { cause, .. } => r == Some(cause),
                Error::ScriptFailure { cause, .. } => r == Some(cause),
                _ => r is None,
            },
    {
        match self {
            Error::YamlParse { cause, .. } => Some(cause),
            Error::ScriptFailure { cause, .. } => Some(cause),
            _ => None,
        }
    }
}

} // verus!

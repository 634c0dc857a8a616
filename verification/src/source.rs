use vstd::prelude::*;

verus! {

use crate::error::{error_matches, Error, ErrorModel};
use crate::extract_blocks::opt_view;
use crate::template::{compile_template, template_compiles};
use crate::value::ContextValue;
use crate::yaml::{parse_yaml_text, yaml_value_of};

// --- Searching for a separator line ----------------------------------------

/// The first position where `pat` occurs in `s`.
pub open spec fn first_match(s: Seq<char>, pat: Seq<char>) -> Option<int>
    decreases s.len(),
{
    if s.len() < pat.len() {
        None
    } else if s.take(pat.len() as int) == pat {
        Some(0int)
    } else if s.len() == 0 {
        None
    } else {
        match first_match(s.drop_first(), pat) {
            Some(i) => Some(i + 1),
            None => None,
        }
    }
}

pub proof fn lemma_first_match(s: Seq<char>, pat: Seq<char>)
    ensures
        match first_match(s, pat) {
            Some(i) => 0 <= i && i + pat.len() <= s.len() && s.subrange(i, i + pat.len()) == pat
                && (forall|j: int| 0 <= j < i ==> #[trigger] s.subrange(j, j + pat.len()) != pat),
            None => forall|j: int| 0 <= j && j + pat.len() <= s.len() ==> #[trigger] s.subrange(
                j,
                j + pat.len(),
            ) != pat,
        },
    decreases s.len(),
{
    if s.len() >= pat.len() && s.take(pat.len() as int) != pat && s.len() > 0 {
        lemma_first_match(s.drop_first(), pat);
        assert(s.subrange(0, pat.len() as int) == s.take(pat.len() as int));
        match first_match(s.drop_first(), pat) {
            Some(i) => {
                assert(s.drop_first().subrange(i, i + pat.len()) =~= s.subrange(
                    i + 1,
                    i + 1 + pat.len(),
                ));
                assert forall|j: int| 0 <= j < i + 1 implies #[trigger] s.subrange(j, j + pat.len()) != pat by {
                    if j > 0 {
                        assert(s.drop_first().subrange(j - 1, j - 1 + pat.len()) =~= s.subrange(
                            j,
                            j + pat.len(),
                        ));
                    }
                }
            }
            None => {
                assert forall|j: int| 0 <= j && j + pat.len() <= s.len() implies #[trigger] s.subrange(
                    j,
                    j + pat.len(),
                ) != pat by {
                    if j > 0 {
                        assert(s.drop_first().subrange(j - 1, j - 1 + pat.len()) =~= s.subrange(
                            j,
                            j + pat.len(),
                        ));
                    }
                }
            }
        }
    }
}

/// Whether `pat` stands in `s` at position `start`.
fn matches_at(s: &str, start: usize, pat: &str) -> (r: bool)
    ensures
        r == (start + pat@.len() <= s@.len() && s@.subrange(start as int, start + pat@.len())
            == pat@),
{
    let n = s.unicode_len();
    let m = pat.unicode_len();
    if m > n || start > n - m {
        return false;
    }
    let mut j: usize = 0;
    while j < m
        invariant
            j <= m,
            m == pat@.len(),
            n == s@.len(),
            start + m <= n,
            forall|k: int| 0 <= k < j ==> s@[start + k] == pat@[k],
        decreases m - j,
    {
        if s.get_char(start + j) != pat.get_char(j) {
            proof {
                if s@.subrange(start as int, start + m) == pat@ {
                    assert(s@.subrange(start as int, start + m)[j as int] == s@[start + j]);
                    assert(false);
                }
            }
            return false;
        }
        j += 1;
    }
    proof {
        assert(s@.subrange(start as int, start + m) =~= pat@);
    }
    true
}

// --- Splitting on a separator line ------------------------------------------

/// Where `sep` stands as a whole line of `s`, the text before and after
/// it: at the very start (nothing before), at the very end (nothing
/// after), or at its first interior occurrence, the text before keeping
/// its final newline.
pub open spec fn split_line_spec(s: Seq<char>, sep: Seq<char>) -> Option<(Seq<char>, Seq<char>)> {
    if s.len() >= sep.len() + 1 && s.take(sep.len() + 1 as int) == sep.push('\n') {
        Some((Seq::empty(), s.skip(sep.len() + 1 as int)))
    } else if s.len() >= sep.len() + 1 && s.skip(s.len() - (sep.len() + 1 as int)) == seq!['\n'] + sep {
        Some((s.take(s.len() - (sep.len() + 1 as int)), Seq::empty()))
    } else {
        match first_match(s, seq!['\n'] + sep + seq!['\n']) {
            Some(i) => Some((s.take(i + 1), s.skip(i + sep.len() + 2 as int))),
            None => None,
        }
    }
}

/// Split `s` on `sep` standing as a line of its own, as the spec says.
pub fn split_line(s: &str, sep: &str) -> (r: Option<(String, String)>)
    ensures
        match r {
            Some(pair) => split_line_spec(s@, sep@) == Some((pair.0@, pair.1@)),
            None => split_line_spec(s@, sep@) is None,
        },
{
    let n = s.unicode_len();
    let m = sep.unicode_len();
    let ghost pat = seq!['\n'] + sep@ + seq!['\n'];
    // the separator opens the text
    if n > m && matches_at(s, 0, sep) && s.get_char(m) == '\n' {
        proof {
            assert(s@.subrange(0, m as int) == sep@);
            assert(s@.take(m + 1) =~= sep@.push('\n'));
        }
        proof {
            assert(s@.subrange(m + 1, n as int) =~= s@.skip(m + 1 as int));
        }
        return Some((String::new(), s.substring_char(m + 1, n).to_owned()));
    }
    proof {
        if s@.len() >= m + 1 && s@.take(m + 1) == sep@.push('\n') {
            assert(s@.subrange(0, m as int) =~= sep@.push('\n').take(m as int));
            assert(sep@.push('\n').take(m as int) =~= sep@);
            assert(s@[m as int] == sep@.push('\n')[m as int]);
            assert(false);
        }
    }
    // the separator closes the text
    if n > m && s.get_char(n - m - 1) == '\n' && matches_at(s, n - m, sep) {
        proof {
            assert(s@.subrange(n - m, n as int) == sep@);
            assert(s@.skip(n - (m + 1)) =~= seq!['\n'] + sep@);
        }
        proof {
            assert(s@.subrange(0, n - m - 1) =~= s@.take(n - (m + 1 as int)));
        }
        return Some((s.substring_char(0, n - m - 1).to_owned(), String::new()));
    }
    proof {
        if s@.len() >= m + 1 && s@.skip(s@.len() - (m + 1)) == seq!['\n'] + sep@ {
            assert(s@[n - m - 1] == s@.skip(n - (m + 1))[0]);
            assert(s@.subrange(n - m, n as int) =~= (seq!['\n'] + sep@).skip(1));
            assert((seq!['\n'] + sep@).skip(1) =~= sep@);
            assert(false);
        }
    }
    // the separator stands inside the text
    if n > m && n - m > 1 {
        let mut i: usize = 0;
        while i < n - m - 1
            invariant
                i <= n - m - 1,
                n == s@.len(),
                m == sep@.len(),
                n > m + 1,
                pat == seq!['\n'] + sep@ + seq!['\n'],
                !(s@.len() >= m + 1 && s@.take(m + 1 as int) == sep@.push('\n')),
                !(s@.len() >= m + 1 && s@.skip(s@.len() - (m + 1 as int)) == seq!['\n'] + sep@),
                forall|j: int| 0 <= j < i ==> #[trigger] s@.subrange(j, j + m + 2) != pat,
            decreases n - m - 1 - i,
        {
            let hit = s.get_char(i) == '\n' && matches_at(s, i + 1, sep) && s.get_char(i + m + 1)
                == '\n';
            if hit {
                proof {
                    assert(pat.len() == m + 2);
                    assert(s@.subrange(i + 1, i + 1 + m) == sep@);
                    assert(s@.subrange(i as int, i + m + 2) =~= pat);
                    assert(s@.subrange(i as int, i as int + pat.len()) == pat);
                    lemma_first_match(s@, pat);
                    if first_match(s@, pat) is None {
                        assert(false);
                    }
                    let f = first_match(s@, pat)->0;
                    if f < i {
                        assert(s@.subrange(f, f + m + 2) != pat);
                        assert(s@.subrange(f, f + pat.len()) == pat);
                        assert(false);
                    }
                    if f > i {
                        assert(s@.subrange(i as int, i as int + pat.len()) != pat);
                        assert(false);
                    }
                    assert(first_match(s@, pat) == Some(i as int));
                }
                proof {
                    assert(s@.subrange(0, i + 1) =~= s@.take(i + 1));
                    assert(s@.subrange(i + m + 2, n as int) =~= s@.skip(i + m + 2 as int));
                    assert(!(s@.len() >= m + 1 && s@.take(m + 1 as int) == sep@.push('\n')));
                    assert(!(s@.len() >= m + 1 && s@.skip(s@.len() - (m + 1 as int)) == seq!['\n']
                        + sep@));
                    assert(split_line_spec(s@, sep@) == Some((
                        s@.take(i as int + 1),
                        s@.skip(i as int + sep@.len() + 2),
                    )));
                }
                return Some((
                    s.substring_char(0, i + 1).to_owned(),
                    s.substring_char(i + m + 2, n).to_owned(),
                ));
            }
            proof {
                if s@.subrange(i as int, i + m + 2) == pat {
                    assert(s@.subrange(i as int, i + m + 2)[0] == s@[i as int]);
                    assert(s@.subrange(i as int, i + m + 2)[m + 1] == s@[i + m + 1]);
                    assert(pat[0] == '\n' && pat[m + 1] == '\n');
                    assert(s@.subrange(i + 1, i + 1 + m) =~= s@.subrange(i as int, i + m + 2)
                        .subrange(1, m + 1));
                    assert(pat.subrange(1, m + 1) =~= sep@);
                    assert(false);
                }
            }
            i += 1;
        }
        proof {
            lemma_first_match(s@, pat);
            if first_match(s@, pat) is Some {
                let f = first_match(s@, pat)->0;
                assert(pat.len() == m + 2);
                assert(s@.subrange(f, f + pat.len()) == pat);
                assert(s@.subrange(f, f + m + 2) == pat);
                assert(f < n - m - 1);
                assert(false);
            }
        }
        None
    } else {
        proof {
            lemma_first_match(s@, pat);
            if first_match(s@, pat) is Some {
                let f = first_match(s@, pat)->0;
                assert(pat.len() == m + 2);
                assert(f + m + 2 <= n);
                assert(false);
            }
        }
        None
    }
}

// --- The whole-text split extractor ----------------------------------------

/// The context and template regions of `s` by whole-text splitting: the
/// template is whatever follows the template marker line; the context is
/// whatever stands after the context marker line in the text before it.
/// This variant recognizes only the two block kinds and rejects nothing.
pub open spec fn source_extract_spec(s: Seq<char>) -> (Option<Seq<char>>, Option<Seq<char>>) {
    let tpl_split = split_line_spec(s, "--- template ---"@);
    let remains = if tpl_split is Some {
        (tpl_split->0).0
    } else {
        s
    };
    let tpl = if tpl_split is Some {
        Some((tpl_split->0).1)
    } else {
        None
    };
    let ctx_split = split_line_spec(remains, "--- context ---"@);
    let ctx = if ctx_split is Some {
        Some((ctx_split->0).1)
    } else {
        None
    };
    (ctx, tpl)
}

/// Split a document into its context and template regions by whole-text
/// marker search, validating nothing.
pub fn extract_blocks(s: &str) -> (r: (Option<String>, Option<String>))
    ensures
        opt_view(r.0) == source_extract_spec(s@).0,
        opt_view(r.1) == source_extract_spec(s@).1,
{
    let (remains, tpl) = match split_line(s, "--- template ---") {
        Some(pair) => (pair.0, Some(pair.1)),
        None => (s.to_owned(), None),
    };
    let ctx = match split_line(remains.as_str(), "--- context ---") {
        Some(pair) => Some(pair.1),
        None => None,
    };
    (ctx, tpl)
}

/// The text handed to the YAML parser: the context region, or the null
/// document when there is none.
pub open spec fn source_context_text(s: Seq<char>) -> Seq<char> {
    match source_extract_spec(s).0 {
        Some(c) => c,
        None => "null"@,
    }
}

/// A parsed document: its context value and its compiled template.
pub struct Source {
    pub context: ContextValue,
    pub template: handlebars::Template,
}

impl Source {
    /// Parse a whole document: split the regions, read the context region
    /// as YAML - an absent one as the null document - then demand and
    /// compile the template region.
    pub fn parse(s: &str) -> (r: Result<Source, Error>)
        ensures
            ({
                let ctx_text = source_context_text(s@);
                let tpl = source_extract_spec(s@).1;
                &&& (r is Ok <==> yaml_value_of(ctx_text) is Some && tpl is Some
                    && template_compiles(tpl->0))
                &&& (r is Ok ==> r->Ok_0.context@ == yaml_value_of(ctx_text)->0)
                &&& (r is Err ==> error_matches(
                    r->Err_0,
                    if yaml_value_of(ctx_text) is None {
                        ErrorModel::YamlParse { context: ctx_text }
                    } else if tpl is None {
                        ErrorModel::MissingTemplate
                    } else {
                        ErrorModel::TemplateCompile
                    },
                ))
            }),
    {
        let (context_text, template_text) = extract_blocks(s);
        let ctx_src = match context_text {
            Some(c) => c,
            None => String::from_str("null"),
        };
        let context = match parse_yaml_text(ctx_src.as_str()) {
            Ok(v) => v,
            Err(cause) => return Err(Error::YamlParse { context: ctx_src, cause }),
        };
        let tpl_src = match template_text {
            Some(t) => t,
            None => return Err(Error::MissingTemplate),
        };
        let template = match compile_template(tpl_src.as_str()) {
            Ok(t) => t,
            Err(cause) => return Err(Error::TemplateCompile { cause }),
        };
        Ok(Source { context, template })
    }
}

} // verus!

use vstd::prelude::*;

verus! {

use crate::error::{error_matches, Error, ErrorModel};

// --- Splitting a document into lines -------------------------------------
//
// A line runs up to and including its `\n` terminator; the final line may
// lack one. Splitting keeps every character: the concatenation of the
// lines is the document.

pub open spec fn first_nl(s: Seq<char>) -> Option<int>
    decreases s.len(),
{
    if s.len() == 0 {
        None
    } else if s[0] == '\n' {
        Some(0int)
    } else {
        match first_nl(s.drop_first()) {
            None => None,
            Some(i) => Some(i + 1),
        }
    }
}

pub proof fn lemma_first_nl(s: Seq<char>)
    ensures
        match first_nl(s) {
            Some(i) => 0 <= i < s.len() && s[i] == '\n' && (forall|j: int|
                0 <= j < i ==> s[j] != '\n'),
            None => forall|j: int| 0 <= j < s.len() ==> s[j] != '\n',
        },
    decreases s.len(),
{
    if s.len() > 0 && s[0] != '\n' {
        lemma_first_nl(s.drop_first());
        match first_nl(s.drop_first()) {
            Some(i) => {
                assert(s[i + 1] == s.drop_first()[i]);
                assert forall|j: int| 0 <= j < i + 1 implies s[j] != '\n' by {
                    if j > 0 {
                        assert(s.drop_first()[j - 1] != '\n');
                        assert(s[j] == s.drop_first()[j - 1]);
                    }
                }
            }
            None => {
                assert forall|j: int| 0 <= j < s.len() implies s[j] != '\n' by {
                    if j > 0 {
                        assert(s.drop_first()[j - 1] != '\n');
                        assert(s[j] == s.drop_first()[j - 1]);
                    }
                }
            }
        }
    }
}

pub open spec fn lines_of(s: Seq<char>) -> Seq<Seq<char>>
    decreases s.len(),
    via lines_of_decreases
{
    if s.len() == 0 {
        Seq::empty()
    } else {
        match first_nl(s) {
            None => seq![s],
            Some(i) => seq![s.take(i + 1)] + lines_of(s.skip(i + 1)),
        }
    }
}

#[via_fn]
proof fn lines_of_decreases(s: Seq<char>) {
    lemma_first_nl(s);
}

// --- Marker lines ---------------------------------------------------------
//
// A line opens a block when, after trailing whitespace is removed, it reads
// exactly `--- <name> ---`; the name may be empty and is validated later.

/// The characters `char::is_whitespace` accepts: the Unicode `White_Space`
/// set.
pub open spec fn is_ws_char(c: char) -> bool {
    c == ' ' || c == '\t' || c == '\n' || c == '\u{b}' || c == '\u{c}' || c == '\r'
        || c == '\u{85}' || c == '\u{a0}' || c == '\u{1680}'
        || ('\u{2000}' <= c && c <= '\u{200a}')
        || c == '\u{2028}' || c == '\u{2029}' || c == '\u{202f}' || c == '\u{205f}'
        || c == '\u{3000}'
}

pub open spec fn trim_end_spec(s: Seq<char>) -> Seq<char>
    decreases s.len(),
{
    if s.len() > 0 && is_ws_char(s.last()) {
        trim_end_spec(s.drop_last())
    } else {
        s
    }
}

/// The block name a line declares, if the line is a marker.
pub open spec fn marker_name(line: Seq<char>) -> Option<Seq<char>> {
    let t = trim_end_spec(line);
    if t.len() >= 8 && t.take(4) == seq!['-', '-', '-', ' '] && t.skip(t.len() - 4) == seq![
        ' ',
        '-',
        '-',
        '-',
    ] {
        Some(t.subrange(4, t.len() - 4))
    } else {
        None
    }
}

// --- The extraction state machine -----------------------------------------

/// Which block is currently open. Once `InTemplate` is reached no line is
/// ever again read as a marker: the rest of the document is template text.
#[derive(Clone, Copy)]
pub enum OpenBlock {
    NoBlock,
    InContext,
    InTemplate,
}

/// The extractor's state: the open block and the text gathered so far for
/// each of the two recognized blocks.
pub struct ExtractState {
    pub cur: OpenBlock,
    pub context: Option<Seq<char>>,
    pub template: Option<Seq<char>>,
}

/// The extractor's result: at most one text per recognized block name.
pub struct RegistryModel {
    pub context: Option<Seq<char>>,
    pub template: Option<Seq<char>>,
}

pub open spec fn initial_state() -> ExtractState {
    ExtractState { cur: OpenBlock::NoBlock, context: None, template: None }
}

/// One line's effect on the extractor's state, or the failure it causes;
/// `lineno` is the line's 1-based position in the document.
pub open spec fn extract_step(st: ExtractState, line: Seq<char>, lineno: nat) -> Result<
    ExtractState,
    ErrorModel,
> {
    if st.cur is InTemplate {
        Ok(ExtractState { template: Some(st.template->0 + line), ..st })
    } else {
        match marker_name(line) {
            Some(name) => {
                if name != "context"@ && name != "template"@ {
                    Err(ErrorModel::UnknownBlockName { name, line: lineno })
                } else if name == "context"@ {
                    if st.context is Some {
                        Err(ErrorModel::DuplicateBlockName { name, line: lineno })
                    } else {
                        Ok(ExtractState {
                            cur: OpenBlock::InContext,
                            context: Some(Seq::empty()),
                            ..st
                        })
                    }
                } else {
                    if st.template is Some {
                        Err(ErrorModel::DuplicateBlockName { name, line: lineno })
                    } else {
                        Ok(ExtractState {
                            cur: OpenBlock::InTemplate,
                            template: Some(Seq::empty()),
                            ..st
                        })
                    }
                }
            }
            None => match st.cur {
                OpenBlock::InContext => Ok(ExtractState {
                    context: Some(st.context->0 + line),
                    ..st
                }),
                _ => Ok(st),
            },
        }
    }
}

/// The machine run over `lines`, the first of which is line `lineno` of the
/// document; at the end of input whatever was gathered is the result.
pub open spec fn extract_from(lines: Seq<Seq<char>>, lineno: nat, st: ExtractState) -> Result<
    RegistryModel,
    ErrorModel,
>
    decreases lines.len(),
{
    if lines.len() == 0 {
        Ok(RegistryModel { context: st.context, template: st.template })
    } else {
        match extract_step(st, lines[0], lineno) {
            Ok(st2) => extract_from(lines.drop_first(), lineno + 1, st2),
            Err(e) => Err(e),
        }
    }
}

/// What extraction yields on a whole document.
pub open spec fn extract_spec(s: Seq<char>) -> Result<RegistryModel, ErrorModel> {
    extract_from(lines_of(s), 1, initial_state())
}

// --- Laws of the machine ---------------------------------------------------

/// A document none of whose lines is a marker extracts to the empty
/// registry, and never fails: without markers every line is preamble.
pub proof fn lemma_no_markers_extracts_empty(s: Seq<char>)
    requires
        forall|i: int| 0 <= i < lines_of(s).len() ==> marker_name(#[trigger] lines_of(s)[i]) is None,
    ensures
        extract_spec(s) == Ok::<RegistryModel, ErrorModel>(RegistryModel { context: None, template: None }),
{
    lemma_no_markers_from(lines_of(s), 1, initial_state());
}

proof fn lemma_no_markers_from(lines: Seq<Seq<char>>, lineno: nat, st: ExtractState)
    requires
        forall|i: int| 0 <= i < lines.len() ==> marker_name(#[trigger] lines[i]) is None,
        st.cur is NoBlock,
    ensures
        extract_from(lines, lineno, st) == Ok::<RegistryModel, ErrorModel>(RegistryModel {
            context: st.context,
            template: st.template,
        }),
    decreases lines.len(),
{
    if lines.len() > 0 {
        assert(marker_name(lines[0]) is None);
        assert(forall|i: int| 0 <= i < lines.drop_first().len()
            ==> lines.drop_first()[i] == #[trigger] lines[i + 1]);
        lemma_no_markers_from(lines.drop_first(), lineno + 1, st);
    }
}

/// Once the template block is open the machine can no longer fail, and the
/// rest of the document - marker-like lines included - is appended verbatim
/// to the template text.
pub proof fn lemma_template_absorbs_rest(lines: Seq<Seq<char>>, lineno: nat, st: ExtractState)
    requires
        st.cur is InTemplate,
        st.template is Some,
    ensures
        extract_from(lines, lineno, st) == Ok::<RegistryModel, ErrorModel>(RegistryModel {
            context: st.context,
            template: Some(st.template->0 + concat_lines(lines)),
        }),
    decreases lines.len(),
{
    if lines.len() == 0 {
        assert(st.template->0 + concat_lines(lines) =~= st.template->0);
    } else {
        let st2 = ExtractState { template: Some(st.template->0 + lines[0]), ..st };
        lemma_template_absorbs_rest(lines.drop_first(), lineno + 1, st2);
        assert((st.template->0 + lines[0]) + concat_lines(lines.drop_first())
            =~= st.template->0 + (lines[0] + concat_lines(lines.drop_first())));
    }
}

pub open spec fn concat_lines(lines: Seq<Seq<char>>) -> Seq<char>
    decreases lines.len(),
{
    if lines.len() == 0 {
        Seq::empty()
    } else {
        lines[0] + concat_lines(lines.drop_first())
    }
}

// --- Executable extraction -------------------------------------------------

fn is_ws(c: char) -> (r: bool)
    ensures
        r == is_ws_char(c),
{
    c == ' ' || c == '\t' || c == '\n' || c == '\u{b}' || c == '\u{c}' || c == '\r'
        || c == '\u{85}' || c == '\u{a0}' || c == '\u{1680}'
        || ('\u{2000}' <= c && c <= '\u{200a}')
        || c == '\u{2028}' || c == '\u{2029}' || c == '\u{202f}' || c == '\u{205f}'
        || c == '\u{3000}'
}

fn str_eq_str(a: &str, b: &str) -> (r: bool)
    ensures
        r == (a@ == b@),
{
    let na = a.unicode_len();
    let nb = b.unicode_len();
    if na != nb {
        return false;
    }
    let mut i: usize = 0;
    while i < na
        invariant
            i <= na,
            na == a@.len(),
            na == b@.len(),
            forall|j: int| 0 <= j < i ==> a@[j] == b@[j],
        decreases na - i,
    {
        if a.get_char(i) != b.get_char(i) {
            return false;
        }
        i += 1;
    }
    proof {
        assert(a@ =~= b@);
    }
    true
}

/// The number of characters `line` keeps once trailing whitespace goes.
fn trimmed_end(line: &str) -> (t: usize)
    ensures
        t <= line@.len(),
        trim_end_spec(line@) == line@.take(t as int),
        t > 0 ==> !is_ws_char(line@[t - 1]),
{
    let n = line.unicode_len();
    let mut t = n;
    proof {
        assert(line@.take(n as int) =~= line@);
    }
    while t > 0 && is_ws(line.get_char(t - 1))
        invariant
            t <= n,
            n == line@.len(),
            trim_end_spec(line@) == trim_end_spec(line@.take(t as int)),
        decreases t,
    {
        proof {
            let pre = line@.take(t as int);
            assert(pre.last() == line@[t - 1]);
            assert(pre.drop_last() =~= line@.take(t - 1));
        }
        t -= 1;
    }
    t
}

/// The block name `line` declares, if `line` is a marker.
fn marker_name_of(line: &str) -> (r: Option<String>)
    ensures
        match r {
            Some(name) => marker_name(line@) == Some(name@),
            None => marker_name(line@) is None,
        },
{
    let t = trimmed_end(line);
    let ghost trimmed = trim_end_spec(line@);
    if t < 8 {
        return None;
    }
    let head_ok = line.get_char(0) == '-' && line.get_char(1) == '-' && line.get_char(2) == '-'
        && line.get_char(3) == ' ';
    let tail_ok = line.get_char(t - 4) == ' ' && line.get_char(t - 3) == '-'
        && line.get_char(t - 2) == '-' && line.get_char(t - 1) == '-';
    proof {
        assert(forall|j: int| 0 <= j < t ==> trimmed[j] == line@[j]);
        if head_ok && tail_ok {
            assert(trimmed.take(4) =~= seq!['-', '-', '-', ' ']);
            assert(trimmed.skip(t - 4) =~= seq![' ', '-', '-', '-']);
        } else {
            if trimmed.take(4) == seq!['-', '-', '-', ' '] && trimmed.skip(t - 4) == seq![
                ' ',
                '-',
                '-',
                '-',
            ] {
                assert(trimmed.take(4)[0] == '-' && trimmed.take(4)[1] == '-'
                    && trimmed.take(4)[2] == '-' && trimmed.take(4)[3] == ' ');
                assert(trimmed.skip(t - 4)[0] == ' ' && trimmed.skip(t - 4)[1] == '-'
                    && trimmed.skip(t - 4)[2] == '-' && trimmed.skip(t - 4)[3] == '-');
            }
        }
    }
    if head_ok && tail_ok {
        let name = line.substring_char(4, t - 4).to_owned();
        proof {
            assert(name@ =~= trimmed.subrange(4, t - 4));
        }
        Some(name)
    } else {
        None
    }
}

/// The extracted blocks: at most one text per recognized block name.
#[derive(Debug)]
pub struct BlockRegistry {
    context: Option<String>,
    template: Option<String>,
}

pub open spec fn opt_view(o: Option<String>) -> Option<Seq<char>> {
    match o {
        Some(s) => Some(s@),
        None => None,
    }
}

impl View for BlockRegistry {
    type V = RegistryModel;

    closed spec fn view(&self) -> RegistryModel {
        RegistryModel { context: opt_view(self.context), template: opt_view(self.template) }
    }
}

impl BlockRegistry {
    pub fn new() -> (r: BlockRegistry)
        ensures
            r@ == (RegistryModel { context: None, template: None }),
    {
        BlockRegistry { context: None, template: None }
    }

    /// The gathered context text, if a context block was present.
    pub fn context(&self) -> (r: Option<&String>)
        ensures
            match r {
                Some(s) => self@.context == Some(s@),
                None => self@.context is None,
            },
    {
        self.context.as_ref()
    }

    /// The gathered template text, if a template block was present.
    pub fn template(&self) -> (r: Option<&String>)
        ensures
            match r {
                Some(s) => self@.template == Some(s@),
                None => self@.template is None,
            },
    {
        self.template.as_ref()
    }
}

/// A document's lines, each with its terminator; the last may lack one.
pub struct LinesWithEndings<'a> {
    text: &'a str,
    pos: usize,
}

impl<'a> LinesWithEndings<'a> {
    pub closed spec fn wf(&self) -> bool {
        self.pos <= self.text@.len()
    }

    /// The text not yet handed out.
    pub closed spec fn remaining(&self) -> Seq<char> {
        self.text@.skip(self.pos as int)
    }

    pub fn from(s: &'a str) -> (r: LinesWithEndings<'a>)
        ensures
            r.wf(),
            r.remaining() == s@,
    {
        let r = LinesWithEndings { text: s, pos: 0 };
        proof {
            assert(s@.skip(0) =~= s@);
        }
        r
    }

    /// The next line, terminator included, or nothing at the end of input.
    pub fn next(&mut self) -> (r: Option<&'a str>)
        requires
            old(self).wf(),
        ensures
            final(self).wf(),
            match r {
                None => old(self).remaining().len() == 0 && *final(self) == *old(self),
                Some(l) => {
                    &&& lines_of(old(self).remaining()).len() > 0
                    &&& l@ == lines_of(old(self).remaining())[0]
                    &&& l@.len() > 0
                    &&& lines_of(final(self).remaining()) == lines_of(old(self).remaining()).drop_first()
                    &&& final(self).remaining().len() + l@.len() == old(self).remaining().len()
                },
            },
    {
        let n = self.text.unicode_len();
        if self.pos >= n {
            proof {
                assert(self.text@.skip(self.pos as int) =~= Seq::<char>::empty());
            }
            return None;
        }
        let start = self.pos;
        let ghost rem = self.remaining();
        let mut j = start;
        while j < n && self.text.get_char(j) != '\n'
            invariant
                start <= j <= n,
                n == self.text@.len(),
                start < n,
                self.pos == start,
                self.text == old(self).text,
                forall|k: int| start <= k < j ==> self.text@[k] != '\n',
            decreases n - j,
        {
            j += 1;
        }
        proof {
            lemma_first_nl(rem);
            assert(forall|k: int| 0 <= k < rem.len() ==> rem[k] == self.text@[start + k]);
        }
        if j < n {
            let line = self.text.substring_char(start, j + 1);
            self.pos = j + 1;
            proof {
                let i = j - start;
                assert(rem[i] == '\n');
                if first_nl(rem) is None {
                    assert(false);
                }
                let f = first_nl(rem)->0;
                if f < i {
                    assert(rem[f] == '\n');
                    assert(self.text@[start + f] == '\n');
                    assert(false);
                }
                if f > i {
                    assert(false);
                }
                assert(first_nl(rem) == Some(i));
                assert(lines_of(rem) == seq![rem.take(i + 1)] + lines_of(rem.skip(i + 1)));
                assert(line@ =~= rem.take(i + 1));
                assert(self.remaining() =~= rem.skip(i + 1));
                assert(lines_of(self.remaining()) =~= lines_of(rem).drop_first());
            }
            Some(line)
        } else {
            let line = self.text.substring_char(start, n);
            self.pos = n;
            proof {
                if first_nl(rem) is Some {
                    let f = first_nl(rem)->0;
                    assert(rem[f] == '\n');
                    assert(self.text@[start + f] == '\n');
                    assert(false);
                }
                assert(lines_of(rem) == seq![rem]);
                assert(line@ =~= rem);
                assert(self.remaining() =~= Seq::<char>::empty());
                assert(lines_of(self.remaining()) =~= lines_of(rem).drop_first());
            }
            Some(line)
        }
    }
}

pub open spec fn state_model(cur: OpenBlock, ctx: Option<String>, tpl: Option<String>) -> ExtractState {
    ExtractState { cur, context: opt_view(ctx), template: opt_view(tpl) }
}

/// Split a document into its blocks with the line-scanning state machine:
/// text before the first marker is dropped, a marker line opens the named
/// block, and every line inside the template block - marker-like or not -
/// is template content. An unknown or repeated block name is a failure
/// naming the 1-based line.
pub fn extract_blocks(s: &str) -> (r: Result<BlockRegistry, Error>)
    ensures
        r is Ok <==> extract_spec(s@) is Ok,
        r is Ok ==> r->Ok_0@ == extract_spec(s@)->Ok_0,
        r is Err ==> error_matches(r->Err_0, extract_spec(s@)->Err_0),
{
    let total = s.unicode_len();
    let mut it = LinesWithEndings::from(s);
    let mut cur = OpenBlock::NoBlock;
    let mut ctx: Option<String> = None;
    let mut tpl: Option<String> = None;
    let mut lineno: usize = 1;
    loop
        invariant
            it.wf(),
            total == s@.len(),
            1 <= lineno,
            lineno - 1 + it.remaining().len() <= total,
            match cur {
                OpenBlock::InContext => ctx is Some,
                OpenBlock::InTemplate => tpl is Some,
                OpenBlock::NoBlock => true,
            },
            extract_from(lines_of(it.remaining()), lineno as nat, state_model(cur, ctx, tpl))
                == extract_spec(s@),
        ensures
            extract_spec(s@) == Ok::<RegistryModel, ErrorModel>(RegistryModel {
                context: opt_view(ctx),
                template: opt_view(tpl),
            }),
        decreases it.remaining().len(),
    {
        let ghost rem0 = it.remaining();
        let ghost st0 = state_model(cur, ctx, tpl);
        let line_opt = it.next();
        let line = match line_opt {
            None => {
                proof {
                    assert(lines_of(it.remaining()) =~= Seq::<Seq<char>>::empty());
                }
                break;
            }
            Some(l) => l,
        };
        proof {
            assert(lines_of(rem0)[0] == line@);
            assert(lines_of(rem0).drop_first() == lines_of(it.remaining()));
            assert(extract_from(lines_of(rem0), lineno as nat, st0) == match extract_step(
                st0,
                line@,
                lineno as nat,
            ) {
                Ok(st2) => extract_from(lines_of(it.remaining()), lineno as nat + 1, st2),
                Err(e) => Err(e),
            });
        }
        match cur {
            OpenBlock::InTemplate => {
                let mut t = tpl.unwrap();
                t.append(line);
                tpl = Some(t);
                proof {
                    assert(extract_step(st0, line@, lineno as nat)
                        == Ok::<ExtractState, ErrorModel>(state_model(cur, ctx, tpl)));
                }
            }
            _ => {
                match marker_name_of(line) {
                    Some(name) => {
                        let is_ctx = str_eq_str(name.as_str(), "context");
                        let is_tpl = str_eq_str(name.as_str(), "template");
                        if !is_ctx && !is_tpl {
                            proof {
                                assert(extract_step(st0, line@, lineno as nat)
                                    == Err::<ExtractState, ErrorModel>(ErrorModel::UnknownBlockName {
                                    name: name@,
                                    line: lineno as nat,
                                }));
                            }
                            return Err(Error::UnknownBlockName { name, line: lineno });
                        }
                        if is_ctx {
                            if ctx.is_some() {
                                return Err(Error::DuplicateBlockName { name, line: lineno });
                            }
                            ctx = Some(String::new());
                            cur = OpenBlock::InContext;
                            proof {
                                assert(extract_step(st0, line@, lineno as nat)
                                    == Ok::<ExtractState, ErrorModel>(state_model(cur, ctx, tpl)));
                            }
                        } else {
                            if tpl.is_some() {
                                return Err(Error::DuplicateBlockName { name, line: lineno });
                            }
                            tpl = Some(String::new());
                            cur = OpenBlock::InTemplate;
                            proof {
                                assert(extract_step(st0, line@, lineno as nat)
                                    == Ok::<ExtractState, ErrorModel>(state_model(cur, ctx, tpl)));
                            }
                        }
                    }
                    None => {
                        match cur {
                            OpenBlock::InContext => {
                                let mut c = ctx.unwrap();
                                c.append(line);
                                ctx = Some(c);
                                proof {
                                    assert(extract_step(st0, line@, lineno as nat)
                                        == Ok::<ExtractState, ErrorModel>(state_model(cur, ctx, tpl)));
                                }
                            }
                            _ => {
                                proof {
                                    assert(extract_step(st0, line@, lineno as nat)
                                        == Ok::<ExtractState, ErrorModel>(state_model(cur, ctx, tpl)));
                                }
                            }
                        }
                    }
                }
            }
        }
        if lineno < total {
            lineno += 1;
        } else {
            // only at the end of a document whose every character is its
            // own line: nothing is left, so the line number is never used
            proof {
                assert(it.remaining().len() == 0);
                assert(lines_of(it.remaining()) =~= Seq::<Seq<char>>::empty());
            }
        }
    }
    Ok(BlockRegistry { context: ctx, template: tpl })
}

/// Splitting loses nothing: the lines of a document, terminators included,
/// concatenate back to the document.
pub proof fn lemma_lines_concat(s: Seq<char>)
    ensures
        concat_lines(lines_of(s)) == s,
    decreases s.len(),
{
    if s.len() > 0 {
        lemma_first_nl(s);
        match first_nl(s) {
            None => {
                assert(seq![s].drop_first() =~= Seq::<Seq<char>>::empty());
                assert(s + concat_lines(Seq::<Seq<char>>::empty()) =~= s);
            }
            Some(i) => {
                lemma_lines_concat(s.skip(i + 1));
                let lines = seq![s.take(i + 1)] + lines_of(s.skip(i + 1));
                assert(lines.drop_first() =~= lines_of(s.skip(i + 1)));
                assert(lines[0] == s.take(i + 1));
                assert(s.take(i + 1) + s.skip(i + 1) =~= s);
            }
        }
    }
}

/// An extraction failure names the offending line exactly: the reported
/// number is the 1-based position, in the lines handed to the machine, of a
/// marker declaring the reported name - an unrecognized one, or one whose
/// block had already been gathered. `lineno` numbers the first line.
pub proof fn lemma_failure_names_offending_line(
    lines: Seq<Seq<char>>,
    lineno: nat,
    st: ExtractState,
)
    requires
        extract_from(lines, lineno, st) is Err,
    ensures
        ({
            let e = extract_from(lines, lineno, st)->Err_0;
            match e {
                ErrorModel::UnknownBlockName { name, line } => lineno <= line
                    && line - lineno < lines.len() && marker_name(lines[line - lineno])
                    == Some(name) && name != "context"@ && name != "template"@,
                ErrorModel::DuplicateBlockName { name, line } => lineno <= line
                    && line - lineno < lines.len() && marker_name(lines[line - lineno])
                    == Some(name) && (name == "context"@ || name == "template"@),
                _ => false,
            }
        }),
    decreases lines.len(),
{
    match extract_step(st, lines[0], lineno) {
        Ok(st2) => {
            lemma_failure_names_offending_line(lines.drop_first(), lineno + 1, st2);
            let e = extract_from(lines, lineno, st)->Err_0;
            match e {
                ErrorModel::UnknownBlockName { name, line } => {
                    assert(lines.drop_first()[line - (lineno + 1)] == lines[line - lineno]);
                }
                ErrorModel::DuplicateBlockName { name, line } => {
                    assert(lines.drop_first()[line - (lineno + 1)] == lines[line - lineno]);
                }
                _ => {}
            }
        }
        Err(_) => {}
    }
}

/// A marker whose name is neither `context` nor `template` is rejected,
/// naming the offending line - unless the template block is already open.
pub proof fn lemma_unknown_marker_rejected(st: ExtractState, line: Seq<char>, lineno: nat)
    requires
        !(st.cur is InTemplate),
        marker_name(line) is Some,
        marker_name(line)->0 != "context"@,
        marker_name(line)->0 != "template"@,
    ensures
        extract_step(st, line, lineno) == Err::<ExtractState, ErrorModel>(
            ErrorModel::UnknownBlockName { name: marker_name(line)->0, line: lineno },
        ),
{
}

/// A marker that names a block already gathered is rejected, naming the
/// line of the second occurrence - unless the template block is already
/// open, in which case the line is template content.
pub proof fn lemma_duplicate_marker_rejected(st: ExtractState, line: Seq<char>, lineno: nat)
    requires
        !(st.cur is InTemplate),
        marker_name(line) is Some,
        marker_name(line)->0 == "context"@ && st.context is Some
            || marker_name(line)->0 == "template"@ && st.template is Some,
    ensures
        extract_step(st, line, lineno) == Err::<ExtractState, ErrorModel>(
            ErrorModel::DuplicateBlockName { name: marker_name(line)->0, line: lineno },
        ),
{
    reveal_strlit("context");
    reveal_strlit("template");
    assert("context"@.len() == 7);
    assert("template"@.len() == 8);
    assert("context"@ != "template"@);
}

} // verus!

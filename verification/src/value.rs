use vstd::prelude::*;

verus! {

/// serde_yaml's number type, carried through the tree untouched; the
/// evaluator never looks inside it.
#[verifier::external_type_specification]
#[verifier::external_body]
pub struct ExNumber(serde_yaml::Number);

/// serde_yaml's value type; a tagged YAML value is carried through the
/// tree untouched, so the raw value is kept opaque.
#[verifier::external_type_specification]
#[verifier::external_body]
pub struct ExYamlValue(serde_yaml::Value);

/// The mathematical model of a context value: a YAML-like tagged tree
/// whose strings are character sequences.
pub enum ValueModel {
    Null,
    Bool(bool),
    Number(serde_yaml::Number),
    Str(Seq<char>),
    Sequence(Seq<ValueModel>),
    Mapping(Seq<(ValueModel, ValueModel)>),
    Tagged(serde_yaml::Value),
}

/// A parsed context value: a tagged tree mirroring YAML's value model.
/// String leaves hold shell-script sources until they are replaced by the
/// scripts' captured output.
#[derive(Debug, PartialEq)]
pub enum ContextValue {
    Null,
    Bool(bool),
    Number(serde_yaml::Number),
    Str(String),
    Sequence(Vec<ContextValue>),
    Mapping(Vec<(ContextValue, ContextValue)>),
    Tagged(serde_yaml::Value),
}

pub open spec fn value_model(v: ContextValue) -> ValueModel
    decreases v,
{
    match v {
        ContextValue::Null => ValueModel::Null,
        ContextValue::Bool(b) => ValueModel::Bool(b),
        ContextValue::Number(n) => ValueModel::Number(n),
        ContextValue::Str(s) => ValueModel::Str(s@),
        ContextValue::Sequence(items) => ValueModel::Sequence(seq_models(items@)),
        ContextValue::Mapping(entries) => ValueModel::Mapping(entry_models(entries@)),
        ContextValue::Tagged(raw) => ValueModel::Tagged(raw),
    }
}

pub open spec fn seq_models(items: Seq<ContextValue>) -> Seq<ValueModel>
    decreases items,
{
    if items.len() == 0 {
        Seq::empty()
    } else {
        seq![value_model(items[0])] + seq_models(items.drop_first())
    }
}

pub open spec fn entry_models(entries: Seq<(ContextValue, ContextValue)>) -> Seq<(ValueModel, ValueModel)>
    decreases entries,
{
    if entries.len() == 0 {
        Seq::empty()
    } else {
        seq![(value_model(entries[0].0), value_model(entries[0].1))] + entry_models(entries.drop_first())
    }
}

impl View for ContextValue {
    type V = ValueModel;

    open spec fn view(&self) -> ValueModel {
        value_model(*self)
    }
}

/// A captured stream with at most one trailing newline removed.
pub open spec fn chomp_spec(s: Seq<char>) -> Seq<char> {
    if s.len() > 0 && s[s.len() - 1] == '\n' {
        s.drop_last()
    } else {
        s
    }
}

/// The script sources of a context value: its string leaves in evaluation
/// order, which is depth-first and left-to-right, descending into sequence
/// elements and mapping values but never into mapping keys.
pub open spec fn scripts_of(m: ValueModel) -> Seq<Seq<char>>
    decreases m,
{
    match m {
        ValueModel::Str(s) => seq![s],
        ValueModel::Sequence(items) => scripts_of_items(items),
        ValueModel::Mapping(entries) => scripts_of_entries(entries),
        _ => Seq::empty(),
    }
}

pub open spec fn scripts_of_items(items: Seq<ValueModel>) -> Seq<Seq<char>>
    decreases items,
{
    if items.len() == 0 {
        Seq::empty()
    } else {
        scripts_of(items[0]) + scripts_of_items(items.drop_first())
    }
}

pub open spec fn scripts_of_entries(entries: Seq<(ValueModel, ValueModel)>) -> Seq<Seq<char>>
    decreases entries,
{
    if entries.len() == 0 {
        Seq::empty()
    } else {
        scripts_of(entries[0].1) + scripts_of_entries(entries.drop_first())
    }
}

/// The result of evaluation: the tree with its string leaves replaced, in
/// evaluation order, by the chomped script outputs `outs`. The shape of the
/// tree and everything that is not a string leaf are unchanged; `outs` must
/// hold one output per script of `m`.
pub open spec fn substituted(m: ValueModel, outs: Seq<Seq<char>>) -> ValueModel
    decreases m,
{
    match m {
        ValueModel::Str(_) => ValueModel::Str(chomp_spec(outs[0])),
        ValueModel::Sequence(items) => ValueModel::Sequence(substituted_items(items, outs)),
        ValueModel::Mapping(entries) => ValueModel::Mapping(substituted_entries(entries, outs)),
        other => other,
    }
}

pub open spec fn substituted_items(items: Seq<ValueModel>, outs: Seq<Seq<char>>) -> Seq<ValueModel>
    decreases items,
{
    if items.len() == 0 {
        Seq::empty()
    } else {
        seq![substituted(items[0], outs)]
            + substituted_items(items.drop_first(), outs.skip(scripts_of(items[0]).len() as int))
    }
}

pub open spec fn substituted_entries(
    entries: Seq<(ValueModel, ValueModel)>,
    outs: Seq<Seq<char>>,
) -> Seq<(ValueModel, ValueModel)>
    decreases entries,
{
    if entries.len() == 0 {
        Seq::empty()
    } else {
        seq![(entries[0].0, substituted(entries[0].1, outs))]
            + substituted_entries(entries.drop_first(), outs.skip(scripts_of(entries[0].1).len() as int))
    }
}

pub proof fn lemma_seq_models_index(items: Seq<ContextValue>)
    ensures
        seq_models(items).len() == items.len(),
        forall|i: int| 0 <= i < items.len() ==> seq_models(items)[i] == value_model(items[i]),
    decreases items,
{
    if items.len() > 0 {
        lemma_seq_models_index(items.drop_first());
    }
}

pub proof fn lemma_entry_models_index(entries: Seq<(ContextValue, ContextValue)>)
    ensures
        entry_models(entries).len() == entries.len(),
        forall|i: int| 0 <= i < entries.len() ==> entry_models(entries)[i]
            == (value_model(entries[i].0), value_model(entries[i].1)),
    decreases entries,
{
    if entries.len() > 0 {
        lemma_entry_models_index(entries.drop_first());
    }
}

pub proof fn lemma_scripts_items_concat(a: Seq<ValueModel>, b: Seq<ValueModel>)
    ensures
        scripts_of_items(a + b) == scripts_of_items(a) + scripts_of_items(b),
    decreases a,
{
    if a.len() == 0 {
        assert(a + b =~= b);
        assert(scripts_of_items(a) + scripts_of_items(b) =~= scripts_of_items(b));
    } else {
        assert((a + b).drop_first() =~= a.drop_first() + b);
        lemma_scripts_items_concat(a.drop_first(), b);
        assert(scripts_of(a[0]) + (scripts_of_items(a.drop_first()) + scripts_of_items(b))
            =~= (scripts_of(a[0]) + scripts_of_items(a.drop_first())) + scripts_of_items(b));
        assert((a + b)[0] == a[0]);
    }
}

pub proof fn lemma_scripts_entries_concat(
    a: Seq<(ValueModel, ValueModel)>,
    b: Seq<(ValueModel, ValueModel)>,
)
    ensures
        scripts_of_entries(a + b) == scripts_of_entries(a) + scripts_of_entries(b),
    decreases a,
{
    if a.len() == 0 {
        assert(a + b =~= b);
        assert(scripts_of_entries(a) + scripts_of_entries(b) =~= scripts_of_entries(b));
    } else {
        assert((a + b).drop_first() =~= a.drop_first() + b);
        lemma_scripts_entries_concat(a.drop_first(), b);
        assert(scripts_of(a[0].1) + (scripts_of_entries(a.drop_first()) + scripts_of_entries(b))
            =~= (scripts_of(a[0].1) + scripts_of_entries(a.drop_first())) + scripts_of_entries(b));
        assert((a + b)[0] == a[0]);
    }
}

/// Two values of one shape: the same constructor at every node, sequences
/// and mappings of equal arity with equal keys, every non-string scalar
/// equal; only what a string leaf holds may differ.
pub open spec fn same_shape(a: ValueModel, b: ValueModel) -> bool
    decreases a,
{
    match (a, b) {
        (ValueModel::Str(_), ValueModel::Str(_)) => true,
        (ValueModel::Sequence(x), ValueModel::Sequence(y)) => x.len() == y.len() && (forall|i: int|
            0 <= i < x.len() ==> same_shape(x[i], y[i])),
        (ValueModel::Mapping(x), ValueModel::Mapping(y)) => x.len() == y.len() && (forall|i: int|
            0 <= i < x.len() ==> x[i].0 == y[i].0 && same_shape(x[i].1, y[i].1)),
        _ => a == b,
    }
}

/// Evaluation never changes the shape of the tree: it only puts new string
/// leaves where string leaves stood, keeps every mapping key, and leaves
/// all other nodes as they were.
pub proof fn lemma_substituted_preserves_shape(m: ValueModel, outs: Seq<Seq<char>>)
    ensures
        same_shape(m, substituted(m, outs)),
    decreases m,
{
    match m {
        ValueModel::Sequence(items) => {
            lemma_substituted_items_preserve_shape(items, outs);
        }
        ValueModel::Mapping(entries) => {
            lemma_substituted_entries_preserve_shape(entries, outs);
        }
        _ => {}
    }
}

proof fn lemma_substituted_items_preserve_shape(items: Seq<ValueModel>, outs: Seq<Seq<char>>)
    ensures
        substituted_items(items, outs).len() == items.len(),
        forall|i: int| 0 <= i < items.len() ==> same_shape(
            items[i],
            #[trigger] substituted_items(items, outs)[i],
        ),
    decreases items,
{
    if items.len() > 0 {
        lemma_substituted_preserves_shape(items[0], outs);
        let tail_outs = outs.skip(scripts_of(items[0]).len() as int);
        lemma_substituted_items_preserve_shape(items.drop_first(), tail_outs);
        assert forall|i: int| 0 <= i < items.len() implies same_shape(
            items[i],
            #[trigger] substituted_items(items, outs)[i],
        ) by {
            if i > 0 {
                assert(substituted_items(items, outs)[i] == substituted_items(
                    items.drop_first(),
                    tail_outs,
                )[i - 1]);
                assert(items[i] == items.drop_first()[i - 1]);
            }
        }
    }
}

proof fn lemma_substituted_entries_preserve_shape(
    entries: Seq<(ValueModel, ValueModel)>,
    outs: Seq<Seq<char>>,
)
    ensures
        substituted_entries(entries, outs).len() == entries.len(),
        forall|i: int| 0 <= i < entries.len() ==> (#[trigger] substituted_entries(entries, outs)[i]).0
            == entries[i].0 && same_shape(entries[i].1, substituted_entries(entries, outs)[i].1),
    decreases entries,
{
    if entries.len() > 0 {
        lemma_substituted_preserves_shape(entries[0].1, outs);
        let tail_outs = outs.skip(scripts_of(entries[0].1).len() as int);
        lemma_substituted_entries_preserve_shape(entries.drop_first(), tail_outs);
        assert forall|i: int| 0 <= i < entries.len() implies (#[trigger] substituted_entries(
            entries,
            outs,
        )[i]).0 == entries[i].0 && same_shape(entries[i].1, substituted_entries(entries, outs)[i].1) by {
            if i > 0 {
                assert(substituted_entries(entries, outs)[i] == substituted_entries(
                    entries.drop_first(),
                    tail_outs,
                )[i - 1]);
                assert(entries[i] == entries.drop_first()[i - 1]);
            }
        }
    }
}

/// Substitution only reads the prefix of `outs` that the scripts of `m`
/// claim: extra outputs beyond that prefix do not change the result.
pub proof fn lemma_substituted_depends_on_prefix(m: ValueModel, outs1: Seq<Seq<char>>, outs2: Seq<Seq<char>>)
    requires
        scripts_of(m).len() <= outs1.len(),
        scripts_of(m).len() <= outs2.len(),
        outs1.take(scripts_of(m).len() as int) == outs2.take(scripts_of(m).len() as int),
    ensures
        substituted(m, outs1) == substituted(m, outs2),
    decreases m,
{
    match m {
        ValueModel::Str(_) => {
            assert(outs1.take(1)[0] == outs2.take(1)[0]);
        }
        ValueModel::Sequence(items) => {
            lemma_substituted_items_depends_on_prefix(items, outs1, outs2);
        }
        ValueModel::Mapping(entries) => {
            lemma_substituted_entries_depends_on_prefix(entries, outs1, outs2);
        }
        _ => {}
    }
}

pub proof fn lemma_substituted_items_depends_on_prefix(
    items: Seq<ValueModel>,
    outs1: Seq<Seq<char>>,
    outs2: Seq<Seq<char>>,
)
    requires
        scripts_of_items(items).len() <= outs1.len(),
        scripts_of_items(items).len() <= outs2.len(),
        outs1.take(scripts_of_items(items).len() as int) == outs2.take(scripts_of_items(items).len() as int),
    ensures
        substituted_items(items, outs1) == substituted_items(items, outs2),
    decreases items,
{
    if items.len() > 0 {
        let k = scripts_of(items[0]).len() as int;
        let rest = scripts_of_items(items.drop_first()).len() as int;
        assert forall|i: int| 0 <= i < k implies outs1[i] == outs2[i] by {
            assert(outs1.take(k + rest)[i] == outs2.take(k + rest)[i]);
        }
        assert(outs1.take(k) =~= outs2.take(k));
        lemma_substituted_depends_on_prefix(items[0], outs1, outs2);
        assert forall|i: int| 0 <= i < rest implies outs1.skip(k)[i] == outs2.skip(k)[i] by {
            assert(outs1.take(k + rest)[k + i] == outs2.take(k + rest)[k + i]);
        }
        assert(outs1.skip(k).take(rest) =~= outs2.skip(k).take(rest));
        lemma_substituted_items_depends_on_prefix(items.drop_first(), outs1.skip(k), outs2.skip(k));
    }
}

pub proof fn lemma_substituted_entries_depends_on_prefix(
    entries: Seq<(ValueModel, ValueModel)>,
    outs1: Seq<Seq<char>>,
    outs2: Seq<Seq<char>>,
)
    requires
        scripts_of_entries(entries).len() <= outs1.len(),
        scripts_of_entries(entries).len() <= outs2.len(),
        outs1.take(scripts_of_entries(entries).len() as int)
            == outs2.take(scripts_of_entries(entries).len() as int),
    ensures
        substituted_entries(entries, outs1) == substituted_entries(entries, outs2),
    decreases entries,
{
    if entries.len() > 0 {
        let k = scripts_of(entries[0].1).len() as int;
        let rest = scripts_of_entries(entries.drop_first()).len() as int;
        assert forall|i: int| 0 <= i < k implies outs1[i] == outs2[i] by {
            assert(outs1.take(k + rest)[i] == outs2.take(k + rest)[i]);
        }
        assert(outs1.take(k) =~= outs2.take(k));
        lemma_substituted_depends_on_prefix(entries[0].1, outs1, outs2);
        assert forall|i: int| 0 <= i < rest implies outs1.skip(k)[i] == outs2.skip(k)[i] by {
            assert(outs1.take(k + rest)[k + i] == outs2.take(k + rest)[k + i]);
        }
        assert(outs1.skip(k).take(rest) =~= outs2.skip(k).take(rest));
        lemma_substituted_entries_depends_on_prefix(entries.drop_first(), outs1.skip(k), outs2.skip(k));
    }
}

} // verus!

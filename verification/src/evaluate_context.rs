use vstd::prelude::*;

verus! {

use crate::chomp;
use crate::value::{
    entry_models, lemma_entry_models_index, lemma_scripts_entries_concat,
    lemma_scripts_items_concat, lemma_seq_models_index, lemma_substituted_depends_on_prefix,
    scripts_of, scripts_of_entries, scripts_of_items, seq_models, substituted, substituted_entries,
    substituted_items, value_model, ContextValue, ValueModel,
};

/// The views of a sequence of strings.
pub open spec fn str_views(ss: Seq<String>) -> Seq<Seq<char>> {
    ss.map_values(|s: String| s@)
}

/// The script sources of a context value, in evaluation order: one string
/// per string leaf, depth-first and left-to-right, descending into sequence
/// elements and mapping values but not into mapping keys.
pub fn script_sources(v: &ContextValue) -> (r: Vec<String>)
    ensures
        str_views(r@) == scripts_of(v@),
{
    let mut acc: Vec<String> = Vec::new();
    collect_scripts(v, &mut acc);
    proof {
        assert(str_views(Seq::<String>::empty()) =~= Seq::<Seq<char>>::empty());
        assert(str_views(acc@) =~= scripts_of(v@));
    }
    acc
}

fn collect_scripts(v: &ContextValue, acc: &mut Vec<String>)
    ensures
        str_views(final(acc)@) == str_views(old(acc)@) + scripts_of(v@),
    decreases *v,
{
    match v {
        ContextValue::Str(s) => {
            let copy = s.clone();
            acc.push(copy);
            proof {
                assert(str_views(acc@) =~= str_views(old(acc)@) + scripts_of(v@));
            }
        }
        ContextValue::Sequence(items) => {
            let ghost vv = *v;
            let ghost ms = seq_models(items@);
            proof {
                lemma_seq_models_index(items@);
            }
            let n = items.len();
            let mut i: usize = 0;
            while i < n
                invariant
                    n == items.len(),
                    i <= n,
                    ms == seq_models(items@),
                    ms.len() == n,
                    forall|j: int| 0 <= j < n ==> ms[j] == value_model(items@[j]),
                    vv == *v,
                    vv == ContextValue::Sequence(*items),
                    str_views(acc@) == str_views(old(acc)@) + scripts_of_items(ms.take(i as int)),
                decreases n - i,
            {
                proof {
                    assert(decreases_to!(vv => vv->Sequence_0));
                    assert(decreases_to!(vv->Sequence_0 => vv->Sequence_0@));
                    assert(decreases_to!(vv->Sequence_0@ => vv->Sequence_0@[i as int]));
                    assert(items@[i as int] == vv->Sequence_0@[i as int]);
                }
                collect_scripts(&items[i], acc);
                proof {
                    let one = seq![ms[i as int]];
                    assert(one.drop_first() =~= Seq::<ValueModel>::empty());
                    assert(scripts_of_items(Seq::<ValueModel>::empty()) =~= Seq::<Seq<char>>::empty());
                    assert(scripts_of_items(one) =~= scripts_of(ms[i as int]));
                    assert(ms.take(i + 1) =~= ms.take(i as int) + one);
                    lemma_scripts_items_concat(ms.take(i as int), one);
                    assert(str_views(acc@) =~= str_views(old(acc)@) + scripts_of_items(ms.take(i + 1)));
                }
                i += 1;
            }
            proof {
                assert(ms.take(n as int) =~= ms);
            }
        }
        ContextValue::Mapping(entries) => {
            let ghost vv = *v;
            let ghost ms = entry_models(entries@);
            proof {
                lemma_entry_models_index(entries@);
            }
            let n = entries.len();
            let mut i: usize = 0;
            while i < n
                invariant
                    n == entries.len(),
                    i <= n,
                    ms == entry_models(entries@),
                    ms.len() == n,
                    forall|j: int| 0 <= j < n ==> ms[j]
                        == (value_model(entries@[j].0), value_model(entries@[j].1)),
                    vv == *v,
                    vv == ContextValue::Mapping(*entries),
                    str_views(acc@) == str_views(old(acc)@) + scripts_of_entries(ms.take(i as int)),
                decreases n - i,
            {
                proof {
                    assert(decreases_to!(vv => vv->Mapping_0));
                    assert(decreases_to!(vv->Mapping_0 => vv->Mapping_0@));
                    assert(decreases_to!(vv->Mapping_0@ => vv->Mapping_0@[i as int]));
                    assert(decreases_to!(vv->Mapping_0@[i as int] => vv->Mapping_0@[i as int].1));
                    assert(entries@[i as int].1 == vv->Mapping_0@[i as int].1);
                }
                collect_scripts(&entries[i].1, acc);
                proof {
                    let one = seq![ms[i as int]];
                    assert(one.drop_first() =~= Seq::<(ValueModel, ValueModel)>::empty());
                    assert(scripts_of_entries(Seq::<(ValueModel, ValueModel)>::empty())
                        =~= Seq::<Seq<char>>::empty());
                    assert(scripts_of_entries(one) =~= scripts_of(ms[i as int].1));
                    assert(ms.take(i + 1) =~= ms.take(i as int) + one);
                    lemma_scripts_entries_concat(ms.take(i as int), one);
                    assert(str_views(acc@) =~= str_views(old(acc)@) + scripts_of_entries(ms.take(i + 1)));
                }
                i += 1;
            }
            proof {
                assert(ms.take(n as int) =~= ms);
            }
        }
        _ => {
            proof {
                assert(str_views(acc@) =~= str_views(old(acc)@) + scripts_of(v@));
            }
        }
    }
}

/// Evaluation: the tree comes back with each string leaf replaced, in
/// evaluation order, by the matching captured output with at most one
/// trailing newline removed; nothing else changes. `outputs` holds one
/// entry per script source of `ctx`.
pub fn evaluate_context(ctx: ContextValue, outputs: &Vec<String>) -> (r: ContextValue)
    requires
        scripts_of(ctx@).len() == outputs@.len(),
    ensures
        r@ == substituted(ctx@, str_views(outputs@)),
{
    let ghost m = ctx@;
    let (r, _) = eval_value(ctx, outputs, 0);
    proof {
        assert(str_views(outputs@).subrange(0, scripts_of(m).len() as int) =~= str_views(outputs@));
    }
    r
}

fn eval_value(v: ContextValue, outputs: &Vec<String>, pos: usize) -> (res: (ContextValue, usize))
    requires
        pos + scripts_of(v@).len() <= outputs@.len(),
    ensures
        res.1 == pos + scripts_of(v@).len(),
        res.0@ == substituted(
            v@,
            str_views(outputs@).subrange(pos as int, pos + scripts_of(v@).len()),
        ),
    decreases v,
{
    let ghost m = v@;
    let ghost vv = v;
    match v {
        ContextValue::Str(script) => {
            proof {
                assert(m == ValueModel::Str(script@));
                assert(scripts_of(m) == seq![script@]);
            }
            let n_out = outputs.len();
            proof {
                assert(pos < n_out);
            }
            let out = chomp(outputs[pos].as_str());
            let leaf = out.to_owned();
            proof {
                let window = str_views(outputs@).subrange(pos as int, pos + 1);
                assert(window[0] == str_views(outputs@)[pos as int]);
                assert(str_views(outputs@)[pos as int] == outputs@[pos as int]@);
            }
            (ContextValue::Str(leaf), pos + 1)
        }
        ContextValue::Sequence(items) => {
            proof {
                assert(decreases_to!(vv => vv->Sequence_0));
                assert(decreases_to!(vv->Sequence_0 => vv->Sequence_0@));
                assert(items@ == vv->Sequence_0@);
            }
            let (new_items, p) = eval_items(items, outputs, pos);
            (ContextValue::Sequence(new_items), p)
        }
        ContextValue::Mapping(entries) => {
            proof {
                assert(decreases_to!(vv => vv->Mapping_0));
                assert(decreases_to!(vv->Mapping_0 => vv->Mapping_0@));
                assert(entries@ == vv->Mapping_0@);
            }
            let (new_entries, p) = eval_entries(entries, outputs, pos);
            (ContextValue::Mapping(new_entries), p)
        }
        other => {
            (other, pos)
        }
    }
}

fn eval_items(items: Vec<ContextValue>, outputs: &Vec<String>, pos: usize) -> (res: (
    Vec<ContextValue>,
    usize,
))
    requires
        pos + scripts_of_items(seq_models(items@)).len() <= outputs@.len(),
    ensures
        res.1 == pos + scripts_of_items(seq_models(items@)).len(),
        seq_models(res.0@) == substituted_items(
            seq_models(items@),
            str_views(outputs@).subrange(pos as int, pos + scripts_of_items(seq_models(items@)).len()),
        ),
    decreases items@,
{
    let ghost ms = seq_models(items@);
    let mut items = items;
    if items.len() == 0 {
        proof {
            assert(seq_models(items@) =~= Seq::<ValueModel>::empty());
            assert(substituted_items(
                ms,
                str_views(outputs@).subrange(pos as int, pos as int),
            ) =~= Seq::<ValueModel>::empty());
        }
        (items, pos)
    } else {
        let ghost orig = items@;
        let first = items.remove(0);
        proof {
            lemma_seq_models_index(orig);
            lemma_seq_models_index(orig.drop_first());
            assert(items@ =~= orig.drop_first());
            assert(ms == seq![value_model(orig[0])] + seq_models(orig.drop_first()));
            assert(ms[0] == value_model(orig[0]));
            assert(ms.drop_first() =~= seq_models(orig.drop_first()));
            assert(first == orig[0]);
            assert(decreases_to!(orig => orig[0]));
        }
        let (nf, p1) = eval_value(first, outputs, pos);
        proof {
            assert(orig.drop_first() =~= orig.subrange(1, orig.len() as int));
            assert(decreases_to!(orig => orig.subrange(1, orig.len() as int)));
        }
        let (mut rest, p2) = eval_items(items, outputs, p1);
        let ghost rv = rest@;
        rest.insert(0, nf);
        proof {
            let w = str_views(outputs@);
            let k0 = scripts_of(ms[0]).len() as int;
            let krest = scripts_of_items(ms.drop_first()).len() as int;
            let window = w.subrange(pos as int, pos + k0 + krest);
            assert(scripts_of_items(ms) == scripts_of(ms[0]) + scripts_of_items(ms.drop_first()));
            // head: the child's window is the prefix of this level's window
            assert(window.take(k0) =~= w.subrange(pos as int, pos + k0));
            assert(w.subrange(pos as int, pos + k0).take(k0) =~= w.subrange(pos as int, pos + k0));
            lemma_substituted_depends_on_prefix(ms[0], window, w.subrange(pos as int, pos + k0));
            // tail: the recursive window is the rest of this level's window
            assert(window.skip(k0) =~= w.subrange(pos + k0, pos + k0 + krest));
            assert(rest@[0] == nf);
            assert(rest@.drop_first() =~= rv);
            lemma_seq_models_index(rest@);
            assert(seq_models(rest@) == seq![value_model(rest@[0])] + seq_models(rest@.drop_first()));
            assert(value_model(nf) == substituted(ms[0], window));
            assert(seq_models(rv) == substituted_items(ms.drop_first(), window.skip(k0)));
            assert(substituted_items(ms, window)
                == seq![substituted(ms[0], window)] + substituted_items(ms.drop_first(), window.skip(k0)));
            assert(seq_models(rest@) =~= substituted_items(ms, window));
        }
        (rest, p2)
    }
}

fn eval_entries(entries: Vec<(ContextValue, ContextValue)>, outputs: &Vec<String>, pos: usize) -> (res: (
    Vec<(ContextValue, ContextValue)>,
    usize,
))
    requires
        pos + scripts_of_entries(entry_models(entries@)).len() <= outputs@.len(),
    ensures
        res.1 == pos + scripts_of_entries(entry_models(entries@)).len(),
        entry_models(res.0@) == substituted_entries(
            entry_models(entries@),
            str_views(outputs@).subrange(
                pos as int,
                pos + scripts_of_entries(entry_models(entries@)).len(),
            ),
        ),
    decreases entries@,
{
    let ghost ms = entry_models(entries@);
    let mut entries = entries;
    if entries.len() == 0 {
        proof {
            assert(entry_models(entries@) =~= Seq::<(ValueModel, ValueModel)>::empty());
            assert(substituted_entries(
                ms,
                str_views(outputs@).subrange(pos as int, pos as int),
            ) =~= Seq::<(ValueModel, ValueModel)>::empty());
        }
        (entries, pos)
    } else {
        let ghost orig = entries@;
        let (key, val) = entries.remove(0);
        proof {
            lemma_entry_models_index(orig);
            lemma_entry_models_index(orig.drop_first());
            assert(entries@ =~= orig.drop_first());
            assert(ms == seq![(value_model(orig[0].0), value_model(orig[0].1))]
                + entry_models(orig.drop_first()));
            assert(ms[0] == (value_model(orig[0].0), value_model(orig[0].1)));
            assert(ms.drop_first() =~= entry_models(orig.drop_first()));
            assert(key == orig[0].0 && val == orig[0].1);
            assert(decreases_to!(orig => orig[0]));
            assert(decreases_to!(orig[0] => orig[0].1));
        }
        let (nv, p1) = eval_value(val, outputs, pos);
        proof {
            assert(orig.drop_first() =~= orig.subrange(1, orig.len() as int));
            assert(decreases_to!(orig => orig.subrange(1, orig.len() as int)));
        }
        let (mut rest, p2) = eval_entries(entries, outputs, p1);
        let ghost rv = rest@;
        rest.insert(0, (key, nv));
        proof {
            let w = str_views(outputs@);
            let k0 = scripts_of(ms[0].1).len() as int;
            let krest = scripts_of_entries(ms.drop_first()).len() as int;
            let window = w.subrange(pos as int, pos + k0 + krest);
            assert(scripts_of_entries(ms)
                == scripts_of(ms[0].1) + scripts_of_entries(ms.drop_first()));
            assert(window.take(k0) =~= w.subrange(pos as int, pos + k0));
            assert(w.subrange(pos as int, pos + k0).take(k0) =~= w.subrange(pos as int, pos + k0));
            lemma_substituted_depends_on_prefix(ms[0].1, window, w.subrange(pos as int, pos + k0));
            assert(window.skip(k0) =~= w.subrange(pos + k0, pos + k0 + krest));
            assert(rest@[0] == (key, nv));
            assert(rest@.drop_first() =~= rv);
            lemma_entry_models_index(rest@);
            assert(entry_models(rest@) == seq![(value_model(rest@[0].0), value_model(rest@[0].1))]
                + entry_models(rest@.drop_first()));
            assert(value_model(nv) == substituted(ms[0].1, window));
            assert(value_model(key) == ms[0].0);
            assert(entry_models(rv) == substituted_entries(ms.drop_first(), window.skip(k0)));
            assert(substituted_entries(ms, window) == seq![(ms[0].0, substituted(ms[0].1, window))]
                + substituted_entries(ms.drop_first(), window.skip(k0)));
            assert(entry_models(rest@) =~= substituted_entries(ms, window));
        }
        (rest, p2)
    }
}

} // verus!

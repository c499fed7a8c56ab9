use vstd::prelude::*;
use crate::collector::FunctionInfoView;
use crate::docstring::{
    first_items, is_kind, kind_names, list_or_empty, model_of, SectionKind,
    SectionView,
};
use crate::engine::{all_rules, classes_upto, findings, lint_spec, rule_order, rule_over, rules_upto};
use crate::collector::{
    class_spec, class_starts, collect_spec, info_spec, is_fact, module_functions, next_depth, own,
    ClassInfoView, FactKind,
};
use crate::engine::rendered;
use crate::suppress::{has_mark, Mark};
use crate::params::{cleanse_spec, is_args_empty_spec, keep_name, kept, param_views, ParamView};
use crate::syntax::Param;
use crate::position::TextRange;
use crate::rules::{rule_spec, DiagView, Rule};
use crate::syntax::{Event, Params};

verus! {

proof fn lemma_first_items_at(secs: Seq<SectionView>, k: SectionKind, i: int)
    requires
        0 <= i < secs.len(),
        is_kind(secs[i].name, k),
        forall|j: int| 0 <= j < i ==> !is_kind(#[trigger] secs[j].name, k),
    ensures
        first_items(secs, k) == Some(secs[i].subs),
    decreases i,
{
    if i > 0 {
        let rest = secs.drop_first();
        assert forall|j: int| 0 <= j < i - 1 implies !is_kind(#[trigger] rest[j].name, k) by {
            assert(rest[j] == secs[j + 1]);
        }
        lemma_first_items_at(rest, k, i - 1);
    }
}

proof fn lemma_kind_names_nonempty(secs: Seq<SectionView>, k: SectionKind, i: int)
    requires
        0 <= i < secs.len(),
        is_kind(secs[i].name, k),
    ensures
        kind_names(secs, k).len() > 0,
    decreases secs.len(),
{
    if i < secs.len() - 1 {
        lemma_kind_names_nonempty(secs.drop_last(), k, i);
    }
}

/// A docstring with exactly one arguments section, which names `a` and `b`: the model says
/// that an arguments section is present, and the documented arguments are `a` and `b`.
pub proof fn lemma_single_args_section(
    secs: Seq<SectionView>,
    range: TextRange,
    i: int,
    a: Seq<char>,
    b: Seq<char>,
)
    requires
        0 <= i < secs.len(),
        is_kind(secs[i].name, SectionKind::Args),
        secs[i].subs == seq![a, b],
        forall|j: int| 0 <= j < secs.len() && j != i ==> !is_kind(#[trigger] secs[j].name, SectionKind::Args),
    ensures
        list_or_empty(model_of(secs, range).args_sections).len() > 0,
        list_or_empty(model_of(secs, range).args).to_set() == set![a, b],
{
    lemma_first_items_at(secs, SectionKind::Args, i);
    lemma_kind_names_nonempty(secs, SectionKind::Args, i);
    let s = seq![a, b];
    assert(s.to_set() =~= set![a, b]) by {
        assert forall|x: Seq<char>| s.to_set().contains(x) <==> set![a, b].contains(x) by {
            if x == a {
                assert(s[0] == a);
            }
            if x == b {
                assert(s[1] == b);
            }
        }
    }
}

proof fn lemma_kept_empty(v: Seq<ParamView>, drop_self: bool, del_private: bool)
    ensures
        kept(v, drop_self, del_private).len() == 0 <==> all_dropped(v, drop_self, del_private),
    decreases v.len(),
{
    if v.len() > 0 {
        let w = v.drop_last();
        lemma_kept_empty(w, drop_self, del_private);
        if kept(v, drop_self, del_private).len() == 0 {
            assert forall|i: int| 0 <= i < v.len() implies !keep_name(
                #[trigger] v[i].name,
                drop_self,
                del_private,
            ) by {
                if i < v.len() - 1 {
                    assert(v[i] == w[i]);
                }
            }
        }
        if all_dropped(v, drop_self, del_private) {
            assert forall|i: int| 0 <= i < w.len() implies !keep_name(
                #[trigger] w[i].name,
                drop_self,
                del_private,
            ) by {
                assert(w[i] == v[i]);
            }
            assert(!keep_name(v[v.len() - 1].name, drop_self, del_private));
        }
    }
}

/// Every parameter of `v` is left out.
pub open spec fn all_dropped(v: Seq<ParamView>, drop_self: bool, del_private: bool) -> bool {
    forall|i: int| 0 <= i < v.len() ==> !keep_name(#[trigger] v[i].name, drop_self, del_private)
}

pub open spec fn opt_dropped(o: Option<Param>, drop_self: bool, del_private: bool) -> bool {
    match o {
        Some(p) => !keep_name(p.name@, drop_self, del_private),
        None => true,
    }
}

/// A function has no parameter left to document exactly when every parameter of every group
/// (`*args`, `**kwargs`, keyword-only, regular, positional-only) is stripped: `self` and `cls`
/// from the positional groups and `*args`, and, where `del_private`, underscore names.
pub proof fn lemma_args_empty_iff_all_stripped(p: Params, del_private: bool)
    ensures
        is_args_empty_spec(cleanse_spec(p, del_private)) <==> (all_dropped(
            param_views(p.posonlyargs@),
            true,
            del_private,
        ) && all_dropped(param_views(p.args@), true, del_private) && opt_dropped(
            p.vararg,
            true,
            del_private,
        ) && all_dropped(param_views(p.kwonlyargs@), false, del_private) && opt_dropped(
            p.kwarg,
            false,
            del_private,
        )),
{
    lemma_kept_empty(param_views(p.posonlyargs@), true, del_private);
    lemma_kept_empty(param_views(p.args@), true, del_private);
    lemma_kept_empty(param_views(p.kwonlyargs@), false, del_private);
}

/// The rules that keep private parameters and those that strip them agree: where no parameter
/// is left with private names kept, none is left with them stripped.
pub proof fn lemma_args_empty_consistent(p: Params)
    ensures
        is_args_empty_spec(cleanse_spec(p, false)) ==> is_args_empty_spec(cleanse_spec(p, true)),
{
    lemma_args_empty_iff_all_stripped(p, false);
    lemma_args_empty_iff_all_stripped(p, true);
}

proof fn lemma_rule_over_single(rule: Rule, ev: Seq<Event>, src: Seq<u8>, f: FunctionInfoView, t: bool)
    ensures
        rule_over(rule, ev, src, seq![f], t) == rule_spec(rule, ev, src, f, t),
{
    let one = seq![f];
    assert(one.drop_last() =~= Seq::<FunctionInfoView>::empty());
    assert(one.last() == f);
    assert(rule_over(rule, ev, src, one.drop_last(), t) =~= Seq::<DiagView>::empty());
    assert(rule_over(rule, ev, src, one, t) =~= rule_over(rule, ev, src, one.drop_last(), t)
        + rule_spec(rule, ev, src, f, t));
    assert(rule_over(rule, ev, src, one, t) =~= rule_spec(rule, ev, src, f, t));
}

proof fn lemma_rules_upto_no_docstring(
    n: int,
    ev: Seq<Event>,
    src: Seq<u8>,
    f: FunctionInfoView,
    t: bool,
)
    requires
        1 <= n <= rule_order().len(),
        f.docstring is None,
    ensures
        rules_upto(n, ev, src, seq![f], t) == rule_spec(Rule::MissingDocstring, ev, src, f, t),
    decreases n,
{
    let r = rule_order()[n - 1];
    lemma_rule_over_single(r, ev, src, f, t);
    if n == 1 {
        assert(rules_upto(0, ev, src, seq![f], t) =~= Seq::<DiagView>::empty());
        assert(rules_upto(1, ev, src, seq![f], t) =~= rule_spec(Rule::MissingDocstring, ev, src, f, t));
    } else {
        lemma_rules_upto_no_docstring(n - 1, ev, src, f, t);
        assert(r != Rule::MissingDocstring);
        assert(rule_spec(r, ev, src, f, t) =~= Seq::<DiagView>::empty());
        assert(rules_upto(n, ev, src, seq![f], t) =~= rules_upto(n - 1, ev, src, seq![f], t));
    }
}

/// A function without a docstring gets at most one finding from all the rules together, the
/// missing-docstring one: every other rule stands back. It gets exactly that one unless it is
/// exempt or its position lies outside the text.
pub proof fn lemma_no_docstring_single_finding(
    ev: Seq<Event>,
    src: Seq<u8>,
    f: FunctionInfoView,
    is_test_file: bool,
)
    requires
        f.docstring is None,
    ensures
        all_rules(ev, src, seq![f], is_test_file) == rule_spec(
            Rule::MissingDocstring,
            ev,
            src,
            f,
            is_test_file,
        ),
        all_rules(ev, src, seq![f], is_test_file).len() <= 1,
        (f.at as int) < ev.len() ==> (ev[f.at as int] matches Event::FunctionStart(d)
            && !crate::suppress::suppressed(d, is_test_file, false) && d.range.start < src.len()
            ==> all_rules(ev, src, seq![f], is_test_file).len() == 1),
{
    lemma_rules_upto_no_docstring(rule_order().len() as int, ev, src, f, is_test_file);
}

/// Checking the same module twice gives the same output: the output depends on the walk over
/// the syntax tree, the text and the kind of file alone, and no state is kept between runs.
pub proof fn lemma_same_input_same_output(
    ev: Seq<Event>,
    src: Seq<u8>,
    is_test_file: bool,
    first: Seq<Seq<char>>,
    second: Seq<Seq<char>>,
)
    requires
        first == lint_spec(ev, src, is_test_file),
        second == lint_spec(ev, src, is_test_file),
    ensures
        first == second,
{
}

/// What a rule finds in a list of functions is what it finds in each part of the list.
pub proof fn lemma_rule_over_concat(
    rule: Rule,
    ev: Seq<Event>,
    src: Seq<u8>,
    fs: Seq<FunctionInfoView>,
    gs: Seq<FunctionInfoView>,
    t: bool,
)
    ensures
        rule_over(rule, ev, src, fs + gs, t) == rule_over(rule, ev, src, fs, t) + rule_over(
            rule,
            ev,
            src,
            gs,
            t,
        ),
    decreases gs.len(),
{
    if gs.len() == 0 {
        assert(fs + gs =~= fs);
        assert(rule_over(rule, ev, src, fs, t) + rule_over(rule, ev, src, gs, t) =~= rule_over(
            rule,
            ev,
            src,
            fs,
            t,
        ));
    } else {
        lemma_rule_over_concat(rule, ev, src, fs, gs.drop_last(), t);
        assert((fs + gs).drop_last() =~= fs + gs.drop_last());
        assert((fs + gs).last() == gs.last());
        assert(rule_over(rule, ev, src, fs + gs, t) =~= rule_over(rule, ev, src, fs, t)
            + rule_over(rule, ev, src, gs, t));
    }
}

/// Wherever a function without a docstring stands in a list, every rule but the
/// missing-docstring one finds nothing in it, and that one finds at most one thing: the
/// findings of the list are those of the functions before it, then that one at most, then
/// those of the functions after it.
pub proof fn lemma_no_docstring_in_list(
    rule: Rule,
    ev: Seq<Event>,
    src: Seq<u8>,
    before: Seq<FunctionInfoView>,
    f: FunctionInfoView,
    after: Seq<FunctionInfoView>,
    is_test_file: bool,
)
    requires
        f.docstring is None,
    ensures
        rule_over(rule, ev, src, before + seq![f] + after, is_test_file) == rule_over(
            rule,
            ev,
            src,
            before,
            is_test_file,
        ) + (if rule is MissingDocstring {
            rule_spec(rule, ev, src, f, is_test_file)
        } else {
            seq![]
        }) + rule_over(rule, ev, src, after, is_test_file),
        rule_spec(Rule::MissingDocstring, ev, src, f, is_test_file).len() <= 1,
{
    lemma_rule_over_concat(rule, ev, src, before + seq![f], after, is_test_file);
    lemma_rule_over_concat(rule, ev, src, before, seq![f], is_test_file);
    lemma_rule_over_single(rule, ev, src, f, is_test_file);
}

/// Every function of the list is decorated as an overload.
pub open spec fn all_overloads(ev: Seq<Event>, fs: Seq<FunctionInfoView>) -> bool {
    forall|i: int|
        0 <= i < fs.len() ==> (#[trigger] fs[i].at as int) < ev.len() && (ev[fs[i].at as int] matches Event::FunctionStart(
            d,
        ) && has_mark(d.decorators@, Mark::Overload))
}

proof fn lemma_overloads_rule_over(rule: Rule, ev: Seq<Event>, src: Seq<u8>, fs: Seq<FunctionInfoView>, t: bool)
    requires
        all_overloads(ev, fs),
    ensures
        rule_over(rule, ev, src, fs, t) == Seq::<DiagView>::empty(),
    decreases fs.len(),
{
    if fs.len() > 0 {
        let w = fs.drop_last();
        assert forall|i: int| 0 <= i < w.len() implies (#[trigger] w[i].at as int) < ev.len() && (
        ev[w[i].at as int] matches Event::FunctionStart(d) && has_mark(
            d.decorators@,
            Mark::Overload,
        )) by {
            assert(w[i] == fs[i]);
        }
        lemma_overloads_rule_over(rule, ev, src, w, t);
        let last = fs[fs.len() - 1];
        assert(rule_spec(rule, ev, src, last, t) =~= Seq::<DiagView>::empty());
        assert(rule_over(rule, ev, src, fs, t) =~= Seq::<DiagView>::empty());
    }
}

proof fn lemma_overloads_rules_upto(n: int, ev: Seq<Event>, src: Seq<u8>, fs: Seq<FunctionInfoView>, t: bool)
    requires
        all_overloads(ev, fs),
    ensures
        rules_upto(n, ev, src, fs, t) == Seq::<DiagView>::empty(),
    decreases n,
{
    if 0 < n <= rule_order().len() {
        lemma_overloads_rules_upto(n - 1, ev, src, fs, t);
        lemma_overloads_rule_over(rule_order()[n - 1], ev, src, fs, t);
        assert(rules_upto(n, ev, src, fs, t) =~= Seq::<DiagView>::empty());
    }
}

proof fn lemma_overloads_classes_upto(n: int, ev: Seq<Event>, src: Seq<u8>, cs: Seq<ClassInfoView>, t: bool)
    requires
        forall|c: int| 0 <= c < cs.len() ==> all_overloads(ev, #[trigger] cs[c].funcs),
    ensures
        classes_upto(n, ev, src, cs, t) == Seq::<DiagView>::empty(),
    decreases n,
{
    if 0 < n <= cs.len() {
        lemma_overloads_classes_upto(n - 1, ev, src, cs, t);
        lemma_overloads_rules_upto(rule_order().len() as int, ev, src, cs[n - 1].funcs, t);
        assert(classes_upto(n, ev, src, cs, t) =~= Seq::<DiagView>::empty());
    }
}

/// A module whose functions and methods are all overloads gets no finding at all, whatever
/// their parameters, bodies and docstrings.
pub proof fn lemma_overloads_give_nothing(
    ev: Seq<Event>,
    src: Seq<u8>,
    fs: Seq<FunctionInfoView>,
    cs: Seq<ClassInfoView>,
    is_test_file: bool,
)
    requires
        all_overloads(ev, fs),
        forall|c: int| 0 <= c < cs.len() ==> all_overloads(ev, #[trigger] cs[c].funcs),
    ensures
        findings(ev, src, fs, cs, is_test_file) == Seq::<DiagView>::empty(),
{
    lemma_overloads_rules_upto(rule_order().len() as int, ev, src, fs, is_test_file);
    lemma_overloads_classes_upto(cs.len() as int, ev, src, cs, is_test_file);
    assert(findings(ev, src, fs, cs, is_test_file) =~= Seq::<DiagView>::empty());
}

proof fn lemma_own_facts(ev: Seq<Event>, j: int, depth: nat, k: FactKind)
    requires
        0 <= j,
        ev.len() <= usize::MAX,
    ensures
        forall|x: int|
            0 <= x < own(ev, j, depth, k).len() ==> (#[trigger] own(ev, j, depth, k)[x] as int)
                < ev.len() && is_fact(ev[own(ev, j, depth, k)[x] as int], k),
    decreases ev.len() - j,
{
    if 0 <= j < ev.len() {
        let here: Seq<usize> = if depth == 0 && is_fact(ev[j], k) {
            seq![j as usize]
        } else {
            seq![]
        };
        let nd = next_depth(ev[j], depth);
        if !(ev[j] is End && depth == 0) {
            lemma_own_facts(ev, j + 1, nd, k);
            let rest = own(ev, j + 1, nd, k);
            assert(own(ev, j, depth, k) =~= here + rest) by {
                match ev[j] {
                    Event::End => {
                        assert(here =~= Seq::<usize>::empty());
                    },
                    _ => {},
                }
            }
            assert forall|x: int| 0 <= x < own(ev, j, depth, k).len() implies (#[trigger] own(
                ev,
                j,
                depth,
                k,
            )[x] as int) < ev.len() && is_fact(ev[own(ev, j, depth, k)[x] as int], k) by {
                if x < here.len() {
                    assert(own(ev, j, depth, k)[x] == here[x]);
                } else {
                    assert(own(ev, j, depth, k)[x] == rest[x - here.len()]);
                }
            }
        }
    }
}

/// Every function definition of the walk is decorated as an overload.
pub open spec fn every_function_overload(ev: Seq<Event>) -> bool {
    forall|i: int|
        0 <= i < ev.len() ==> (#[trigger] ev[i] matches Event::FunctionStart(d) ==> has_mark(
            d.decorators@,
            Mark::Overload,
        ))
}

proof fn lemma_module_functions_overloads(ev: Seq<Event>, n: int)
    requires
        every_function_overload(ev),
        ev.len() <= usize::MAX,
    ensures
        all_overloads(ev, module_functions(ev, n)),
    decreases n,
{
    if 0 < n <= ev.len() {
        lemma_module_functions_overloads(ev, n - 1);
        let rest = module_functions(ev, n - 1);
        if ev[n - 1] is FunctionStart && !crate::collector::is_method(ev, n - 1) {
            let all = rest.push(info_spec(ev, n - 1));
            assert forall|i: int| 0 <= i < all.len() implies (#[trigger] all[i].at as int)
                < ev.len() && (ev[all[i].at as int] matches Event::FunctionStart(d) && has_mark(
                d.decorators@,
                Mark::Overload,
            )) by {
                if i < rest.len() {
                    assert(all[i] == rest[i]);
                } else {
                    assert(all[i] == info_spec(ev, n - 1));
                    assert(ev[n - 1] matches Event::FunctionStart(_));
                }
            }
        }
    }
}

/// Checking a module whose every function and method is an overload gives no output at all.
pub proof fn lemma_overload_module_is_silent(ev: Seq<Event>, src: Seq<u8>, is_test_file: bool)
    requires
        every_function_overload(ev),
        ev.len() <= usize::MAX,
    ensures
        lint_spec(ev, src, is_test_file) == Seq::<Seq<char>>::empty(),
{
    let (fs, cs) = collect_spec(ev);
    lemma_module_functions_overloads(ev, ev.len() as int);
    let starts = class_starts(ev, ev.len() as int);
    assert forall|c: int| 0 <= c < cs.len() implies all_overloads(ev, #[trigger] cs[c].funcs) by {
        let i = starts[c] as int;
        assert(cs[c] == class_spec(ev, i));
        let ms = own(ev, i + 1, 0, FactKind::Method);
        lemma_own_facts(ev, i + 1, 0, FactKind::Method);
        let funcs = ms.map_values(|j: usize| info_spec(ev, j as int));
        assert forall|x: int| 0 <= x < funcs.len() implies (#[trigger] funcs[x].at as int)
            < ev.len() && (ev[funcs[x].at as int] matches Event::FunctionStart(d) && has_mark(
            d.decorators@,
            Mark::Overload,
        )) by {
            assert(funcs[x] == info_spec(ev, ms[x] as int));
            assert(is_fact(ev[ms[x] as int], FactKind::Method));
        }
    }
    lemma_overloads_give_nothing(ev, src, fs, cs, is_test_file);
    assert(rendered(findings(ev, src, fs, cs, is_test_file)) =~= Seq::<Seq<char>>::empty());
}

} // verus!

use vstd::prelude::*;
use crate::docstring::string_views;
use crate::position::TextRange;
use crate::syntax::{Param, Params};
use crate::docstring::{skip_space, skip_space_exec};
use crate::text::{chars_of, copy_range, equal_to, is_space, space, starts_with};

verus! {

/// A parameter as the rules see it: its name and where it is declared.
pub struct ParamView {
    pub name: Seq<char>,
    pub range: TextRange,
}

impl View for Param {
    type V = ParamView;

    open spec fn view(&self) -> ParamView {
        ParamView { name: self.name@, range: self.range }
    }
}

pub open spec fn param_views(v: Seq<Param>) -> Seq<ParamView> {
    v.map_values(|p: Param| p@)
}

pub open spec fn opt_param_view(o: Option<Param>) -> Option<ParamView> {
    match o {
        Some(p) => Some(p@),
        None => None,
    }
}

/// The first offset before `j` from which only white space follows up to `j`.
pub open spec fn end_space(l: Seq<char>, j: int) -> int
    decreases j,
{
    if j <= 0 || j > l.len() || !is_space(l[j - 1]) {
        j
    } else {
        end_space(l, j - 1)
    }
}

/// `n` without white space at either end.
pub open spec fn trimmed(n: Seq<char>) -> Seq<char> {
    let s = skip_space(n, 0);
    let e = end_space(n, n.len() as int);
    if s < e {
        n.subrange(s, e)
    } else {
        seq![]
    }
}

/// A parameter whose trimmed name is `self` or `cls` (where `drop_self`) or, where
/// `del_private`, starts with an underscore, is left out of the parameters to document.
pub open spec fn keep_name(n: Seq<char>, drop_self: bool, del_private: bool) -> bool {
    let t = trimmed(n);
    !(drop_self && (t == "self"@ || t == "cls"@)) && !(del_private && t.len() > 0 && t[0] == '_')
}

fn end_space_exec(l: &Vec<char>) -> (r: usize)
    ensures
        r == end_space(l@, l@.len() as int),
        r <= l@.len(),
{
    let mut j = l.len();
    while j > 0 && space(l[j - 1])
        invariant
            j <= l@.len(),
            end_space(l@, j as int) == end_space(l@, l@.len() as int),
        decreases j,
    {
        j = j - 1;
    }
    j
}

fn trimmed_exec(n: &String) -> (r: Vec<char>)
    ensures
        r@ == trimmed(n@),
{
    let cs = chars_of(n.as_str());
    let s = skip_space_exec(&cs, 0);
    let e = end_space_exec(&cs);
    if s < e {
        copy_range(&cs, s, e)
    } else {
        let r: Vec<char> = Vec::new();
        assert(r@ =~= Seq::<char>::empty());
        r
    }
}

/// The parameters of `v` whose names `keep_name` keeps, in order.
pub open spec fn kept(v: Seq<ParamView>, drop_self: bool, del_private: bool) -> Seq<ParamView>
    decreases v.len(),
{
    if v.len() == 0 {
        seq![]
    } else {
        let rest = kept(v.drop_last(), drop_self, del_private);
        if keep_name(v.last().name, drop_self, del_private) {
            rest.push(v.last())
        } else {
            rest
        }
    }
}

pub open spec fn kept_opt(o: Option<Param>, drop_self: bool, del_private: bool) -> Option<
    ParamView,
> {
    match o {
        Some(p) => if keep_name(p.name@, drop_self, del_private) {
            Some(p@)
        } else {
            None
        },
        None => None,
    }
}

/// The parameters left to document, by group.
#[derive(Debug)]
pub struct CleanParams {
    pub posonlyargs: Vec<Param>,
    pub args: Vec<Param>,
    pub vararg: Option<Param>,
    pub kwonlyargs: Vec<Param>,
    pub kwarg: Option<Param>,
}

pub struct CleanParamsView {
    pub posonlyargs: Seq<ParamView>,
    pub args: Seq<ParamView>,
    pub vararg: Option<ParamView>,
    pub kwonlyargs: Seq<ParamView>,
    pub kwarg: Option<ParamView>,
}

impl View for CleanParams {
    type V = CleanParamsView;

    open spec fn view(&self) -> CleanParamsView {
        CleanParamsView {
            posonlyargs: param_views(self.posonlyargs@),
            args: param_views(self.args@),
            vararg: opt_param_view(self.vararg),
            kwonlyargs: param_views(self.kwonlyargs@),
            kwarg: opt_param_view(self.kwarg),
        }
    }
}

/// `self` and `cls` leave the positional groups and `*args`; with `del_private`, names that
/// start with an underscore leave every group. What stays keeps its order.
pub open spec fn cleanse_spec(p: Params, del_private: bool) -> CleanParamsView {
    CleanParamsView {
        posonlyargs: kept(param_views(p.posonlyargs@), true, del_private),
        args: kept(param_views(p.args@), true, del_private),
        vararg: kept_opt(p.vararg, true, del_private),
        kwonlyargs: kept(param_views(p.kwonlyargs@), false, del_private),
        kwarg: kept_opt(p.kwarg, false, del_private),
    }
}

pub open spec fn is_args_empty_spec(c: CleanParamsView) -> bool {
    c.vararg is None && c.kwarg is None && c.kwonlyargs.len() == 0 && c.args.len() == 0
        && c.posonlyargs.len() == 0
}

pub open spec fn opt_list(o: Option<ParamView>) -> Seq<ParamView> {
    match o {
        Some(p) => seq![p],
        None => seq![],
    }
}

/// The parameters left to document, in the order the rules visit them: `*args`, `**kwargs`,
/// the regular, keyword-only and positional-only parameters.
pub open spec fn param_list(c: CleanParamsView) -> Seq<ParamView> {
    opt_list(c.vararg) + opt_list(c.kwarg) + c.args + c.kwonlyargs + c.posonlyargs
}

/// The names of `param_list`, in the same order.
pub open spec fn param_names(c: CleanParamsView) -> Seq<Seq<char>> {
    param_list(c).map_values(|p: ParamView| p.name)
}

fn keep_exec(n: &String, drop_self: bool, del_private: bool) -> (r: bool)
    ensures
        r == keep_name(n@, drop_self, del_private),
{
    let cs = trimmed_exec(n);
    let is_self = equal_to(&cs, "self") || equal_to(&cs, "cls");
    let private = cs.len() > 0 && cs[0] == '_';
    !(drop_self && is_self) && !(del_private && private)
}

fn copy_param(p: &Param) -> (r: Param)
    ensures
        r@ == p@,
{
    Param { name: p.name.clone(), range: p.range }
}

fn kept_exec(v: &Vec<Param>, drop_self: bool, del_private: bool) -> (r: Vec<Param>)
    ensures
        param_views(r@) == kept(param_views(v@), drop_self, del_private),
{
    let ghost vv = param_views(v@);
    let mut out: Vec<Param> = Vec::new();
    let mut i: usize = 0;
    assert(vv.subrange(0, 0) =~= Seq::<ParamView>::empty());
    while i < v.len()
        invariant
            i <= v@.len(),
            vv == param_views(v@),
            param_views(out@) == kept(vv.subrange(0, i as int), drop_self, del_private),
        decreases v@.len() - i,
    {
        assert(vv.subrange(0, i + 1).drop_last() =~= vv.subrange(0, i as int));
        if keep_exec(&v[i].name, drop_self, del_private) {
            let ghost before = out@;
            let p = copy_param(&v[i]);
            out.push(p);
            assert(param_views(out@) =~= param_views(before).push(v@[i as int]@));
        }
        i = i + 1;
    }
    assert(vv.subrange(0, vv.len() as int) =~= vv);
    out
}

fn kept_opt_exec(o: &Option<Param>, drop_self: bool, del_private: bool) -> (r: Option<Param>)
    ensures
        opt_param_view(r) == kept_opt(*o, drop_self, del_private),
{
    match o {
        Some(p) => if keep_exec(&p.name, drop_self, del_private) {
            Some(copy_param(p))
        } else {
            None
        },
        None => None,
    }
}

/// The parameters left to document (see `cleanse_spec`), as a filtered copy.
pub fn cleanse_args(p: &Params, del_private: bool) -> (r: CleanParams)
    ensures
        r@ == cleanse_spec(*p, del_private),
{
    CleanParams {
        posonlyargs: kept_exec(&p.posonlyargs, true, del_private),
        args: kept_exec(&p.args, true, del_private),
        vararg: kept_opt_exec(&p.vararg, true, del_private),
        kwonlyargs: kept_exec(&p.kwonlyargs, false, del_private),
        kwarg: kept_opt_exec(&p.kwarg, false, del_private),
    }
}

/// No parameter is left to document.
pub fn is_args_empty(c: &CleanParams) -> (r: bool)
    ensures
        r == is_args_empty_spec(c@),
{
    c.vararg.is_none() && c.kwarg.is_none() && c.kwonlyargs.len() == 0 && c.args.len() == 0
        && c.posonlyargs.len() == 0
}

fn append_params(out: &mut Vec<Param>, v: &Vec<Param>)
    ensures
        param_views(final(out)@) == param_views(old(out)@) + param_views(v@),
{
    let mut i: usize = 0;
    let ghost start = param_views(out@);
    while i < v.len()
        invariant
            i <= v@.len(),
            param_views(out@) == start + param_views(v@.subrange(0, i as int)),
        decreases v@.len() - i,
    {
        let ghost before = out@;
        let p = copy_param(&v[i]);
        out.push(p);
        assert(param_views(out@) =~= param_views(before).push(v@[i as int]@));
        assert(param_views(v@.subrange(0, i + 1)) =~= param_views(v@.subrange(0, i as int)).push(
            v@[i as int]@,
        ));
        i = i + 1;
    }
    assert(v@.subrange(0, v@.len() as int) =~= v@);
}

fn push_opt(out: &mut Vec<Param>, o: &Option<Param>)
    ensures
        param_views(final(out)@) == param_views(old(out)@) + opt_list(opt_param_view(*o)),
{
    match o {
        Some(p) => {
            let ghost before = out@;
            let q = copy_param(p);
            out.push(q);
            assert(param_views(out@) =~= param_views(before) + seq![p@]);
        },
        None => {
            assert(param_views(out@) =~= param_views(out@) + Seq::<ParamView>::empty());
        },
    }
}

/// The parameters left to document, in the order of `param_list`.
pub fn clean_param_list(c: &CleanParams) -> (r: Vec<Param>)
    ensures
        param_views(r@) == param_list(c@),
{
    let mut out: Vec<Param> = Vec::new();
    assert(param_views(out@) =~= Seq::<ParamView>::empty());
    push_opt(&mut out, &c.vararg);
    push_opt(&mut out, &c.kwarg);
    append_params(&mut out, &c.args);
    append_params(&mut out, &c.kwonlyargs);
    append_params(&mut out, &c.posonlyargs);
    assert(param_views(out@) =~= param_list(c@));
    out
}

/// The names left to document, in the order of `param_names`.
pub fn clean_param_names(c: &CleanParams) -> (r: Vec<String>)
    ensures
        string_views(r@) == param_names(c@),
{
    let list = clean_param_list(c);
    let ghost pv = param_views(list@);
    let mut out: Vec<String> = Vec::new();
    let mut i: usize = 0;
    while i < list.len()
        invariant
            i <= list@.len(),
            pv == param_views(list@),
            pv == param_list(c@),
            string_views(out@) == pv.subrange(0, i as int).map_values(|p: ParamView| p.name),
        decreases list@.len() - i,
    {
        let ghost before = out@;
        out.push(list[i].name.clone());
        assert(string_views(out@) =~= string_views(before).push(list@[i as int].name@));
        assert(pv.subrange(0, i + 1).map_values(|p: ParamView| p.name) =~= pv.subrange(
            0,
            i as int,
        ).map_values(|p: ParamView| p.name).push(pv[i as int].name));
        i = i + 1;
    }
    assert(pv.subrange(0, pv.len() as int) =~= pv);
    out
}

/// Whether `name` starts with `prefix`.
pub fn name_starts_with(name: &String, prefix: &str) -> (r: bool)
    ensures
        r == (prefix@.len() <= name@.len() && name@.subrange(0, prefix@.len() as int) == prefix@),
{
    starts_with(&chars_of(name.as_str()), prefix)
}

} // verus!

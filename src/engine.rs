use vstd::prelude::*;
use crate::collector::{
    class_views, collect, collect_spec, info_views, ClassInfo, ClassInfoView, DocstringCollector,
    FunctionInfo, FunctionInfoView,
};
use crate::render::{format_problem, problem_text};
use crate::rules::{check_function, diag_views, extend_diags, rule_spec, DiagView, Diagnostic, Rule};
use crate::suppress::{is_test_file, test_file_spec};
use crate::syntax::Event;

verus! {

/// The order in which the rules run.
pub open spec fn rule_order() -> Seq<Rule> {
    seq![
        Rule::MissingDocstring,
        Rule::MissingReturns,
        Rule::ExtraReturns,
        Rule::MultipleReturns,
        Rule::MissingYields,
        Rule::ExtraYields,
        Rule::MultipleYields,
        Rule::MissingArgs,
        Rule::ExtraArgs,
        Rule::MultipleArgs,
        Rule::MissingArg,
        Rule::ExtraArg,
        Rule::DuplicateArg,
        Rule::MissingRaises,
        Rule::ExtraRaises,
        Rule::MultipleRaises,
        Rule::MissingExc,
        Rule::ExtraExc,
        Rule::ReRaise,
        Rule::DuplicateExc,
    ]
}

pub const RULE_COUNT: usize = 20;

fn rule_at(k: usize) -> (r: Rule)
    requires
        k < 20,
    ensures
        r == rule_order()[k as int],
{
    if k == 0 { Rule::MissingDocstring } else if k == 1 { Rule::MissingReturns }
    else if k == 2 { Rule::ExtraReturns } else if k == 3 { Rule::MultipleReturns }
    else if k == 4 { Rule::MissingYields } else if k == 5 { Rule::ExtraYields }
    else if k == 6 { Rule::MultipleYields } else if k == 7 { Rule::MissingArgs }
    else if k == 8 { Rule::ExtraArgs } else if k == 9 { Rule::MultipleArgs }
    else if k == 10 { Rule::MissingArg } else if k == 11 { Rule::ExtraArg }
    else if k == 12 { Rule::DuplicateArg } else if k == 13 { Rule::MissingRaises }
    else if k == 14 { Rule::ExtraRaises } else if k == 15 { Rule::MultipleRaises }
    else if k == 16 { Rule::MissingExc } else if k == 17 { Rule::ExtraExc }
    else if k == 18 { Rule::ReRaise } else { Rule::DuplicateExc }
}

/// What one rule finds in each of the functions `fs`, function by function.
pub open spec fn rule_over(
    rule: Rule,
    ev: Seq<Event>,
    src: Seq<u8>,
    fs: Seq<FunctionInfoView>,
    is_test_file: bool,
) -> Seq<DiagView>
    decreases fs.len(),
{
    if fs.len() == 0 {
        seq![]
    } else {
        rule_over(rule, ev, src, fs.drop_last(), is_test_file) + rule_spec(
            rule,
            ev,
            src,
            fs.last(),
            is_test_file,
        )
    }
}

/// What the first `n` rules find in the functions `fs`, rule by rule.
pub open spec fn rules_upto(
    n: int,
    ev: Seq<Event>,
    src: Seq<u8>,
    fs: Seq<FunctionInfoView>,
    is_test_file: bool,
) -> Seq<DiagView>
    decreases n,
{
    if n <= 0 || n > rule_order().len() {
        seq![]
    } else {
        rules_upto(n - 1, ev, src, fs, is_test_file) + rule_over(
            rule_order()[n - 1],
            ev,
            src,
            fs,
            is_test_file,
        )
    }
}

/// What every rule finds in the functions `fs`.
pub open spec fn all_rules(
    ev: Seq<Event>,
    src: Seq<u8>,
    fs: Seq<FunctionInfoView>,
    is_test_file: bool,
) -> Seq<DiagView> {
    rules_upto(rule_order().len() as int, ev, src, fs, is_test_file)
}

/// What every rule finds in the methods of the first `n` classes, class by class.
pub open spec fn classes_upto(
    n: int,
    ev: Seq<Event>,
    src: Seq<u8>,
    cs: Seq<ClassInfoView>,
    is_test_file: bool,
) -> Seq<DiagView>
    decreases n,
{
    if n <= 0 || n > cs.len() {
        seq![]
    } else {
        classes_upto(n - 1, ev, src, cs, is_test_file) + all_rules(
            ev,
            src,
            cs[n - 1].funcs,
            is_test_file,
        )
    }
}

/// The findings of a module: every rule over the module's functions, then every rule over the
/// methods of each class.
pub open spec fn findings(
    ev: Seq<Event>,
    src: Seq<u8>,
    fs: Seq<FunctionInfoView>,
    cs: Seq<ClassInfoView>,
    is_test_file: bool,
) -> Seq<DiagView> {
    all_rules(ev, src, fs, is_test_file) + classes_upto(cs.len() as int, ev, src, cs, is_test_file)
}

/// What one rule finds in each of the functions.
pub fn check_functions(
    rule: Rule,
    ev: &Vec<Event>,
    src: &Vec<u8>,
    fs: &Vec<FunctionInfo>,
    is_test_file: bool,
) -> (r: Vec<Diagnostic>)
    ensures
        diag_views(r@) == rule_over(rule, ev@, src@, info_views(fs@), is_test_file),
{
    let ghost fv = info_views(fs@);
    let mut out: Vec<Diagnostic> = Vec::new();
    let mut i: usize = 0;
    assert(fv.subrange(0, 0) =~= Seq::<FunctionInfoView>::empty());
    assert(diag_views(out@) =~= Seq::<DiagView>::empty());
    while i < fs.len()
        invariant
            i <= fs@.len(),
            fv == info_views(fs@),
            diag_views(out@) == rule_over(rule, ev@, src@, fv.subrange(0, i as int), is_test_file),
        decreases fs@.len() - i,
    {
        assert(fv.subrange(0, i + 1).drop_last() =~= fv.subrange(0, i as int));
        let more = check_function(rule, ev, src, &fs[i], is_test_file);
        extend_diags(&mut out, more);
        i = i + 1;
    }
    assert(fv.subrange(0, fv.len() as int) =~= fv);
    out
}

/// What every rule finds in the functions, rule by rule.
pub fn check_all_rules(ev: &Vec<Event>, src: &Vec<u8>, fs: &Vec<FunctionInfo>, is_test_file: bool) -> (r: Vec<Diagnostic>)
    ensures
        diag_views(r@) == all_rules(ev@, src@, info_views(fs@), is_test_file),
{
    let mut out: Vec<Diagnostic> = Vec::new();
    assert(diag_views(out@) =~= Seq::<DiagView>::empty());
    let mut k: usize = 0;
    while k < RULE_COUNT
        invariant
            k <= 20,
            diag_views(out@) == rules_upto(k as int, ev@, src@, info_views(fs@), is_test_file),
        decreases 20 - k,
    {
        let more = check_functions(rule_at(k), ev, src, fs, is_test_file);
        extend_diags(&mut out, more);
        k = k + 1;
    }
    out
}

/// Every finding of a module whose functions and classes were collected from `ev`.
pub fn generate_rules_output(
    ev: &Vec<Event>,
    src: &Vec<u8>,
    things: &DocstringCollector,
    is_test_file: bool,
) -> (r: Vec<Diagnostic>)
    ensures
        diag_views(r@) == findings(
            ev@,
            src@,
            info_views(things.function_infos@),
            class_views(things.class_infos@),
            is_test_file,
        ),
{
    let ghost cv = class_views(things.class_infos@);
    let mut out = check_all_rules(ev, src, &things.function_infos, is_test_file);
    let ghost first = diag_views(out@);
    let mut c: usize = 0;
    assert(first + classes_upto(0, ev@, src@, cv, is_test_file) =~= first);
    while c < things.class_infos.len()
        invariant
            c <= things.class_infos@.len(),
            cv == class_views(things.class_infos@),
            first == all_rules(ev@, src@, info_views(things.function_infos@), is_test_file),
            diag_views(out@) == first + classes_upto(c as int, ev@, src@, cv, is_test_file),
        decreases things.class_infos@.len() - c,
    {
        let more = check_all_rules(ev, src, &things.class_infos[c].funcs, is_test_file);
        extend_diags(&mut out, more);
        assert(cv[c as int].funcs == info_views(things.class_infos@[c as int].funcs@));
        assert(diag_views(out@) =~= first + classes_upto(c + 1, ev@, src@, cv, is_test_file));
        c = c + 1;
    }
    out
}

/// The lines of output for a list of findings.
pub open spec fn rendered(ds: Seq<DiagView>) -> Seq<Seq<char>> {
    ds.map_values(|d: DiagView| problem_text(d.line, d.column, d.message))
}

/// The output of the linter on a module: the walk `ev` over its syntax tree, its text, and the
/// name of its file.
pub open spec fn lint_spec(ev: Seq<Event>, source: Seq<u8>, test_file: bool) -> Seq<Seq<char>> {
    let (fs, cs) = collect_spec(ev);
    rendered(findings(ev, source, fs, cs, test_file))
}

/// Checks a module: collects its functions and classes from the walk `ev`, applies every rule
/// and formats each finding as `line:column message`.
pub fn check_module(ev: &Vec<Event>, source: &Vec<u8>, file_name: Option<&str>) -> (r: Vec<String>)
    ensures
        crate::docstring::string_views(r@) == lint_spec(
            ev@,
            source@,
            file_name matches Some(f) && test_file_spec(f@),
        ),
{
    let test = is_test_file(file_name);
    let things = collect(ev);
    let ds = generate_rules_output(ev, source, &things, test);
    let ghost dv = diag_views(ds@);
    let mut out: Vec<String> = Vec::new();
    let mut i: usize = 0;
    while i < ds.len()
        invariant
            i <= ds@.len(),
            dv == diag_views(ds@),
            crate::docstring::string_views(out@) == rendered(dv.subrange(0, i as int)),
        decreases ds@.len() - i,
    {
        let d = &ds[i];
        let s = format_problem(d.line, d.column, d.message.as_str());
        let ghost before = out@;
        out.push(s);
        assert(crate::docstring::string_views(out@) =~= crate::docstring::string_views(before).push(s@));
        assert(rendered(dv.subrange(0, i + 1)) =~= rendered(dv.subrange(0, i as int)).push(
            problem_text(dv[i as int].line, dv[i as int].column, dv[i as int].message),
        ));
        i = i + 1;
    }
    assert(dv.subrange(0, dv.len() as int) =~= dv);
    out
}

} // verus!

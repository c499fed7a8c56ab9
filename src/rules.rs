use vstd::prelude::*;
use vstd::utf8::encode_utf8;
use crate::collector::{FunctionInfo, FunctionInfoView};
use crate::constants;
use crate::docstring::{list_or_empty, DocstringView, SectionKind, string_views};
use crate::params::{cleanse_args, cleanse_spec, clean_param_names, is_args_empty, is_args_empty_spec, param_names};
use crate::position::{
    byte_views, find_line_and_column, find_string_in_text_range, hits_in, newline_count, tail_len,
    Hit, TextRange,
};
use crate::suppress::{should_skip, should_skip_dont_skip_private, suppressed};
use crate::syntax::{Callee, Event, ExcExpr, ExcName, FunctionDef, Param};
use crate::params::{clean_param_list, param_list, param_views, ParamView};

verus! {

/// One finding: where it is and what it says.
#[derive(Debug)]
pub struct Diagnostic {
    pub line: usize,
    pub column: usize,
    pub message: String,
}

pub struct DiagView {
    pub line: usize,
    pub column: usize,
    pub message: Seq<char>,
}

impl View for Diagnostic {
    type V = DiagView;

    open spec fn view(&self) -> DiagView {
        DiagView { line: self.line, column: self.column, message: self.message@ }
    }
}

pub open spec fn diag_views(v: Seq<Diagnostic>) -> Seq<DiagView> {
    v.map_values(|d: Diagnostic| d@)
}

// ---------------------------------------------------------------------------------------------
// Positions
// ---------------------------------------------------------------------------------------------

/// The 1-based line and 0-based column of byte offset `p`, where `p` lies in the source.
pub open spec fn start_pos(src: Seq<u8>, p: usize) -> Option<(usize, usize)> {
    if p < src.len() {
        Some(
            (
                (newline_count(src.subrange(0, p as int)) + 1) as usize,
                tail_len(src.subrange(0, p as int)) as usize,
            ),
        )
    } else {
        None
    }
}

/// A finding at each hit of a section keyword, two lines above the line count of the text
/// before the keyword (a hit too near the top gives none).
pub open spec fn kw_diags(hits: Seq<Hit>, msg: Seq<char>) -> Seq<DiagView>
    decreases hits.len(),
{
    if hits.len() == 0 {
        seq![]
    } else {
        let rest = kw_diags(hits.drop_last(), msg);
        let h = hits.last();
        if h.line >= 2 {
            rest.push(DiagView { line: (h.line - 2) as usize, column: h.column, message: msg })
        } else {
            rest
        }
    }
}

/// A finding at the first hit, if any: shifted up two lines where `shift` (keyword anchors),
/// else at the line count of the text before it.
pub open spec fn first_hit_diag(hits: Seq<Hit>, shift: bool, msg: Seq<char>) -> Seq<DiagView> {
    if hits.len() == 0 {
        seq![]
    } else if shift {
        if hits[0].line >= 2 {
            seq![DiagView { line: (hits[0].line - 2) as usize, column: hits[0].column, message: msg }]
        } else {
            seq![]
        }
    } else {
        seq![DiagView { line: hits[0].line, column: hits[0].column, message: msg }]
    }
}

/// The names, in order, joined by commas.
pub open spec fn joined(names: Seq<Seq<char>>) -> Seq<char>
    decreases names.len(),
{
    if names.len() == 0 {
        seq![]
    } else if names.len() == 1 {
        names[0]
    } else {
        joined(names.drop_last()) + ","@ + names.last()
    }
}

fn kw_diags_exec(hits: &Vec<Hit>, msg: &String) -> (r: Vec<Diagnostic>)
    ensures
        diag_views(r@) == kw_diags(hits@, msg@),
{
    let mut out: Vec<Diagnostic> = Vec::new();
    let mut i: usize = 0;
    assert(hits@.subrange(0, 0) =~= Seq::<Hit>::empty());
    while i < hits.len()
        invariant
            i <= hits@.len(),
            diag_views(out@) == kw_diags(hits@.subrange(0, i as int), msg@),
        decreases hits@.len() - i,
    {
        assert(hits@.subrange(0, i + 1).drop_last() =~= hits@.subrange(0, i as int));
        let h = hits[i];
        if h.line >= 2 {
            let d = Diagnostic { line: h.line - 2, column: h.column, message: msg.clone() };
            let ghost before = out@;
            out.push(d);
            assert(diag_views(out@) =~= diag_views(before).push(d@));
        }
        i = i + 1;
    }
    assert(hits@.subrange(0, hits@.len() as int) =~= hits@);
    out
}

fn first_hit_diag_exec(hits: &Vec<Hit>, shift: bool, msg: String) -> (r: Vec<Diagnostic>)
    ensures
        diag_views(r@) == first_hit_diag(hits@, shift, msg@),
{
    let mut out: Vec<Diagnostic> = Vec::new();
    if hits.len() > 0 {
        let h = hits[0];
        if !shift || h.line >= 2 {
            let line = if shift {
                h.line - 2
            } else {
                h.line
            };
            let d = Diagnostic { line, column: h.column, message: msg };
            out.push(d);
        }
    }
    assert(diag_views(out@) =~= first_hit_diag(hits@, shift, msg@));
    out
}

fn joined_exec(names: &Vec<String>) -> (r: String)
    ensures
        r@ == joined(string_views(names@)),
{
    let ghost nv = string_views(names@);
    let mut out = String::new();
    let mut i: usize = 0;
    assert(nv.subrange(0, 0) =~= Seq::<Seq<char>>::empty());
    while i < names.len()
        invariant
            i <= names@.len(),
            nv == string_views(names@),
            out@ == joined(nv.subrange(0, i as int)),
        decreases names@.len() - i,
    {
        let ghost pre = nv.subrange(0, i as int);
        assert(nv.subrange(0, i + 1).drop_last() =~= pre);
        if i > 0 {
            out.append(",");
        }
        out.append(names[i].as_str());
        proof {
            if i == 0 {
                assert(out@ =~= nv[0]);
            } else {
                assert(out@ =~= joined(pre) + ","@ + nv[i as int]);
            }
        }
        i = i + 1;
    }
    assert(nv.subrange(0, nv.len() as int) =~= nv);
    out
}

fn lit(s: &str) -> (r: Vec<u8>)
    ensures
        r@ == encode_utf8(s@),
{
    s.as_bytes_vec()
}

fn one_target(a: &str) -> (r: Vec<Vec<u8>>)
    ensures
        byte_views(r@) == seq![encode_utf8(a@)],
{
    let mut v: Vec<Vec<u8>> = Vec::new();
    v.push(lit(a));
    assert(byte_views(v@) =~= seq![encode_utf8(a@)]);
    v
}

fn two_targets(a: &str, b: &str) -> (r: Vec<Vec<u8>>)
    ensures
        byte_views(r@) == seq![encode_utf8(a@), encode_utf8(b@)],
{
    let mut v: Vec<Vec<u8>> = Vec::new();
    v.push(lit(a));
    v.push(lit(b));
    assert(byte_views(v@) =~= seq![encode_utf8(a@), encode_utf8(b@)]);
    v
}

fn three_targets(a: &str, b: &str, c: &str) -> (r: Vec<Vec<u8>>)
    ensures
        byte_views(r@) == seq![encode_utf8(a@), encode_utf8(b@), encode_utf8(c@)],
{
    let mut v: Vec<Vec<u8>> = Vec::new();
    v.push(lit(a));
    v.push(lit(b));
    v.push(lit(c));
    assert(byte_views(v@) =~= seq![encode_utf8(a@), encode_utf8(b@), encode_utf8(c@)]);
    v
}

// ---------------------------------------------------------------------------------------------
// Statements
// ---------------------------------------------------------------------------------------------

/// Which of a function's statements a rule looks at.
#[derive(Clone, Copy, Debug, PartialEq, Eq, Structural)]
pub enum Sel {
    ReturnWithValue,
    YieldWithValue,
    BareRaise,
    AnyRaise,
}

/// The bytes of a bare `yield`.
pub open spec fn yield_word() -> Seq<u8> {
    seq![121u8, 105u8, 101u8, 108u8, 100u8]
}

/// The yield's own text is the bare word `yield`: it yields no value.
pub open spec fn yield_empty(src: Seq<u8>, range: TextRange) -> bool {
    range.within(src.len()) && src.subrange(range.start as int, range.end as int) == yield_word()
}

pub open spec fn selected(e: Event, src: Seq<u8>, sel: Sel) -> bool {
    match sel {
        Sel::ReturnWithValue => e matches Event::Return(r) && r.has_value,
        Sel::YieldWithValue => e matches Event::Yield(y) && !yield_empty(src, y.range),
        Sel::BareRaise => e matches Event::Raise(r) && r.exc is None,
        Sel::AnyRaise => e is Raise,
    }
}

pub open spec fn event_start(e: Event) -> usize {
    match e {
        Event::Return(r) => r.range.start,
        Event::Raise(r) => r.range.start,
        Event::Yield(y) => y.range.start,
        _ => 0,
    }
}

/// A finding at each selected statement of `idxs`, at its own line and column.
pub open spec fn stmt_diags(
    ev: Seq<Event>,
    src: Seq<u8>,
    idxs: Seq<usize>,
    sel: Sel,
    msg: Seq<char>,
) -> Seq<DiagView>
    decreases idxs.len(),
{
    if idxs.len() == 0 {
        seq![]
    } else {
        let rest = stmt_diags(ev, src, idxs.drop_last(), sel, msg);
        let i = idxs.last() as int;
        if i < ev.len() && selected(ev[i], src, sel) {
            match start_pos(src, event_start(ev[i])) {
                Some((l, c)) => rest.push(DiagView { line: l, column: c, message: msg }),
                None => rest,
            }
        } else {
            rest
        }
    }
}

/// No statement of `idxs` is selected.
pub open spec fn none_selected(ev: Seq<Event>, src: Seq<u8>, idxs: Seq<usize>, sel: Sel) -> bool {
    forall|k: int|
        0 <= k < idxs.len() && (idxs[k] as int) < ev.len() ==> !selected(
            #[trigger] ev[idxs[k] as int],
            src,
            sel,
        )
}

fn is_yield_empty(src: &Vec<u8>, range: TextRange) -> (r: bool)
    ensures
        r == yield_empty(src@, range),
{
    if !(range.start <= range.end && range.end <= src.len()) {
        return false;
    }
    if range.end - range.start != 5 {
        assert(src@.subrange(range.start as int, range.end as int).len() != yield_word().len());
        return false;
    }
    let s = range.start;
    let r = src[s] == 121u8 && src[s + 1] == 105u8 && src[s + 2] == 101u8 && src[s + 3] == 108u8
        && src[s + 4] == 100u8;
    proof {
        let sub = src@.subrange(s as int, range.end as int);
        if r {
            assert(sub =~= yield_word());
        } else {
            assert(sub.len() == 5);
            assert(sub[0] == src@[s as int]);
            assert(sub[1] == src@[s + 1]);
            assert(sub[2] == src@[s + 2]);
            assert(sub[3] == src@[s + 3]);
            assert(sub[4] == src@[s + 4]);
        }
    }
    r
}

fn is_selected(e: &Event, src: &Vec<u8>, sel: Sel) -> (r: bool)
    ensures
        r == selected(*e, src@, sel),
{
    match sel {
        Sel::ReturnWithValue => match e {
            Event::Return(r) => r.has_value,
            _ => false,
        },
        Sel::YieldWithValue => match e {
            Event::Yield(y) => !is_yield_empty(src, y.range),
            _ => false,
        },
        Sel::BareRaise => match e {
            Event::Raise(r) => r.exc.is_none(),
            _ => false,
        },
        Sel::AnyRaise => match e {
            Event::Raise(_) => true,
            _ => false,
        },
    }
}

fn start_of(e: &Event) -> (r: usize)
    ensures
        r == event_start(*e),
{
    match e {
        Event::Return(r) => r.range.start,
        Event::Raise(r) => r.range.start,
        Event::Yield(y) => y.range.start,
        _ => 0,
    }
}

fn stmt_diags_exec(ev: &Vec<Event>, src: &Vec<u8>, idxs: &Vec<usize>, sel: Sel, msg: &String) -> (r:
    Vec<Diagnostic>)
    ensures
        diag_views(r@) == stmt_diags(ev@, src@, idxs@, sel, msg@),
{
    let mut out: Vec<Diagnostic> = Vec::new();
    let mut k: usize = 0;
    assert(idxs@.subrange(0, 0) =~= Seq::<usize>::empty());
    while k < idxs.len()
        invariant
            k <= idxs@.len(),
            diag_views(out@) == stmt_diags(ev@, src@, idxs@.subrange(0, k as int), sel, msg@),
        decreases idxs@.len() - k,
    {
        assert(idxs@.subrange(0, k + 1).drop_last() =~= idxs@.subrange(0, k as int));
        let i = idxs[k];
        if i < ev.len() && is_selected(&ev[i], src, sel) {
            match find_line_and_column(src, start_of(&ev[i])) {
                Some((l, c)) => {
                    let d = Diagnostic { line: l, column: c, message: msg.clone() };
                    let ghost before = out@;
                    out.push(d);
                    assert(diag_views(out@) =~= diag_views(before).push(d@));
                },
                None => {},
            }
        }
        k = k + 1;
    }
    assert(idxs@.subrange(0, idxs@.len() as int) =~= idxs@);
    out
}

fn none_selected_exec(ev: &Vec<Event>, src: &Vec<u8>, idxs: &Vec<usize>, sel: Sel) -> (r: bool)
    ensures
        r == none_selected(ev@, src@, idxs@, sel),
{
    let mut k: usize = 0;
    while k < idxs.len()
        invariant
            k <= idxs@.len(),
            forall|j: int|
                0 <= j < k && (idxs@[j] as int) < ev@.len() ==> !selected(
                    #[trigger] ev@[idxs@[j] as int],
                    src@,
                    sel,
                ),
        decreases idxs@.len() - k,
    {
        let i = idxs[k];
        if i < ev.len() && is_selected(&ev[i], src, sel) {
            return false;
        }
        k = k + 1;
    }
    true
}

// ---------------------------------------------------------------------------------------------
// Exceptions
// ---------------------------------------------------------------------------------------------

/// The name of what a `raise` statement raises: a called name, the name itself, an
/// attribute's own name, or a named expression's bound name. A bare re-raise and any other
/// expression have none.
pub open spec fn exc_id(e: Event) -> Option<Seq<char>> {
    match e {
        Event::Raise(r) => match r.exc {
            Some(ExcExpr::Name(n)) => Some(n.name@),
            Some(ExcExpr::Attribute(a)) => Some(a.name@),
            Some(ExcExpr::Call(Callee::Name(n))) => Some(n.name@),
            Some(ExcExpr::Call(Callee::Attribute(a))) => Some(a.name@),
            Some(ExcExpr::Named(t)) => Some(t.name@),
            _ => None,
        },
        _ => None,
    }
}

/// The name of what a `raise` statement raises (see `exc_id`).
pub fn get_exc_id(e: &Event) -> (r: Option<String>)
    ensures
        crate::docstring::opt_view(r) == exc_id(*e),
{
    match e {
        Event::Raise(r) => match &r.exc {
            Some(ExcExpr::Name(n)) => Some(n.name.clone()),
            Some(ExcExpr::Attribute(a)) => Some(a.name.clone()),
            Some(ExcExpr::Call(Callee::Name(n))) => Some(n.name.clone()),
            Some(ExcExpr::Call(Callee::Attribute(a))) => Some(a.name.clone()),
            Some(ExcExpr::Named(t)) => Some(t.name.clone()),
            _ => None,
        },
        _ => None,
    }
}

/// The names of the exceptions that the statements of `idxs` raise, in order.
pub open spec fn raised_ids(ev: Seq<Event>, idxs: Seq<usize>) -> Seq<Seq<char>>
    decreases idxs.len(),
{
    if idxs.len() == 0 {
        seq![]
    } else {
        let rest = raised_ids(ev, idxs.drop_last());
        let i = idxs.last() as int;
        if i < ev.len() {
            match exc_id(ev[i]) {
                Some(n) => rest.push(n),
                None => rest,
            }
        } else {
            rest
        }
    }
}

fn raised_ids_exec(ev: &Vec<Event>, idxs: &Vec<usize>) -> (r: Vec<String>)
    ensures
        crate::docstring::string_views(r@) == raised_ids(ev@, idxs@),
{
    let mut out: Vec<String> = Vec::new();
    let mut k: usize = 0;
    assert(idxs@.subrange(0, 0) =~= Seq::<usize>::empty());
    while k < idxs.len()
        invariant
            k <= idxs@.len(),
            crate::docstring::string_views(out@) == raised_ids(ev@, idxs@.subrange(0, k as int)),
        decreases idxs@.len() - k,
    {
        assert(idxs@.subrange(0, k + 1).drop_last() =~= idxs@.subrange(0, k as int));
        let i = idxs[k];
        if i < ev.len() {
            match get_exc_id(&ev[i]) {
                Some(n) => {
                    let ghost before = out@;
                    out.push(n);
                    assert(crate::docstring::string_views(out@) =~= crate::docstring::string_views(
                        before,
                    ).push(n@));
                },
                None => {},
            }
        }
        k = k + 1;
    }
    assert(idxs@.subrange(0, idxs@.len() as int) =~= idxs@);
    out
}

// ---------------------------------------------------------------------------------------------
// Named items
// ---------------------------------------------------------------------------------------------

/// The messages that name an argument or an exception.
#[derive(Clone, Copy, Debug, PartialEq, Eq, Structural)]
pub enum ItemMsg {
    ArgNotIn,
    ArgIn,
    DuplicateArg,
    ExcNotIn,
    ExcIn,
    DuplicateExc,
}

pub open spec fn item_msg(k: ItemMsg, x: Seq<char>) -> Seq<char> {
    match k {
        ItemMsg::ArgNotIn => constants::arg_not_in_docstr_msg_text(x),
        ItemMsg::ArgIn => constants::arg_in_docstr_msg_text(x),
        ItemMsg::DuplicateArg => constants::duplicate_arg_msg_text(x),
        ItemMsg::ExcNotIn => constants::exc_not_in_docstr_msg_text(x),
        ItemMsg::ExcIn => constants::exc_in_docstr_msg_text(x),
        ItemMsg::DuplicateExc => constants::duplicate_exc_msg_text(x),
    }
}

fn item_msg_exec(k: ItemMsg, x: &String) -> (r: String)
    ensures
        r@ == item_msg(k, x@),
{
    match k {
        ItemMsg::ArgNotIn => constants::arg_not_in_docstr_msg(x.as_str()),
        ItemMsg::ArgIn => constants::arg_in_docstr_msg(x.as_str()),
        ItemMsg::DuplicateArg => constants::duplicate_arg_msg(x.as_str()),
        ItemMsg::ExcNotIn => constants::exc_not_in_docstr_msg(x.as_str()),
        ItemMsg::ExcIn => constants::exc_in_docstr_msg(x.as_str()),
        ItemMsg::DuplicateExc => constants::duplicate_exc_msg(x.as_str()),
    }
}

/// For each of `names` that `present` lacks, a finding at the first of the keywords `ts` in
/// `range`, two lines up.
pub open spec fn absent_diags(
    src: Seq<u8>,
    range: TextRange,
    names: Seq<Seq<char>>,
    present: Seq<Seq<char>>,
    ts: Seq<Seq<u8>>,
    k: ItemMsg,
) -> Seq<DiagView>
    decreases names.len(),
{
    if names.len() == 0 {
        seq![]
    } else {
        let rest = absent_diags(src, range, names.drop_last(), present, ts, k);
        let n = names.last();
        if present.contains(n) {
            rest
        } else {
            rest + first_hit_diag(hits_in(src, range, ts), true, item_msg(k, n))
        }
    }
}

fn contains_name(v: &Vec<String>, x: &String) -> (r: bool)
    ensures
        r == crate::docstring::string_views(v@).contains(x@),
{
    let ghost vv = crate::docstring::string_views(v@);
    let mut i: usize = 0;
    while i < v.len()
        invariant
            i <= v@.len(),
            vv == crate::docstring::string_views(v@),
            forall|j: int| 0 <= j < i ==> vv[j] != x@,
        decreases v@.len() - i,
    {
        if v[i] == *x {
            assert(vv[i as int] == x@);
            return true;
        }
        i = i + 1;
    }
    false
}

/// Appends `more` to `out`.
pub(crate) fn extend_diags(out: &mut Vec<Diagnostic>, more: Vec<Diagnostic>)
    ensures
        diag_views(final(out)@) == diag_views(old(out)@) + diag_views(more@),
{
    let ghost a = out@;
    let mut more = more;
    out.append(&mut more);
    assert(diag_views(out@) =~= diag_views(a) + diag_views(out@.subrange(
        a.len() as int,
        out@.len() as int,
    )));
}

fn absent_diags_exec(
    src: &Vec<u8>,
    range: TextRange,
    names: &Vec<String>,
    present: &Vec<String>,
    ts: &Vec<Vec<u8>>,
    k: ItemMsg,
) -> (r: Vec<Diagnostic>)
    ensures
        diag_views(r@) == absent_diags(
            src@,
            range,
            crate::docstring::string_views(names@),
            crate::docstring::string_views(present@),
            byte_views(ts@),
            k,
        ),
{
    let ghost nv = crate::docstring::string_views(names@);
    let ghost pv = crate::docstring::string_views(present@);
    let mut out: Vec<Diagnostic> = Vec::new();
    let mut i: usize = 0;
    assert(nv.subrange(0, 0) =~= Seq::<Seq<char>>::empty());
    while i < names.len()
        invariant
            i <= names@.len(),
            nv == crate::docstring::string_views(names@),
            pv == crate::docstring::string_views(present@),
            diag_views(out@) == absent_diags(src@, range, nv.subrange(0, i as int), pv, byte_views(ts@), k),
        decreases names@.len() - i,
    {
        assert(nv.subrange(0, i + 1).drop_last() =~= nv.subrange(0, i as int));
        assert(nv.subrange(0, i + 1).last() == names@[i as int]@);
        let n = &names[i];
        if !contains_name(present, n) {
            let msg = item_msg_exec(k, n);
            let hits = find_string_in_text_range(src, range, ts);
            let more = first_hit_diag_exec(&hits, true, msg);
            extend_diags(&mut out, more);
        }
        i = i + 1;
    }
    assert(nv.subrange(0, nv.len() as int) =~= nv);
    out
}

/// How many times `x` occurs in `s`.
pub open spec fn count_in(s: Seq<Seq<char>>, x: Seq<char>) -> nat
    decreases s.len(),
{
    if s.len() == 0 {
        0
    } else {
        count_in(s.drop_last(), x) + if s.last() == x {
            1nat
        } else {
            0nat
        }
    }
}

/// A finding at `pos` for each item of `items` at the place where it occurs the second time.
pub open spec fn dup_diags(items: Seq<Seq<char>>, pos: Option<(usize, usize)>, k: ItemMsg) -> Seq<
    DiagView,
>
    decreases items.len(),
{
    if items.len() == 0 {
        seq![]
    } else {
        let rest = dup_diags(items.drop_last(), pos, k);
        let x = items.last();
        match pos {
            Some((l, c)) => if count_in(items.drop_last(), x) == 1 {
                rest.push(DiagView { line: l, column: c, message: item_msg(k, x) })
            } else {
                rest
            },
            None => rest,
        }
    }
}

fn count_before(items: &Vec<String>, end: usize, x: &String) -> (r: usize)
    requires
        end <= items@.len(),
    ensures
        r == count_in(crate::docstring::string_views(items@).subrange(0, end as int), x@),
{
    let ghost iv = crate::docstring::string_views(items@);
    let mut c: usize = 0;
    let mut i: usize = 0;
    assert(iv.subrange(0, 0) =~= Seq::<Seq<char>>::empty());
    while i < end
        invariant
            i <= end <= items@.len(),
            iv == crate::docstring::string_views(items@),
            c == count_in(iv.subrange(0, i as int), x@),
            c <= i,
        decreases end - i,
    {
        assert(iv.subrange(0, i + 1).drop_last() =~= iv.subrange(0, i as int));
        if items[i] == *x {
            c = c + 1;
        }
        i = i + 1;
    }
    c
}

fn dup_diags_exec(items: &Vec<String>, pos: Option<(usize, usize)>, k: ItemMsg) -> (r: Vec<
    Diagnostic,
>)
    ensures
        diag_views(r@) == dup_diags(crate::docstring::string_views(items@), pos, k),
{
    let ghost iv = crate::docstring::string_views(items@);
    let mut out: Vec<Diagnostic> = Vec::new();
    let mut i: usize = 0;
    assert(iv.subrange(0, 0) =~= Seq::<Seq<char>>::empty());
    while i < items.len()
        invariant
            i <= items@.len(),
            iv == crate::docstring::string_views(items@),
            diag_views(out@) == dup_diags(iv.subrange(0, i as int), pos, k),
        decreases items@.len() - i,
    {
        assert(iv.subrange(0, i + 1).drop_last() =~= iv.subrange(0, i as int));
        match pos {
            Some((l, c)) => {
                if count_before(items, i, &items[i]) == 1 {
                    let d = Diagnostic { line: l, column: c, message: item_msg_exec(k, &items[i]) };
                    let ghost before = out@;
                    out.push(d);
                    assert(diag_views(out@) =~= diag_views(before).push(d@));
                }
            },
            None => {},
        }
        i = i + 1;
    }
    assert(iv.subrange(0, iv.len() as int) =~= iv);
    out
}

/// A finding at each parameter of `ps` that `docs` does not name, at the parameter's own
/// line and column.
pub open spec fn missing_param_diags(
    src: Seq<u8>,
    ps: Seq<ParamView>,
    docs: Seq<Seq<char>>,
) -> Seq<DiagView>
    decreases ps.len(),
{
    if ps.len() == 0 {
        seq![]
    } else {
        let rest = missing_param_diags(src, ps.drop_last(), docs);
        let p = ps.last();
        if docs.contains(p.name) {
            rest
        } else {
            match start_pos(src, p.range.start) {
                Some((l, c)) => rest.push(
                    DiagView { line: l, column: c, message: item_msg(ItemMsg::ArgNotIn, p.name) },
                ),
                None => rest,
            }
        }
    }
}

fn missing_param_diags_exec(src: &Vec<u8>, ps: &Vec<Param>, docs: &Vec<String>) -> (r: Vec<
    Diagnostic,
>)
    ensures
        diag_views(r@) == missing_param_diags(src@, param_views(ps@), string_views(docs@)),
{
    let ghost pv = param_views(ps@);
    let mut out: Vec<Diagnostic> = Vec::new();
    let mut i: usize = 0;
    assert(pv.subrange(0, 0) =~= Seq::<ParamView>::empty());
    while i < ps.len()
        invariant
            i <= ps@.len(),
            pv == param_views(ps@),
            diag_views(out@) == missing_param_diags(src@, pv.subrange(0, i as int), string_views(
                docs@,
            )),
        decreases ps@.len() - i,
    {
        assert(pv.subrange(0, i + 1).drop_last() =~= pv.subrange(0, i as int));
        assert(pv.subrange(0, i + 1).last() == ps@[i as int]@);
        let p = &ps[i];
        if !contains_name(docs, &p.name) {
            match find_line_and_column(src, p.range.start) {
                Some((l, c)) => {
                    let d = Diagnostic {
                        line: l,
                        column: c,
                        message: item_msg_exec(ItemMsg::ArgNotIn, &p.name),
                    };
                    let ghost before = out@;
                    out.push(d);
                    assert(diag_views(out@) =~= diag_views(before).push(d@));
                },
                None => {},
            }
        }
        i = i + 1;
    }
    assert(pv.subrange(0, pv.len() as int) =~= pv);
    out
}

/// Where the name of what a `raise` statement raises starts: the name ends its expression.
pub open spec fn name_start(x: ExcName) -> Option<usize> {
    let n = encode_utf8(x.name@).len() as usize;
    if n <= x.range.end {
        Some((x.range.end - n) as usize)
    } else {
        None
    }
}

/// Where the exception that a `raise` statement names is written.
pub open spec fn exc_anchor(e: Event) -> Option<usize> {
    match e {
        Event::Raise(r) => match r.exc {
            Some(ExcExpr::Name(n)) => name_start(n),
            Some(ExcExpr::Attribute(a)) => name_start(a),
            Some(ExcExpr::Call(Callee::Name(n))) => name_start(n),
            Some(ExcExpr::Call(Callee::Attribute(a))) => name_start(a),
            Some(ExcExpr::Named(t)) => name_start(t),
            _ => None,
        },
        _ => None,
    }
}

fn name_start_exec(x: &ExcName) -> (r: Option<usize>)
    ensures
        r == name_start(*x),
{
    let n = x.name.as_str().len();
    if n <= x.range.end {
        Some(x.range.end - n)
    } else {
        None
    }
}

fn exc_anchor_exec(e: &Event) -> (r: Option<usize>)
    ensures
        r == exc_anchor(*e),
{
    match e {
        Event::Raise(r) => match &r.exc {
            Some(ExcExpr::Name(n)) => name_start_exec(n),
            Some(ExcExpr::Attribute(a)) => name_start_exec(a),
            Some(ExcExpr::Call(Callee::Name(n))) => name_start_exec(n),
            Some(ExcExpr::Call(Callee::Attribute(a))) => name_start_exec(a),
            Some(ExcExpr::Named(t)) => name_start_exec(t),
            _ => None,
        },
        _ => None,
    }
}

/// A finding at each `raise` statement of `idxs` whose exception `docs` does not name, where
/// that exception's name is written in the statement.
pub open spec fn missing_exc_diags(
    ev: Seq<Event>,
    src: Seq<u8>,
    idxs: Seq<usize>,
    docs: Seq<Seq<char>>,
) -> Seq<DiagView>
    decreases idxs.len(),
{
    if idxs.len() == 0 {
        seq![]
    } else {
        let rest = missing_exc_diags(ev, src, idxs.drop_last(), docs);
        let i = idxs.last() as int;
        if i < ev.len() {
            match (exc_id(ev[i]), exc_anchor(ev[i])) {
                (Some(e), Some(p)) => if docs.contains(e) {
                    rest
                } else {
                    match start_pos(src, p) {
                        Some((l, c)) => rest.push(
                            DiagView { line: l, column: c, message: item_msg(ItemMsg::ExcNotIn, e) },
                        ),
                        None => rest,
                    }
                },
                _ => rest,
            }
        } else {
            rest
        }
    }
}

fn missing_exc_diags_exec(ev: &Vec<Event>, src: &Vec<u8>, idxs: &Vec<usize>, docs: &Vec<String>) -> (r:
    Vec<Diagnostic>)
    ensures
        diag_views(r@) == missing_exc_diags(ev@, src@, idxs@, string_views(docs@)),
{
    let mut out: Vec<Diagnostic> = Vec::new();
    let mut k: usize = 0;
    assert(idxs@.subrange(0, 0) =~= Seq::<usize>::empty());
    while k < idxs.len()
        invariant
            k <= idxs@.len(),
            diag_views(out@) == missing_exc_diags(ev@, src@, idxs@.subrange(0, k as int), string_views(docs@)),
        decreases idxs@.len() - k,
    {
        assert(idxs@.subrange(0, k + 1).drop_last() =~= idxs@.subrange(0, k as int));
        let i = idxs[k];
        if i < ev.len() {
            match (get_exc_id(&ev[i]), exc_anchor_exec(&ev[i])) {
                (Some(e), Some(p)) => {
                    if !contains_name(docs, &e) {
                        match find_line_and_column(src, p) {
                            Some((l, c)) => {
                                let d = Diagnostic {
                                    line: l,
                                    column: c,
                                    message: item_msg_exec(ItemMsg::ExcNotIn, &e),
                                };
                                let ghost before = out@;
                                out.push(d);
                                assert(diag_views(out@) =~= diag_views(before).push(d@));
                            },
                            None => {},
                        }
                    }
                },
                _ => {},
            }
        }
        k = k + 1;
    }
    assert(idxs@.subrange(0, idxs@.len() as int) =~= idxs@);
    out
}

/// For each of the first `n` documented arguments that `params` lacks, a finding at the item
/// itself: `first_line` is the line of the docstring's opening quotes, and the item's line
/// among the docstring's lines counts from there.
pub open spec fn extra_arg_diags(
    first_line: usize,
    docs: Seq<Seq<char>>,
    ats: Seq<(usize, usize)>,
    params: Seq<Seq<char>>,
    n: int,
) -> Seq<DiagView>
    decreases n,
{
    if n <= 0 || n > docs.len() {
        seq![]
    } else {
        let rest = extra_arg_diags(first_line, docs, ats, params, n - 1);
        let a = docs[n - 1];
        if !params.contains(a) && n - 1 < ats.len() && first_line + ats[n - 1].0 <= usize::MAX {
            rest.push(
                DiagView {
                    line: (first_line + ats[n - 1].0) as usize,
                    column: ats[n - 1].1,
                    message: item_msg(ItemMsg::ArgIn, a),
                },
            )
        } else {
            rest
        }
    }
}

fn extra_arg_diags_exec(
    first_line: usize,
    docs: &Vec<String>,
    ats: &Vec<(usize, usize)>,
    params: &Vec<String>,
) -> (r: Vec<Diagnostic>)
    ensures
        diag_views(r@) == extra_arg_diags(
            first_line,
            string_views(docs@),
            ats@,
            string_views(params@),
            docs@.len() as int,
        ),
{
    let ghost dv = string_views(docs@);
    let mut out: Vec<Diagnostic> = Vec::new();
    let mut i: usize = 0;
    while i < docs.len()
        invariant
            i <= docs@.len(),
            dv == string_views(docs@),
            diag_views(out@) == extra_arg_diags(first_line, dv, ats@, string_views(params@), i as int),
        decreases docs@.len() - i,
    {
        if !contains_name(params, &docs[i]) && i < ats.len() && ats[i].0 <= usize::MAX - first_line {
            let d = Diagnostic {
                line: first_line + ats[i].0,
                column: ats[i].1,
                message: item_msg_exec(ItemMsg::ArgIn, &docs[i]),
            };
            let ghost before = out@;
            out.push(d);
            assert(diag_views(out@) =~= diag_views(before).push(d@));
        }
        i = i + 1;
    }
    out
}

// ---------------------------------------------------------------------------------------------
// The rules, one function at a time
// ---------------------------------------------------------------------------------------------

/// The rules, each with its own diagnostic code.
#[derive(Clone, Copy, Debug, PartialEq, Eq, Structural)]
pub enum Rule {
    MissingDocstring,
    MissingReturns,
    ExtraReturns,
    MultipleReturns,
    MissingYields,
    ExtraYields,
    MultipleYields,
    MissingArgs,
    ExtraArgs,
    MultipleArgs,
    MissingArg,
    ExtraArg,
    DuplicateArg,
    MissingRaises,
    ExtraRaises,
    MultipleRaises,
    MissingExc,
    ExtraExc,
    ReRaise,
    DuplicateExc,
}

/// The rules that look for something superfluous, and the missing-docstring rule, check
/// private functions too; the others leave them alone.
pub open spec fn skips_private(r: Rule) -> bool {
    !(r is MissingDocstring || r is ExtraReturns || r is ExtraYields || r is ExtraArgs
        || r is ExtraRaises)
}

pub open spec fn present(o: Option<Seq<Seq<char>>>) -> bool {
    list_or_empty(o).len() > 0
}

/// The message of a rule that finds several sections of one kind.
pub open spec fn multi_msg(k: SectionKind, found: Seq<char>) -> Seq<char> {
    match k {
        SectionKind::Args => constants::mult_args_sections_in_docstr_msg_text(found),
        SectionKind::Returns => constants::mult_returns_sections_in_docstr_msg_text(found),
        SectionKind::Yields => constants::mult_yields_sections_in_docstr_msg_text(found),
        _ => constants::mult_raises_sections_in_docstr_msg_text(found),
    }
}

/// The names in the order of their first occurrence, each once.
pub open spec fn distinct(names: Seq<Seq<char>>) -> Seq<Seq<char>>
    decreases names.len(),
{
    if names.len() == 0 {
        seq![]
    } else {
        let rest = distinct(names.drop_last());
        if rest.contains(names.last()) {
            rest
        } else {
            rest.push(names.last())
        }
    }
}

/// One finding at the first keyword found, listing the distinct section names as written.
pub open spec fn multi(hits: Seq<Hit>, names: Seq<Seq<char>>, k: SectionKind) -> Seq<DiagView> {
    first_hit_diag(hits, true, multi_msg(k, joined(distinct(names))))
}

pub open spec fn returns_kw() -> Seq<Seq<u8>> {
    seq![encode_utf8("Return:"@), encode_utf8("Returns:"@)]
}

pub open spec fn yields_kw() -> Seq<Seq<u8>> {
    seq![encode_utf8("Yield:"@), encode_utf8("Yields:"@)]
}

pub open spec fn args_kw() -> Seq<Seq<u8>> {
    seq![encode_utf8("Args:"@), encode_utf8("Arguments:"@), encode_utf8("Parameters:"@)]
}

pub open spec fn raise_kw() -> Seq<Seq<u8>> {
    seq![encode_utf8("Raise:"@), encode_utf8("Raises:"@)]
}

pub open spec fn raises_kw() -> Seq<Seq<u8>> {
    seq![encode_utf8("Raises:"@), encode_utf8("Raise:"@)]
}

/// What rule `rule` finds in a function with definition `d` and docstring `doc`.
pub open spec fn body_spec(
    rule: Rule,
    ev: Seq<Event>,
    src: Seq<u8>,
    f: FunctionInfoView,
    d: FunctionDef,
    doc: DocstringView,
) -> Seq<DiagView> {
    let c = cleanse_spec(d.params, true);
    match rule {
        Rule::MissingDocstring => seq![],
        Rule::MissingReturns => if !present(doc.returns_sections) {
            stmt_diags(ev, src, f.returns, Sel::ReturnWithValue,
                constants::returns_section_not_in_docstr_msg_text())
        } else {
            seq![]
        },
        Rule::ExtraReturns => if none_selected(ev, src, f.returns, Sel::ReturnWithValue) && present(
            doc.returns_sections,
        ) {
            kw_diags(hits_in(src, doc.range, seq![encode_utf8("Returns:"@)]),
                constants::returns_section_in_docstr_msg_text())
        } else {
            seq![]
        },
        Rule::MultipleReturns => if list_or_empty(doc.returns_sections).len() > 1 {
            multi(hits_in(src, doc.range, returns_kw()), list_or_empty(doc.returns_sections),
                SectionKind::Returns)
        } else {
            seq![]
        },
        Rule::MissingYields => if !present(doc.yields_sections) {
            stmt_diags(ev, src, f.yields, Sel::YieldWithValue,
                constants::yields_section_not_in_docstr_msg_text())
        } else {
            seq![]
        },
        Rule::ExtraYields => if none_selected(ev, src, f.yields, Sel::YieldWithValue) && present(
            doc.yields_sections,
        ) {
            kw_diags(hits_in(src, doc.range, seq![encode_utf8("Yields:"@)]),
                constants::yields_section_in_docstr_msg_text())
        } else {
            seq![]
        },
        Rule::MultipleYields => if list_or_empty(doc.yields_sections).len() > 1 {
            multi(hits_in(src, doc.range, yields_kw()), list_or_empty(doc.yields_sections),
                SectionKind::Yields)
        } else {
            seq![]
        },
        Rule::MissingArgs => if !is_args_empty_spec(c) && !present(doc.args_sections) {
            match start_pos(src, doc.range.start) {
                Some((l, col)) => seq![DiagView { line: l, column: col, message: constants::args_section_not_in_docstr_msg_text() }],
                None => seq![],
            }
        } else {
            seq![]
        },
        Rule::ExtraArgs => if is_args_empty_spec(c) && !present(doc.args) && present(doc.args_sections) {
            kw_diags(hits_in(src, doc.range, seq![encode_utf8("Args:"@)]),
                constants::args_section_in_docstr_msg_text())
        } else {
            seq![]
        },
        Rule::MultipleArgs => if !is_args_empty_spec(c) && list_or_empty(doc.args_sections).len()
            > 1 {
            multi(hits_in(src, doc.range, args_kw()), list_or_empty(doc.args_sections),
                SectionKind::Args)
        } else {
            seq![]
        },
        Rule::MissingArg => if !is_args_empty_spec(c) && list_or_empty(doc.args_sections).len()
            == 1 {
            missing_param_diags(src, param_list(c), list_or_empty(doc.args))
        } else {
            seq![]
        },
        Rule::ExtraArg => if !is_args_empty_spec(c) && list_or_empty(doc.args_sections).len()
            == 1 {
            match start_pos(src, doc.range.start) {
                Some((l, _)) => extra_arg_diags(
                    l,
                    list_or_empty(doc.args),
                    match doc.args_at {
                        Some(v) => v,
                        None => seq![],
                    },
                    param_names(c),
                    list_or_empty(doc.args).len() as int,
                ),
                None => seq![],
            }
        } else {
            seq![]
        },
        Rule::DuplicateArg => if !is_args_empty_spec(cleanse_spec(d.params, false)) && present(
            doc.args_sections,
        ) {
            dup_diags(list_or_empty(doc.args), start_pos(src, doc.range.start),
                ItemMsg::DuplicateArg)
        } else {
            seq![]
        },
        Rule::MissingRaises => if !present(doc.raises_sections) {
            stmt_diags(ev, src, f.raises, Sel::AnyRaise,
                constants::raises_section_not_in_docstr_msg_text())
        } else {
            seq![]
        },
        Rule::ExtraRaises => if f.raises.len() == 0 && present(doc.raises_sections) {
            kw_diags(hits_in(src, doc.range, raise_kw()),
                constants::raises_section_in_docstr_msg_text())
        } else {
            seq![]
        },
        Rule::MultipleRaises => if list_or_empty(doc.raises_sections).len() > 1 {
            multi(hits_in(src, doc.range, raises_kw()), list_or_empty(doc.raises_sections),
                SectionKind::Raises)
        } else {
            seq![]
        },
        Rule::MissingExc => if f.raises.len() > 0 && list_or_empty(doc.raises_sections).len()
            == 1 {
            missing_exc_diags(ev, src, f.raises, list_or_empty(doc.raises))
        } else {
            seq![]
        },
        Rule::ExtraExc => if f.raises.len() > 0 && present(doc.raises) {
            absent_diags(src, doc.range, list_or_empty(doc.raises), raised_ids(ev, f.raises),
                raise_kw(), ItemMsg::ExcIn)
        } else {
            seq![]
        },
        Rule::ReRaise => if !present(doc.raises) {
            stmt_diags(ev, src, f.raises, Sel::BareRaise,
                constants::re_raise_no_exc_in_docstr_msg_text())
        } else {
            seq![]
        },
        Rule::DuplicateExc => if present(doc.raises_sections) {
            dup_diags(list_or_empty(doc.raises), start_pos(src, doc.range.start),
                ItemMsg::DuplicateExc)
        } else {
            seq![]
        },
    }
}

/// What rule `rule` finds in the function `f`: nothing where the function is exempt (see
/// `suppressed`); a missing docstring where it has none; otherwise, where it has a docstring,
/// what `body_spec` says.
pub open spec fn rule_spec(rule: Rule, ev: Seq<Event>, src: Seq<u8>, f: FunctionInfoView, is_test_file: bool) -> Seq<DiagView> {
    if f.at >= ev.len() {
        seq![]
    } else {
        match ev[f.at as int] {
            Event::FunctionStart(d) => if suppressed(d, is_test_file, skips_private(rule)) {
                seq![]
            } else {
                match f.docstring {
                    None => if rule is MissingDocstring {
                        match start_pos(src, d.range.start) {
                            Some((l, c)) => seq![DiagView { line: l, column: c, message: constants::docstr_missing_msg_text() }],
                            None => seq![],
                        }
                    } else {
                        seq![]
                    },
                    Some(doc) => body_spec(rule, ev, src, f, d, doc),
                }
            },
            _ => seq![],
        }
    }
}

fn multi_msg_exec(k: SectionKind, found: &String) -> (r: String)
    ensures
        r@ == multi_msg(k, found@),
{
    match k {
        SectionKind::Args => constants::mult_args_sections_in_docstr_msg(found.as_str()),
        SectionKind::Returns => constants::mult_returns_sections_in_docstr_msg(found.as_str()),
        SectionKind::Yields => constants::mult_yields_sections_in_docstr_msg(found.as_str()),
        _ => constants::mult_raises_sections_in_docstr_msg(found.as_str()),
    }
}

fn distinct_exec(names: &Vec<String>) -> (r: Vec<String>)
    ensures
        string_views(r@) == distinct(string_views(names@)),
{
    let ghost nv = string_views(names@);
    let mut out: Vec<String> = Vec::new();
    let mut i: usize = 0;
    assert(nv.subrange(0, 0) =~= Seq::<Seq<char>>::empty());
    while i < names.len()
        invariant
            i <= names@.len(),
            nv == string_views(names@),
            string_views(out@) == distinct(nv.subrange(0, i as int)),
        decreases names@.len() - i,
    {
        assert(nv.subrange(0, i + 1).drop_last() =~= nv.subrange(0, i as int));
        if !contains_name(&out, &names[i]) {
            let ghost before = out@;
            out.push(names[i].clone());
            assert(string_views(out@) =~= string_views(before).push(names@[i as int]@));
        }
        i = i + 1;
    }
    assert(nv.subrange(0, nv.len() as int) =~= nv);
    out
}

fn multi_exec(hits: &Vec<Hit>, names: &Vec<String>, k: SectionKind) -> (r: Vec<Diagnostic>)
    ensures
        diag_views(r@) == multi(hits@, string_views(names@), k),
{
    let found = joined_exec(&distinct_exec(names));
    first_hit_diag_exec(hits, true, multi_msg_exec(k, &found))
}

fn none() -> (r: Vec<Diagnostic>)
    ensures
        diag_views(r@) == Seq::<DiagView>::empty(),
{
    let r: Vec<Diagnostic> = Vec::new();
    assert(diag_views(r@) =~= Seq::<DiagView>::empty());
    r
}

fn body_exec(
    rule: Rule,
    ev: &Vec<Event>,
    src: &Vec<u8>,
    f: &FunctionInfo,
    d: &FunctionDef,
    doc: &crate::docstring::Docstring,
) -> (r: Vec<Diagnostic>)
    ensures
        diag_views(r@) == body_spec(rule, ev@, src@, f@, *d, doc@),
{
    let c = cleanse_args(&d.params, true);
    match rule {
        Rule::MissingDocstring => none(),
        Rule::MissingReturns => if !doc.has_returns() {
            stmt_diags_exec(ev, src, &f.returns, Sel::ReturnWithValue,
                &constants::returns_section_not_in_docstr_msg())
        } else {
            none()
        },
        Rule::ExtraReturns => if none_selected_exec(ev, src, &f.returns, Sel::ReturnWithValue)
            && doc.has_returns() {
            let hits = find_string_in_text_range(src, doc.get_range(), &one_target("Returns:"));
            kw_diags_exec(&hits, &constants::returns_section_in_docstr_msg())
        } else {
            none()
        },
        Rule::MultipleReturns => if doc.get_returns().len() > 1 {
            let hits = find_string_in_text_range(
                src,
                doc.get_range(),
                &two_targets("Return:", "Returns:"),
            );
            multi_exec(&hits, &doc.get_returns(), SectionKind::Returns)
        } else {
            none()
        },
        Rule::MissingYields => if !doc.has_yields() {
            stmt_diags_exec(ev, src, &f.yields, Sel::YieldWithValue,
                &constants::yields_section_not_in_docstr_msg())
        } else {
            none()
        },
        Rule::ExtraYields => if none_selected_exec(ev, src, &f.yields, Sel::YieldWithValue)
            && doc.has_yields() {
            let hits = find_string_in_text_range(src, doc.get_range(), &one_target("Yields:"));
            kw_diags_exec(&hits, &constants::yields_section_in_docstr_msg())
        } else {
            none()
        },
        Rule::MultipleYields => if doc.get_yields().len() > 1 {
            let hits = find_string_in_text_range(
                src,
                doc.get_range(),
                &two_targets("Yield:", "Yields:"),
            );
            multi_exec(&hits, &doc.get_yields(), SectionKind::Yields)
        } else {
            none()
        },
        Rule::MissingArgs => if !is_args_empty(&c) && !doc.has_args_sections() {
            match find_line_and_column(src, doc.get_range().start) {
                Some((l, col)) => {
                    let mut out: Vec<Diagnostic> = Vec::new();
                    let dg = Diagnostic {
                        line: l,
                        column: col,
                        message: constants::args_section_not_in_docstr_msg(),
                    };
                    out.push(dg);
                    assert(diag_views(out@) =~= seq![dg@]);
                    out
                },
                None => none(),
            }
        } else {
            none()
        },
        Rule::ExtraArgs => if is_args_empty(&c) && !doc.has_args() && doc.has_args_sections() {
            let hits = find_string_in_text_range(src, doc.get_range(), &one_target("Args:"));
            kw_diags_exec(&hits, &constants::args_section_in_docstr_msg())
        } else {
            none()
        },
        Rule::MultipleArgs => if !is_args_empty(&c) && doc.get_args_sections().len() > 1 {
            let hits = find_string_in_text_range(
                src,
                doc.get_range(),
                &three_targets("Args:", "Arguments:", "Parameters:"),
            );
            multi_exec(&hits, &doc.get_args_sections(), SectionKind::Args)
        } else {
            none()
        },
        Rule::MissingArg => if !is_args_empty(&c) && doc.get_args_sections().len() == 1 {
            missing_param_diags_exec(src, &clean_param_list(&c), &doc.get_args())
        } else {
            none()
        },
        Rule::ExtraArg => if !is_args_empty(&c) && doc.get_args_sections().len() == 1 {
            match find_line_and_column(src, doc.get_range().start) {
                Some((l, _)) => extra_arg_diags_exec(
                    l,
                    &doc.get_args(),
                    &doc.get_args_at(),
                    &clean_param_names(&c),
                ),
                None => none(),
            }
        } else {
            none()
        },
        Rule::DuplicateArg => if !is_args_empty(&cleanse_args(&d.params, false))
            && doc.has_args_sections() {
            dup_diags_exec(&doc.get_args(), find_line_and_column(src, doc.get_range().start),
                ItemMsg::DuplicateArg)
        } else {
            none()
        },
        Rule::MissingRaises => if !doc.has_raises_sections() {
            stmt_diags_exec(ev, src, &f.raises, Sel::AnyRaise,
                &constants::raises_section_not_in_docstr_msg())
        } else {
            none()
        },
        Rule::ExtraRaises => if f.raises.len() == 0 && doc.has_raises_sections() {
            let hits = find_string_in_text_range(
                src,
                doc.get_range(),
                &two_targets("Raise:", "Raises:"),
            );
            kw_diags_exec(&hits, &constants::raises_section_in_docstr_msg())
        } else {
            none()
        },
        Rule::MultipleRaises => if doc.get_raises_sections().len() > 1 {
            let hits = find_string_in_text_range(
                src,
                doc.get_range(),
                &two_targets("Raises:", "Raise:"),
            );
            multi_exec(&hits, &doc.get_raises_sections(), SectionKind::Raises)
        } else {
            none()
        },
        Rule::MissingExc => if f.raises.len() > 0 && doc.get_raises_sections().len() == 1 {
            missing_exc_diags_exec(ev, src, &f.raises, &doc.get_raises())
        } else {
            none()
        },
        Rule::ExtraExc => if f.raises.len() > 0 && doc.has_raises() {
            let anchor = two_targets("Raise:", "Raises:");
            absent_diags_exec(src, doc.get_range(), &doc.get_raises(), &raised_ids_exec(
                ev,
                &f.raises,
            ), &anchor, ItemMsg::ExcIn)
        } else {
            none()
        },
        Rule::ReRaise => if !doc.has_raises() {
            stmt_diags_exec(ev, src, &f.raises, Sel::BareRaise,
                &constants::re_raise_no_exc_in_docstr_msg())
        } else {
            none()
        },
        Rule::DuplicateExc => if doc.has_raises_sections() {
            dup_diags_exec(&doc.get_raises(), find_line_and_column(src, doc.get_range().start),
                ItemMsg::DuplicateExc)
        } else {
            none()
        },
    }
}

/// What rule `rule` finds in the function `f` (see `rule_spec`).
pub fn check_function(
    rule: Rule,
    ev: &Vec<Event>,
    src: &Vec<u8>,
    f: &FunctionInfo,
    is_test_file: bool,
) -> (r: Vec<Diagnostic>)
    ensures
        diag_views(r@) == rule_spec(rule, ev@, src@, f@, is_test_file),
{
    if f.at >= ev.len() {
        return none();
    }
    match &ev[f.at] {
        Event::FunctionStart(d) => {
            let private_too = match rule {
                Rule::MissingDocstring => false,
                Rule::ExtraReturns => false,
                Rule::ExtraYields => false,
                Rule::ExtraArgs => false,
                Rule::ExtraRaises => false,
                _ => true,
            };
            let skip = if private_too {
                should_skip(d, is_test_file)
            } else {
                should_skip_dont_skip_private(d, is_test_file)
            };
            if skip {
                return none();
            }
            match &f.docstring {
                None => match rule {
                    Rule::MissingDocstring => match find_line_and_column(src, d.range.start) {
                        Some((l, c)) => {
                            let mut out: Vec<Diagnostic> = Vec::new();
                            let dg = Diagnostic { line: l, column: c, message: constants::docstr_missing_msg() };
                            out.push(dg);
                            assert(diag_views(out@) =~= seq![dg@]);
                            out
                        },
                        None => none(),
                    },
                    _ => none(),
                },
                Some(doc) => body_exec(rule, ev, src, f, d, doc),
            }
        },
        _ => none(),
    }
}

} // verus!

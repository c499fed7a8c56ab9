use vstd::prelude::*;
use crate::docstring::{parse, parse_spec, Docstring, DocstringView};
use crate::syntax::Event;

verus! {

/// The facts that a function owns: the statements of its own body, not those of nested
/// functions or classes.
#[derive(Clone, Copy, Debug, PartialEq, Eq, Structural)]
pub enum FactKind {
    Return,
    Yield,
    Raise,
    /// A synchronous function defined directly in the body.
    Method,
}

pub open spec fn is_fact(e: Event, k: FactKind) -> bool {
    match k {
        FactKind::Return => e is Return,
        FactKind::Yield => e is Yield,
        FactKind::Raise => e is Raise,
        FactKind::Method => e matches Event::FunctionStart(d) && !d.is_async,
    }
}

/// The indices of the events of kind `k` that lie directly in the body that runs from `j` to
/// its `End`, where `depth` bodies nested in it are still open at `j`.
pub open spec fn own(ev: Seq<Event>, j: int, depth: nat, k: FactKind) -> Seq<usize>
    decreases ev.len() - j,
{
    if j < 0 || j >= ev.len() {
        seq![]
    } else {
        let here: Seq<usize> = if depth == 0 && is_fact(ev[j], k) {
            seq![j as usize]
        } else {
            seq![]
        };
        match ev[j] {
            Event::FunctionStart(_) => here + own(ev, j + 1, depth + 1, k),
            Event::ClassStart(_) => here + own(ev, j + 1, depth + 1, k),
            Event::End => if depth == 0 {
                seq![]
            } else {
                own(ev, j + 1, (depth - 1) as nat, k)
            },
            _ => here + own(ev, j + 1, depth, k),
        }
    }
}

/// The docstring of the function or class that starts at `i`: its first statement, where that
/// is a string literal.
pub open spec fn doc_at(ev: Seq<Event>, i: int) -> Option<DocstringView> {
    if 0 <= i && i + 1 < ev.len() {
        match ev[i + 1] {
            Event::StringStatement(lit) => Some(parse_spec(lit.value@, lit.range)),
            _ => None,
        }
    } else {
        None
    }
}

/// Which scopes are open after the events before `n`: `true` for a class, `false` for a
/// function.
pub open spec fn scopes(ev: Seq<Event>, n: int) -> Seq<bool>
    decreases n,
{
    if n <= 0 || n > ev.len() {
        seq![]
    } else {
        let s = scopes(ev, n - 1);
        match ev[n - 1] {
            Event::FunctionStart(_) => s.push(false),
            Event::ClassStart(_) => s.push(true),
            Event::End => if s.len() > 0 {
                s.drop_last()
            } else {
                s
            },
            _ => s,
        }
    }
}

/// The function starting at `i` is a synchronous method defined directly in a class body.
pub open spec fn is_method(ev: Seq<Event>, i: int) -> bool {
    &&& 0 <= i < ev.len()
    &&& ev[i] matches Event::FunctionStart(d) && !d.is_async
    &&& scopes(ev, i).len() > 0
    &&& scopes(ev, i).last()
}

/// What the collector records of a function.
#[derive(Debug)]
pub struct FunctionInfo {
    /// The index of the function's start event.
    pub at: usize,
    pub returns: Vec<usize>,
    pub yields: Vec<usize>,
    pub raises: Vec<usize>,
    pub docstring: Option<Docstring>,
}

pub struct FunctionInfoView {
    pub at: usize,
    pub returns: Seq<usize>,
    pub yields: Seq<usize>,
    pub raises: Seq<usize>,
    pub docstring: Option<DocstringView>,
}

pub open spec fn doc_view(d: Option<Docstring>) -> Option<DocstringView> {
    match d {
        Some(x) => Some(x@),
        None => None,
    }
}

impl View for FunctionInfo {
    type V = FunctionInfoView;

    open spec fn view(&self) -> FunctionInfoView {
        FunctionInfoView {
            at: self.at,
            returns: self.returns@,
            yields: self.yields@,
            raises: self.raises@,
            docstring: doc_view(self.docstring),
        }
    }
}

pub open spec fn info_views(v: Seq<FunctionInfo>) -> Seq<FunctionInfoView> {
    v.map_values(|x: FunctionInfo| x@)
}

/// The facts of the function whose start event is at `i`.
pub open spec fn info_spec(ev: Seq<Event>, i: int) -> FunctionInfoView {
    FunctionInfoView {
        at: i as usize,
        returns: own(ev, i + 1, 0, FactKind::Return),
        yields: own(ev, i + 1, 0, FactKind::Yield),
        raises: own(ev, i + 1, 0, FactKind::Raise),
        docstring: doc_at(ev, i),
    }
}

/// What the collector records of a class.
#[derive(Debug)]
pub struct ClassInfo {
    pub at: usize,
    pub funcs: Vec<FunctionInfo>,
    pub docstring: Option<Docstring>,
}

/// The functions and classes of a module.
#[derive(Debug)]
pub struct DocstringCollector {
    pub function_infos: Vec<FunctionInfo>,
    pub class_infos: Vec<ClassInfo>,
}

/// The functions among the first `n` events that are not methods, in order.
pub open spec fn module_functions(ev: Seq<Event>, n: int) -> Seq<FunctionInfoView>
    decreases n,
{
    if n <= 0 || n > ev.len() {
        seq![]
    } else {
        let rest = module_functions(ev, n - 1);
        if ev[n - 1] is FunctionStart && !is_method(ev, n - 1) {
            rest.push(info_spec(ev, n - 1))
        } else {
            rest
        }
    }
}

/// The class start events among the first `n` events, in order.
pub open spec fn class_starts(ev: Seq<Event>, n: int) -> Seq<usize>
    decreases n,
{
    if n <= 0 || n > ev.len() {
        seq![]
    } else {
        let rest = class_starts(ev, n - 1);
        if ev[n - 1] is ClassStart {
            rest.push((n - 1) as usize)
        } else {
            rest
        }
    }
}

fn docstring_at(ev: &Vec<Event>, i: usize) -> (r: Option<Docstring>)
    ensures
        doc_view(r) == doc_at(ev@, i as int),
{
    if i < ev.len() && ev.len() - i > 1 {
        match &ev[i + 1] {
            Event::StringStatement(lit) => Some(parse(lit.value.as_str(), lit.range)),
            _ => None,
        }
    } else {
        None
    }
}

/// Steps `own` past event `j`.
proof fn lemma_own_step(ev: Seq<Event>, j: int, depth: nat, k: FactKind)
    requires
        0 <= j < ev.len(),
        !(ev[j] is End && depth == 0),
    ensures
        own(ev, j, depth, k) == (if depth == 0 && is_fact(ev[j], k) {
            seq![j as usize]
        } else {
            seq![]
        }) + own(ev, j + 1, next_depth(ev[j], depth), k),
{
    let here: Seq<usize> = if depth == 0 && is_fact(ev[j], k) {
        seq![j as usize]
    } else {
        seq![]
    };
    match ev[j] {
        Event::End => {
            assert(!is_fact(ev[j], k));
            assert(here + own(ev, j + 1, next_depth(ev[j], depth), k) =~= own(
                ev,
                j + 1,
                next_depth(ev[j], depth),
                k,
            ));
        },
        _ => {},
    }
}

pub open spec fn next_depth(e: Event, depth: nat) -> nat {
    match e {
        Event::FunctionStart(_) => depth + 1,
        Event::ClassStart(_) => depth + 1,
        Event::End => if depth == 0 {
            0
        } else {
            (depth - 1) as nat
        },
        _ => depth,
    }
}

/// The indices of the events of kind `k` that lie directly in the body starting at `start`.
fn own_facts(ev: &Vec<Event>, start: usize, k: FactKind) -> (r: Vec<usize>)
    ensures
        r@ == own(ev@, start as int, 0, k),
{
    let mut out: Vec<usize> = Vec::new();
    let mut j: usize = start;
    let mut depth: usize = 0;
    while j < ev.len()
        invariant
            start <= j,
            out@ + own(ev@, j as int, depth as nat, k) == own(ev@, start as int, 0, k),
            depth <= j,
        decreases ev@.len() - j,
    {
        let is_end = match &ev[j] {
            Event::End => true,
            _ => false,
        };
        if is_end && depth == 0 {
            assert(own(ev@, j as int, depth as nat, k) =~= Seq::<usize>::empty());
            assert(out@ + own(ev@, j as int, depth as nat, k) =~= out@);
            return out;
        }
        proof {
            lemma_own_step(ev@, j as int, depth as nat, k);
        }
        let wanted = match (&ev[j], k) {
            (Event::Return(_), FactKind::Return) => true,
            (Event::Yield(_), FactKind::Yield) => true,
            (Event::Raise(_), FactKind::Raise) => true,
            (Event::FunctionStart(d), FactKind::Method) => !d.is_async,
            _ => false,
        };
        let ghost before = out@;
        if depth == 0 && wanted {
            out.push(j);
        }
        proof {
            let here: Seq<usize> = if depth == 0 && is_fact(ev@[j as int], k) {
                seq![j as usize]
            } else {
                seq![]
            };
            assert(out@ =~= before + here);
            assert(out@ + own(ev@, j + 1, next_depth(ev@[j as int], depth as nat), k) =~= before
                + (here + own(ev@, j + 1, next_depth(ev@[j as int], depth as nat), k)));
        }
        match &ev[j] {
            Event::FunctionStart(_) => {
                depth = depth + 1;
            },
            Event::ClassStart(_) => {
                depth = depth + 1;
            },
            Event::End => {
                depth = depth - 1;
            },
            _ => {},
        }
        j = j + 1;
    }
    assert(own(ev@, j as int, depth as nat, k) =~= Seq::<usize>::empty());
    assert(out@ + own(ev@, j as int, depth as nat, k) =~= out@);
    out
}

/// Collects the facts of the function whose start event is at `i`.
pub fn get_func(ev: &Vec<Event>, i: usize) -> (r: FunctionInfo)
    requires
        i < ev@.len(),
    ensures
        r@ == info_spec(ev@, i as int),
{
    let n = ev.len();
    let body = i + 1;
    FunctionInfo {
        at: i,
        returns: own_facts(ev, body, FactKind::Return),
        yields: own_facts(ev, body, FactKind::Yield),
        raises: own_facts(ev, body, FactKind::Raise),
        docstring: docstring_at(ev, i),
    }
}

pub struct ClassInfoView {
    pub at: usize,
    pub funcs: Seq<FunctionInfoView>,
    pub docstring: Option<DocstringView>,
}

impl View for ClassInfo {
    type V = ClassInfoView;

    open spec fn view(&self) -> ClassInfoView {
        ClassInfoView {
            at: self.at,
            funcs: info_views(self.funcs@),
            docstring: doc_view(self.docstring),
        }
    }
}

pub open spec fn class_views(v: Seq<ClassInfo>) -> Seq<ClassInfoView> {
    v.map_values(|x: ClassInfo| x@)
}

/// The facts of the class whose start event is at `i`: its methods are the synchronous
/// functions defined directly in its body.
pub open spec fn class_spec(ev: Seq<Event>, i: int) -> ClassInfoView {
    ClassInfoView {
        at: i as usize,
        funcs: own(ev, i + 1, 0, FactKind::Method).map_values(|j: usize| info_spec(ev, j as int)),
        docstring: doc_at(ev, i),
    }
}

/// What a walk over all of `ev` collects.
pub open spec fn collect_spec(ev: Seq<Event>) -> (Seq<FunctionInfoView>, Seq<ClassInfoView>) {
    (
        module_functions(ev, ev.len() as int),
        class_starts(ev, ev.len() as int).map_values(|i: usize| class_spec(ev, i as int)),
    )
}

proof fn lemma_own_bounds(ev: Seq<Event>, j: int, depth: nat, k: FactKind)
    requires
        0 <= j,
        ev.len() <= usize::MAX,
    ensures
        forall|x: int| 0 <= x < own(ev, j, depth, k).len() ==> #[trigger] own(ev, j, depth, k)[x]
            < ev.len(),
    decreases ev.len() - j,
{
    if 0 <= j < ev.len() {
        let here: Seq<usize> = if depth == 0 && is_fact(ev[j], k) {
            seq![j as usize]
        } else {
            seq![]
        };
        let nd = next_depth(ev[j], depth);
        if !(ev[j] is End && depth == 0) {
            lemma_own_bounds(ev, j + 1, nd, k);
            lemma_own_step(ev, j, depth, k);
            let rest = own(ev, j + 1, nd, k);
            assert forall|x: int| 0 <= x < own(ev, j, depth, k).len() implies #[trigger] own(
                ev,
                j,
                depth,
                k,
            )[x] < ev.len() by {
                if x < here.len() {
                    assert(own(ev, j, depth, k)[x] == here[x]);
                } else {
                    assert(own(ev, j, depth, k)[x] == rest[x - here.len()]);
                }
            }
        }
    }
}

fn get_class(ev: &Vec<Event>, i: usize) -> (r: ClassInfo)
    requires
        i < ev@.len(),
    ensures
        r@ == class_spec(ev@, i as int),
{
    let n = ev.len();
    let body = i + 1;
    let methods = own_facts(ev, body, FactKind::Method);
    proof {
        lemma_own_bounds(ev@, body as int, 0, FactKind::Method);
    }
    let ghost want = methods@.map_values(|j: usize| info_spec(ev@, j as int));
    let mut funcs: Vec<FunctionInfo> = Vec::new();
    let mut m: usize = 0;
    while m < methods.len()
        invariant
            m <= methods@.len(),
            methods@ == own(ev@, body as int, 0, FactKind::Method),
            forall|x: int| 0 <= x < methods@.len() ==> #[trigger] methods@[x] < ev@.len(),
            info_views(funcs@) == want.subrange(0, m as int),
            want == methods@.map_values(|j: usize| info_spec(ev@, j as int)),
        decreases methods@.len() - m,
    {
        let f = get_func(ev, methods[m]);
        let ghost before = funcs@;
        funcs.push(f);
        assert(info_views(funcs@) =~= info_views(before).push(f@));
        assert(want.subrange(0, m + 1) =~= want.subrange(0, m as int).push(want[m as int]));
        m = m + 1;
    }
    assert(want.subrange(0, want.len() as int) =~= want);
    ClassInfo { at: i, funcs, docstring: docstring_at(ev, i) }
}

/// Walks the events once and records every function that is not a synchronous method
/// directly in a class body, and every class with its methods.
pub fn collect(ev: &Vec<Event>) -> (r: DocstringCollector)
    ensures
        info_views(r.function_infos@) == collect_spec(ev@).0,
        class_views(r.class_infos@) == collect_spec(ev@).1,
{
    let mut functions: Vec<FunctionInfo> = Vec::new();
    let mut classes: Vec<ClassInfo> = Vec::new();
    let mut stack: Vec<bool> = Vec::new();
    let ghost want_classes = class_starts(ev@, ev@.len() as int).map_values(
        |i: usize| class_spec(ev@, i as int),
    );
    let mut j: usize = 0;
    while j < ev.len()
        invariant
            j <= ev@.len(),
            stack@ == scopes(ev@, j as int),
            info_views(functions@) == module_functions(ev@, j as int),
            class_views(classes@) == class_starts(ev@, j as int).map_values(
                |i: usize| class_spec(ev@, i as int),
            ),
        decreases ev@.len() - j,
    {
        let ghost before_f = functions@;
        let ghost before_c = classes@;
        match &ev[j] {
            Event::FunctionStart(d) => {
                let method = !d.is_async && stack.len() > 0 && stack[stack.len() - 1];
                if !method {
                    let f = get_func(ev, j);
                    functions.push(f);
                    assert(info_views(functions@) =~= info_views(before_f).push(f@));
                }
                stack.push(false);
            },
            Event::ClassStart(_) => {
                let c = get_class(ev, j);
                classes.push(c);
                proof {
                    assert(class_views(classes@) =~= class_views(before_c).push(c@));
                    assert(class_starts(ev@, j + 1).map_values(|i: usize| class_spec(ev@, i as int))
                        =~= class_starts(ev@, j as int).map_values(
                        |i: usize| class_spec(ev@, i as int),
                    ).push(class_spec(ev@, j as int)));
                }
                stack.push(true);
            },
            Event::End => {
                if stack.len() > 0 {
                    stack.pop();
                }
            },
            _ => {},
        }
        j = j + 1;
    }
    DocstringCollector { function_infos: functions, class_infos: classes }
}

} // verus!

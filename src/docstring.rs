use vstd::prelude::*;
use vstd::multiset::Multiset;
use crate::position::TextRange;
use crate::text::{
    chars_of, copy_range, is_space, is_word, lower_of, space, string_of, to_lowercase, word,
    equal_to,
};

verus! {

// ---------------------------------------------------------------------------------------------
// Lines
// ---------------------------------------------------------------------------------------------

/// The characters of each line.
pub open spec fn line_views(v: Seq<Vec<char>>) -> Seq<Seq<char>> {
    v.map_values(|l: Vec<char>| l@)
}

pub open spec fn strip_cr(l: Seq<char>) -> Seq<char> {
    if l.len() > 0 && l.last() == '\r' {
        l.drop_last()
    } else {
        l
    }
}

/// The finished lines of `s` and the unfinished last one, reading `s` from the left.
pub open spec fn split_acc(s: Seq<char>) -> (Seq<Seq<char>>, Seq<char>)
    decreases s.len(),
{
    if s.len() == 0 {
        (seq![], seq![])
    } else {
        let (done, cur) = split_acc(s.drop_last());
        if s.last() == '\n' {
            (done.push(strip_cr(cur)), seq![])
        } else {
            (done, cur.push(s.last()))
        }
    }
}

/// The lines of `s` as `str::lines` gives them: split at `\n` or `\r\n`, with no empty line
/// after a final line break.
pub open spec fn text_lines(s: Seq<char>) -> Seq<Seq<char>> {
    let (done, cur) = split_acc(s);
    if cur.len() == 0 {
        done
    } else {
        done.push(cur)
    }
}

fn strip_cr_end(v: &Vec<char>, start: usize, end: usize) -> (r: usize)
    requires
        start <= end <= v@.len(),
    ensures
        start <= r <= end,
        v@.subrange(start as int, r as int) == strip_cr(v@.subrange(start as int, end as int)),
{
    if end > start && v[end - 1] == '\r' {
        assert(v@.subrange(start as int, end as int).drop_last() =~= v@.subrange(
            start as int,
            end - 1,
        ));
        end - 1
    } else {
        end
    }
}

/// The lines of `text`, split as `str::lines` splits them.
pub fn split_lines(text: &Vec<char>) -> (r: Vec<Vec<char>>)
    ensures
        line_views(r@) == text_lines(text@),
{
    let mut done: Vec<Vec<char>> = Vec::new();
    let mut start: usize = 0;
    let mut i: usize = 0;
    assert(text@.subrange(0, 0) =~= Seq::<char>::empty());
    while i < text.len()
        invariant
            start <= i <= text@.len(),
            line_views(done@) == split_acc(text@.subrange(0, i as int)).0,
            text@.subrange(start as int, i as int) == split_acc(text@.subrange(0, i as int)).1,
        decreases text@.len() - i,
    {
        let ghost pre = text@.subrange(0, i as int);
        assert(text@.subrange(0, i + 1).drop_last() =~= pre);
        if text[i] == '\n' {
            let e = strip_cr_end(text, start, i);
            let line = copy_range(text, start, e);
            let ghost before = done@;
            done.push(line);
            start = i + 1;
            assert(line_views(done@) =~= line_views(before).push(line@));
        } else {
            assert(text@.subrange(start as int, i + 1) =~= text@.subrange(start as int, i as int).push(
                text@[i as int],
            ));
        }
        i = i + 1;
        assert(text@.subrange(start as int, i as int) =~= split_acc(
            text@.subrange(0, i as int),
        ).1);
    }
    assert(text@.subrange(0, text@.len() as int) =~= text@);
    if start < text.len() {
        let line = copy_range(text, start, text.len());
        let ghost before = done@;
        done.push(line);
        assert(line_views(done@) =~= line_views(before).push(line@));
    }
    done
}

// ---------------------------------------------------------------------------------------------
// One line
// ---------------------------------------------------------------------------------------------

/// The first offset from `i` on that holds no white space (or the end).
pub open spec fn skip_space(l: Seq<char>, i: int) -> int
    decreases l.len() - i,
{
    if i < 0 || i >= l.len() || !is_space(l[i]) {
        i
    } else {
        skip_space(l, i + 1)
    }
}

/// The first offset from `i` on that holds no word character (or the end).
pub open spec fn run_end(l: Seq<char>, i: int) -> int
    decreases l.len() - i,
{
    if i < 0 || i >= l.len() || !is_word(l[i]) {
        i
    } else {
        run_end(l, i + 1)
    }
}

/// The line holds only white space.
pub open spec fn is_blank(l: Seq<char>) -> bool {
    forall|i: int| 0 <= i < l.len() ==> is_space(#[trigger] l[i])
}

/// A line of the form `# text`, after leading white space, stands for `text`.
pub open spec fn uncomment(l: Seq<char>) -> Seq<char> {
    let s = skip_space(l, 0);
    if s < l.len() && l.len() - s >= 2 && l[s] == '#' && l[s + 1] == ' ' {
        l.subrange(s + 2, l.len() as int)
    } else {
        l
    }
}

/// The name of a section header line: white space, a word, then a colon.
pub open spec fn header_name(l: Seq<char>) -> Option<Seq<char>> {
    let i = skip_space(l, 0);
    let j = run_end(l, i);
    if i < j && j < l.len() && l[j] == ':' {
        Some(l.subrange(i, j))
    } else {
        None
    }
}

/// From `m` on, the line holds `)` directly followed by `:`.
pub open spec fn close_colon_from(l: Seq<char>, m: int) -> bool
    decreases l.len() - m,
{
    if m < 0 || m + 1 >= l.len() {
        false
    } else if l[m] == ')' && l[m + 1] == ':' {
        true
    } else {
        close_colon_from(l, m + 1)
    }
}

/// What may follow an item's name at offset `b`: a colon, or ` (` ... `):`.
pub open spec fn item_tail(l: Seq<char>, b: int) -> bool {
    0 <= b < l.len() && (l[b] == ':' || (b + 1 < l.len() && l[b] == ' ' && l[b + 1] == '('
        && close_colon_from(l, b + 2)))
}

/// The first whole word at or after `i` that `item_tail` follows.
pub open spec fn item_from(l: Seq<char>, i: int) -> Option<Seq<char>>
    decreases l.len() - i,
{
    if i < 0 || i >= l.len() {
        None
    } else if is_word(l[i]) {
        let b = run_end(l, i);
        if item_tail(l, b) {
            Some(l.subrange(i, b))
        } else if i < b <= l.len() {
            item_from(l, b)
        } else {
            None
        }
    } else {
        item_from(l, i + 1)
    }
}

/// The item that a line of a section names, if any: the first word followed by `:` or by a
/// parenthesised remark and `:`.
pub open spec fn item_name(l: Seq<char>) -> Option<Seq<char>> {
    item_from(l, 0)
}

/// Where the word that `item_from` finds starts.
pub open spec fn item_pos_from(l: Seq<char>, i: int) -> Option<int>
    decreases l.len() - i,
{
    if i < 0 || i >= l.len() {
        None
    } else if is_word(l[i]) {
        let b = run_end(l, i);
        if item_tail(l, b) {
            Some(i)
        } else if i < b <= l.len() {
            item_pos_from(l, b)
        } else {
            None
        }
    } else {
        item_pos_from(l, i + 1)
    }
}

/// The column at which the item of a line starts, if the line names one.
pub open spec fn item_col(l: Seq<char>) -> Option<int> {
    item_pos_from(l, 0)
}

/// How many characters `uncomment` takes off the front of a line.
pub open spec fn comment_shift(l: Seq<char>) -> int {
    let s = skip_space(l, 0);
    if s + 2 <= l.len() && l[s] == '#' && l[s + 1] == ' ' {
        s + 2
    } else {
        0
    }
}

proof fn lemma_item_pos(l: Seq<char>, i: int)
    ensures
        item_pos_from(l, i) matches Some(c) ==> 0 <= c < l.len(),
    decreases l.len() - i,
{
    if 0 <= i < l.len() {
        if is_word(l[i]) {
            let b = run_end(l, i);
            if !item_tail(l, b) && i < b <= l.len() {
                lemma_item_pos(l, b);
            }
        } else {
            lemma_item_pos(l, i + 1);
        }
    }
}

proof fn lemma_skip_space(l: Seq<char>, i: int)
    requires
        0 <= i <= l.len(),
    ensures
        i <= skip_space(l, i) <= l.len(),
        forall|k: int| i <= k < skip_space(l, i) ==> is_space(#[trigger] l[k]),
    decreases l.len() - i,
{
    if i < l.len() && is_space(l[i]) {
        lemma_skip_space(l, i + 1);
    }
}

proof fn lemma_run_end(l: Seq<char>, i: int)
    requires
        0 <= i <= l.len(),
    ensures
        i <= run_end(l, i) <= l.len(),
        i < l.len() && is_word(l[i]) ==> i < run_end(l, i),
    decreases l.len() - i,
{
    if i < l.len() && is_word(l[i]) {
        lemma_run_end(l, i + 1);
    }
}

pub(crate) fn skip_space_exec(l: &Vec<char>, i: usize) -> (r: usize)
    requires
        i <= l@.len(),
    ensures
        r == skip_space(l@, i as int),
        i <= r <= l@.len(),
{
    let mut j = i;
    proof {
        lemma_skip_space(l@, i as int);
    }
    while j < l.len() && space(l[j])
        invariant
            i <= j <= l@.len(),
            skip_space(l@, j as int) == skip_space(l@, i as int),
        decreases l@.len() - j,
    {
        j = j + 1;
    }
    j
}

fn run_end_exec(l: &Vec<char>, i: usize) -> (r: usize)
    requires
        i <= l@.len(),
    ensures
        r == run_end(l@, i as int),
        i <= r <= l@.len(),
{
    let mut j = i;
    while j < l.len() && word(l[j])
        invariant
            i <= j <= l@.len(),
            run_end(l@, j as int) == run_end(l@, i as int),
        decreases l@.len() - j,
    {
        j = j + 1;
    }
    j
}

fn blank(l: &Vec<char>) -> (r: bool)
    ensures
        r == is_blank(l@),
{
    let mut i: usize = 0;
    while i < l.len()
        invariant
            i <= l@.len(),
            forall|k: int| 0 <= k < i ==> is_space(#[trigger] l@[k]),
        decreases l@.len() - i,
    {
        if !space(l[i]) {
            return false;
        }
        i = i + 1;
    }
    true
}

fn uncomment_exec(l: Vec<char>) -> (r: (Vec<char>, usize))
    ensures
        r.0@ == uncomment(l@),
        r.1 == comment_shift(l@),
        r.1 + r.0@.len() == l@.len(),
{
    let s = skip_space_exec(&l, 0);
    if s < l.len() && l.len() - s >= 2 && l[s] == '#' && l[s + 1] == ' ' {
        (copy_range(&l, s + 2, l.len()), s + 2)
    } else {
        (l, 0)
    }
}

fn header_name_exec(l: &Vec<char>) -> (r: Option<String>)
    ensures
        r.deep_view() == header_name(l@),
{
    let i = skip_space_exec(l, 0);
    let j = run_end_exec(l, i);
    if i < j && j < l.len() && l[j] == ':' {
        Some(string_of(copy_range(l, i, j).as_slice()))
    } else {
        None
    }
}

fn close_colon_exec(l: &Vec<char>, m: usize) -> (r: bool)
    ensures
        r == close_colon_from(l@, m as int),
{
    let mut k = m;
    while k < l.len() && l.len() - k > 1
        invariant
            m <= k,
            close_colon_from(l@, k as int) == close_colon_from(l@, m as int),
        decreases l@.len() - k,
    {
        if l[k] == ')' && l[k + 1] == ':' {
            return true;
        }
        k = k + 1;
    }
    false
}

fn item_name_exec(l: &Vec<char>) -> (r: Option<(String, usize)>)
    ensures
        r is Some <==> item_name(l@) is Some,
        r matches Some(x) ==> item_name(l@) == Some(x.0@) && item_col(l@) == Some(x.1 as int),
{
    let mut i: usize = 0;
    while i < l.len()
        invariant
            i <= l@.len(),
            item_from(l@, i as int) == item_name(l@),
            item_pos_from(l@, i as int) == item_col(l@),
        decreases l@.len() - i,
    {
        if word(l[i]) {
            let b = run_end_exec(l, i);
            proof {
                lemma_run_end(l@, i as int);
            }
            let tail = b < l.len() && (l[b] == ':' || (b + 1 < l.len() && l[b] == ' ' && l[b
                + 1] == '(' && close_colon_exec(l, b + 2)));
            if tail {
                return Some((string_of(copy_range(l, i, b).as_slice()), i));
            }
            i = b;
        } else {
            i = i + 1;
        }
    }
    None
}

// ---------------------------------------------------------------------------------------------
// Sections
// ---------------------------------------------------------------------------------------------

/// The characters of each string.
pub open spec fn string_views(v: Seq<String>) -> Seq<Seq<char>> {
    v.map_values(|x: String| x@)
}

pub open spec fn opt_view(o: Option<String>) -> Option<Seq<char>> {
    match o {
        Some(x) => Some(x@),
        None => None,
    }
}

/// A block of docstring lines: the name on its first line, if that line is a header, and the
/// items named by the lines after it.
#[derive(Debug)]
pub struct Section {
    pub name: Option<String>,
    pub subs: Vec<String>,
    /// Where each item stands: its line among the docstring's lines and its column there.
    pub subs_at: Vec<(usize, usize)>,
}

pub struct SectionView {
    pub name: Option<Seq<char>>,
    pub subs: Seq<Seq<char>>,
    pub at: Seq<(usize, usize)>,
}

impl View for Section {
    type V = SectionView;

    open spec fn view(&self) -> SectionView {
        SectionView { name: opt_view(self.name), subs: string_views(self.subs@), at: self.subs_at@ }
    }
}

pub open spec fn section_views(v: Seq<Section>) -> Seq<SectionView> {
    v.map_values(|x: Section| x@)
}

/// The first line from `j` on that is blank (or the end).
pub open spec fn block_end(ls: Seq<Seq<char>>, j: int) -> int
    decreases ls.len() - j,
{
    if j < 0 || j >= ls.len() || is_blank(ls[j]) {
        j
    } else {
        block_end(ls, j + 1)
    }
}

/// The items that the lines of a block name, in order.
pub open spec fn items_of(block: Seq<Seq<char>>) -> Seq<Seq<char>>
    decreases block.len(),
{
    if block.len() == 0 {
        seq![]
    } else {
        let rest = items_of(block.drop_last());
        match item_name(block.last()) {
            Some(x) => rest.push(x),
            None => rest,
        }
    }
}

pub open spec fn shift_at(sh: Seq<usize>, k: int) -> int {
    if 0 <= k < sh.len() {
        sh[k] as int
    } else {
        0
    }
}

/// Where the items of lines `from..to` stand: the line's index and the item's column, counted
/// on the line before `shift_at` characters of comment marker were taken off.
pub open spec fn items_at(ls: Seq<Seq<char>>, sh: Seq<usize>, from: int, to: int) -> Seq<
    (usize, usize),
>
    decreases to - from,
{
    if to <= from || to > ls.len() {
        seq![]
    } else {
        let rest = items_at(ls, sh, from, to - 1);
        match (item_name(ls[to - 1]), item_col(ls[to - 1])) {
            (Some(_), Some(c)) => rest.push(((to - 1) as usize, (shift_at(sh, to - 1) + c) as usize)),
            _ => rest,
        }
    }
}

/// The sections of `ls` from line `i` on: blank lines separate them, and each starts at its
/// first non-blank line.
pub open spec fn sections_from(ls: Seq<Seq<char>>, sh: Seq<usize>, i: int) -> Seq<SectionView>
    decreases ls.len() - i,
{
    if i < 0 || i >= ls.len() {
        seq![]
    } else if is_blank(ls[i]) {
        sections_from(ls, sh, i + 1)
    } else {
        let e = block_end(ls, i + 1);
        if i < e <= ls.len() {
            seq![
                SectionView {
                    name: header_name(ls[i]),
                    subs: items_of(ls.subrange(i + 1, e)),
                    at: items_at(ls, sh, i + 1, e),
                },
            ] + sections_from(ls, sh, e)
        } else {
            seq![]
        }
    }
}

/// The sections of a docstring's lines, once comment markers are taken off.
pub open spec fn sections_of(lines: Seq<Seq<char>>) -> Seq<SectionView> {
    sections_from(
        lines.map_values(|l: Seq<char>| uncomment(l)),
        lines.map_values(|l: Seq<char>| comment_shift(l) as usize),
        0,
    )
}

proof fn lemma_block_end(ls: Seq<Seq<char>>, j: int)
    requires
        0 <= j <= ls.len(),
    ensures
        j <= block_end(ls, j) <= ls.len(),
    decreases ls.len() - j,
{
    if j < ls.len() && !is_blank(ls[j]) {
        lemma_block_end(ls, j + 1);
    }
}

fn copy_strings(v: &Vec<String>) -> (r: Vec<String>)
    ensures
        string_views(r@) == string_views(v@),
{
    let mut out: Vec<String> = Vec::new();
    let mut i: usize = 0;
    while i < v.len()
        invariant
            i <= v@.len(),
            string_views(out@) == string_views(v@.subrange(0, i as int)),
        decreases v@.len() - i,
    {
        let ghost before = out@;
        out.push(v[i].clone());
        proof {
            assert(string_views(out@) =~= string_views(before).push(v@[i as int]@));
            assert(string_views(v@.subrange(0, i + 1)) =~= string_views(v@.subrange(0, i as int)).push(
                v@[i as int]@,
            ));
        }
        i = i + 1;
    }
    assert(v@.subrange(0, v@.len() as int) =~= v@);
    out
}

fn sections_from_lines(ls: &Vec<Vec<char>>, sh: &Vec<usize>) -> (r: Vec<Section>)
    requires
        sh@.len() == ls@.len(),
        forall|k: int| 0 <= k < ls@.len() ==> sh@[k] + (#[trigger] ls@[k])@.len() <= usize::MAX,
    ensures
        section_views(r@) == sections_from(line_views(ls@), sh@, 0),
{
    let ghost lv = line_views(ls@);
    let mut out: Vec<Section> = Vec::new();
    let mut i: usize = 0;
    while i < ls.len()
        invariant
            i <= ls@.len(),
            lv == line_views(ls@),
            sh@.len() == ls@.len(),
            forall|k: int| 0 <= k < ls@.len() ==> sh@[k] + (#[trigger] ls@[k])@.len() <= usize::MAX,
            section_views(out@) + sections_from(lv, sh@, i as int) == sections_from(lv, sh@, 0),
        decreases ls@.len() - i,
    {
        if blank(&ls[i]) {
            i = i + 1;
        } else {
            let name = header_name_exec(&ls[i]);
            let mut subs: Vec<String> = Vec::new();
            let mut subs_at: Vec<(usize, usize)> = Vec::new();
            let mut j: usize = i + 1;
            proof {
                lemma_block_end(lv, i + 1);
                assert(lv.subrange(i + 1, j as int) =~= Seq::<Seq<char>>::empty());
            }
            while j < ls.len() && !blank(&ls[j])
                invariant
                    i < j <= ls@.len(),
                    lv == line_views(ls@),
                    block_end(lv, i + 1) == block_end(lv, j as int),
                    string_views(subs@) == items_of(lv.subrange(i + 1, j as int)),
                    subs_at@ == items_at(lv, sh@, i + 1, j as int),
                    sh@.len() == ls@.len(),
                    forall|k: int| 0 <= k < ls@.len() ==> sh@[k] + (#[trigger] ls@[k])@.len() <= usize::MAX,
                decreases ls@.len() - j,
            {
                let item = item_name_exec(&ls[j]);
                proof {
                    assert(lv.subrange(i + 1, j + 1).drop_last() =~= lv.subrange(i + 1, j as int));
                    assert(lv[j as int] == ls@[j as int]@);
                }
                match item {
                    Some((x, c)) => {
                        proof {
                            lemma_item_pos(ls@[j as int]@, 0);
                        }
                        let ghost before = subs@;
                        subs.push(x);
                        assert(string_views(subs@) =~= string_views(before).push(x@));
                        subs_at.push((j, sh[j] + c));
                    },
                    None => {},
                }
                j = j + 1;
            }
            let sec = Section { name, subs, subs_at };
            let ghost before = out@;
            out.push(sec);
            proof {
                assert(section_views(out@) =~= section_views(before).push(sec@));
                assert(section_views(out@) + sections_from(lv, sh@, j as int) =~= section_views(
                    before,
                ) + sections_from(lv, sh@, i as int));
            }
            i = j;
        }
    }
    proof {
        assert(section_views(out@) + sections_from(lv, sh@, i as int) =~= section_views(out@));
    }
    out
}

/// The sections of a docstring given as lines (see `sections_of`).
pub fn get_sections(lines: &Vec<String>) -> (r: Vec<Section>)
    ensures
        section_views(r@) == sections_of(string_views(lines@)),
{
    let mut cleaned: Vec<Vec<char>> = Vec::new();
    let mut shifts: Vec<usize> = Vec::new();
    let mut i: usize = 0;
    while i < lines.len()
        invariant
            i <= lines@.len(),
            line_views(cleaned@) == string_views(lines@.subrange(0, i as int)).map_values(
                |l: Seq<char>| uncomment(l),
            ),
            shifts@ == string_views(lines@.subrange(0, i as int)).map_values(
                |l: Seq<char>| comment_shift(l) as usize,
            ),
            shifts@.len() == cleaned@.len(),
            forall|k: int|
                0 <= k < cleaned@.len() ==> shifts@[k] + (#[trigger] cleaned@[k])@.len()
                    <= usize::MAX,
        decreases lines@.len() - i,
    {
        let full = chars_of(lines[i].as_str());
        let full_len = full.len();
        let (l, shift) = uncomment_exec(full);
        assert(shift + l@.len() == full_len);
        let ghost before = cleaned@;
        let ghost before_sh = shifts@;
        cleaned.push(l);
        shifts.push(shift);
        proof {
            assert(shifts@ =~= before_sh.push(shift));
            assert(cleaned@ =~= before.push(l));
            assert forall|k: int|
                0 <= k < cleaned@.len() implies shifts@[k] + (#[trigger] cleaned@[k])@.len()
                    <= usize::MAX by {
                if k < before.len() {
                    assert(cleaned@[k] == before[k]);
                    assert(shifts@[k] == before_sh[k]);
                }
            }
            assert(string_views(lines@.subrange(0, i + 1)).map_values(
                |l: Seq<char>| comment_shift(l) as usize,
            ) =~= string_views(lines@.subrange(0, i as int)).map_values(
                |l: Seq<char>| comment_shift(l) as usize,
            ).push(comment_shift(lines@[i as int]@) as usize));
            assert(line_views(cleaned@) =~= line_views(before).push(l@));
            assert(string_views(lines@.subrange(0, i + 1)).map_values(|l: Seq<char>| uncomment(l))
                =~= string_views(lines@.subrange(0, i as int)).map_values(
                |l: Seq<char>| uncomment(l),
            ).push(uncomment(lines@[i as int]@)));
        }
        i = i + 1;
    }
    assert(lines@.subrange(0, lines@.len() as int) =~= lines@);
    sections_from_lines(&cleaned, &shifts)
}

// ---------------------------------------------------------------------------------------------
// The docstring model
// ---------------------------------------------------------------------------------------------

/// The kinds of section that the rules look at.
#[derive(Clone, Copy, Debug, PartialEq, Eq, Structural)]
pub enum SectionKind {
    Args,
    Attrs,
    Returns,
    Yields,
    Raises,
}

/// The lower-case spellings that name a section of kind `k`.
pub open spec fn kind_has_name(k: SectionKind, lowered: Seq<char>) -> bool {
    match k {
        SectionKind::Args => lowered == "args"@ || lowered == "arguments"@ || lowered
            == "parameters"@,
        SectionKind::Attrs => lowered == "attributes"@ || lowered == "attrs"@,
        SectionKind::Returns => lowered == "return"@ || lowered == "returns"@,
        SectionKind::Yields => lowered == "yield"@ || lowered == "yields"@,
        SectionKind::Raises => lowered == "raises"@ || lowered == "raise"@,
    }
}

/// A section with this name is of kind `k`, whatever the case of its letters.
pub open spec fn is_kind(name: Option<Seq<char>>, k: SectionKind) -> bool {
    match name {
        Some(n) => kind_has_name(k, lower_of(n)),
        None => false,
    }
}

/// The items of the first section of kind `k`.
pub open spec fn first_items(secs: Seq<SectionView>, k: SectionKind) -> Option<Seq<Seq<char>>>
    decreases secs.len(),
{
    if secs.len() == 0 {
        None
    } else if is_kind(secs[0].name, k) {
        Some(secs[0].subs)
    } else {
        first_items(secs.drop_first(), k)
    }
}

/// The names, as written, of every section of kind `k`, in order.
pub open spec fn kind_names(secs: Seq<SectionView>, k: SectionKind) -> Seq<Seq<char>>
    decreases secs.len(),
{
    if secs.len() == 0 {
        seq![]
    } else {
        let rest = kind_names(secs.drop_last(), k);
        if is_kind(secs.last().name, k) {
            rest.push(secs.last().name->0)
        } else {
            rest
        }
    }
}

/// `kind_names`, or `None` where there is no section of kind `k`.
pub open spec fn all_names(secs: Seq<SectionView>, k: SectionKind) -> Option<Seq<Seq<char>>> {
    let n = kind_names(secs, k);
    if n.len() == 0 {
        None
    } else {
        Some(n)
    }
}

pub open spec fn opt_strings_view(o: Option<Vec<String>>) -> Option<Seq<Seq<char>>> {
    match o {
        Some(v) => Some(string_views(v@)),
        None => None,
    }
}

/// What the rules need of a docstring: for arguments, attributes and exceptions the items of
/// the first such section, and for every kind the names of all its sections.
#[derive(Debug)]
pub struct Docstring {
    args: Option<Vec<String>>,
    args_at: Option<Vec<(usize, usize)>>,
    args_sections: Option<Vec<String>>,
    attrs: Option<Vec<String>>,
    attrs_sections: Option<Vec<String>>,
    returns_sections: Option<Vec<String>>,
    yields_sections: Option<Vec<String>>,
    raises: Option<Vec<String>>,
    raises_sections: Option<Vec<String>>,
    range: TextRange,
}

pub struct DocstringView {
    pub args: Option<Seq<Seq<char>>>,
    /// Where each of `args` stands: its line among the docstring's lines and its column.
    pub args_at: Option<Seq<(usize, usize)>>,
    pub args_sections: Option<Seq<Seq<char>>>,
    pub attrs: Option<Seq<Seq<char>>>,
    pub attrs_sections: Option<Seq<Seq<char>>>,
    pub returns_sections: Option<Seq<Seq<char>>>,
    pub yields_sections: Option<Seq<Seq<char>>>,
    pub raises: Option<Seq<Seq<char>>>,
    pub raises_sections: Option<Seq<Seq<char>>>,
    pub range: TextRange,
}

impl View for Docstring {
    type V = DocstringView;

    closed spec fn view(&self) -> DocstringView {
        DocstringView {
            args: opt_strings_view(self.args),
            args_at: opt_positions_view(self.args_at),
            args_sections: opt_strings_view(self.args_sections),
            attrs: opt_strings_view(self.attrs),
            attrs_sections: opt_strings_view(self.attrs_sections),
            returns_sections: opt_strings_view(self.returns_sections),
            yields_sections: opt_strings_view(self.yields_sections),
            raises: opt_strings_view(self.raises),
            raises_sections: opt_strings_view(self.raises_sections),
            range: self.range,
        }
    }
}

/// The model of a docstring with these sections.
pub open spec fn model_of(secs: Seq<SectionView>, range: TextRange) -> DocstringView {
    DocstringView {
        args: first_items(secs, SectionKind::Args),
        args_at: first_at(secs, SectionKind::Args),
        args_sections: all_names(secs, SectionKind::Args),
        attrs: first_items(secs, SectionKind::Attrs),
        attrs_sections: all_names(secs, SectionKind::Attrs),
        returns_sections: all_names(secs, SectionKind::Returns),
        yields_sections: all_names(secs, SectionKind::Yields),
        raises: first_items(secs, SectionKind::Raises),
        raises_sections: all_names(secs, SectionKind::Raises),
        range,
    }
}

/// The model of the docstring whose text is `value`.
pub open spec fn parse_spec(value: Seq<char>, range: TextRange) -> DocstringView {
    model_of(sections_of(text_lines(value)), range)
}

pub open spec fn list_or_empty(o: Option<Seq<Seq<char>>>) -> Seq<Seq<char>> {
    match o {
        Some(v) => v,
        None => seq![],
    }
}

fn name_is_kind(name: &Option<String>, k: SectionKind) -> (r: bool)
    ensures
        r == is_kind(opt_view(*name), k),
{
    match name {
        Some(n) => {
            let lowered = chars_of(to_lowercase(n.as_str()).as_str());
            match k {
                SectionKind::Args => equal_to(&lowered, "args") || equal_to(&lowered, "arguments")
                    || equal_to(&lowered, "parameters"),
                SectionKind::Attrs => equal_to(&lowered, "attributes") || equal_to(
                    &lowered,
                    "attrs",
                ),
                SectionKind::Returns => equal_to(&lowered, "return") || equal_to(
                    &lowered,
                    "returns",
                ),
                SectionKind::Yields => equal_to(&lowered, "yield") || equal_to(&lowered, "yields"),
                SectionKind::Raises => equal_to(&lowered, "raises") || equal_to(&lowered, "raise"),
            }
        },
        None => false,
    }
}

pub open spec fn opt_positions_view(o: Option<Vec<(usize, usize)>>) -> Option<Seq<(usize, usize)>> {
    match o {
        Some(v) => Some(v@),
        None => None,
    }
}

/// Where the items of the first section of kind `k` stand.
pub open spec fn first_at(secs: Seq<SectionView>, k: SectionKind) -> Option<Seq<(usize, usize)>>
    decreases secs.len(),
{
    if secs.len() == 0 {
        None
    } else if is_kind(secs[0].name, k) {
        Some(secs[0].at)
    } else {
        first_at(secs.drop_first(), k)
    }
}

fn copy_positions(v: &Vec<(usize, usize)>) -> (r: Vec<(usize, usize)>)
    ensures
        r@ == v@,
{
    let mut out: Vec<(usize, usize)> = Vec::new();
    let mut i: usize = 0;
    while i < v.len()
        invariant
            i <= v@.len(),
            out@ == v@.subrange(0, i as int),
        decreases v@.len() - i,
    {
        out.push(v[i]);
        i = i + 1;
        assert(out@ =~= v@.subrange(0, i as int));
    }
    assert(v@.subrange(0, v@.len() as int) =~= v@);
    out
}

fn first_section(secs: &Vec<Section>, k: SectionKind) -> (r: (
    Option<Vec<String>>,
    Option<Vec<(usize, usize)>>,
))
    ensures
        opt_strings_view(r.0) == first_items(section_views(secs@), k),
        opt_positions_view(r.1) == first_at(section_views(secs@), k),
{
    let ghost sv = section_views(secs@);
    let mut i: usize = 0;
    assert(sv.subrange(0, sv.len() as int) =~= sv);
    while i < secs.len()
        invariant
            i <= secs@.len(),
            sv == section_views(secs@),
            first_items(sv, k) == first_items(sv.subrange(i as int, sv.len() as int), k),
            first_at(sv, k) == first_at(sv.subrange(i as int, sv.len() as int), k),
        decreases secs@.len() - i,
    {
        proof {
            let rest = sv.subrange(i as int, sv.len() as int);
            assert(rest.drop_first() =~= sv.subrange(i + 1, sv.len() as int));
            assert(rest[0] == secs@[i as int]@);
        }
        if name_is_kind(&secs[i].name, k) {
            return (Some(copy_strings(&secs[i].subs)), Some(copy_positions(&secs[i].subs_at)));
        }
        i = i + 1;
    }
    (None, None)
}

fn first_section_items(secs: &Vec<Section>, k: SectionKind) -> (r: Option<Vec<String>>)
    ensures
        opt_strings_view(r) == first_items(section_views(secs@), k),
{
    let ghost sv = section_views(secs@);
    let mut i: usize = 0;
    assert(sv.subrange(0, sv.len() as int) =~= sv);
    while i < secs.len()
        invariant
            i <= secs@.len(),
            sv == section_views(secs@),
            first_items(sv, k) == first_items(sv.subrange(i as int, sv.len() as int), k),
        decreases secs@.len() - i,
    {
        proof {
            let rest = sv.subrange(i as int, sv.len() as int);
            assert(rest.drop_first() =~= sv.subrange(i + 1, sv.len() as int));
            assert(rest[0] == secs@[i as int]@);
        }
        if name_is_kind(&secs[i].name, k) {
            return Some(copy_strings(&secs[i].subs));
        }
        i = i + 1;
    }
    None
}

fn all_section_names(secs: &Vec<Section>, k: SectionKind) -> (r: Option<Vec<String>>)
    ensures
        opt_strings_view(r) == all_names(section_views(secs@), k),
{
    let ghost sv = section_views(secs@);
    let mut out: Vec<String> = Vec::new();
    let mut i: usize = 0;
    assert(sv.subrange(0, 0) =~= Seq::<SectionView>::empty());
    while i < secs.len()
        invariant
            i <= secs@.len(),
            sv == section_views(secs@),
            string_views(out@) == kind_names(sv.subrange(0, i as int), k),
        decreases secs@.len() - i,
    {
        proof {
            assert(sv.subrange(0, i + 1).drop_last() =~= sv.subrange(0, i as int));
            assert(sv[i as int] == secs@[i as int]@);
        }
        if name_is_kind(&secs[i].name, k) {
            match &secs[i].name {
                Some(n) => {
                    let ghost before = out@;
                    out.push(n.clone());
                    assert(string_views(out@) =~= string_views(before).push(n@));
                },
                None => {},
            }
        }
        i = i + 1;
    }
    assert(sv.subrange(0, sv.len() as int) =~= sv);
    if out.len() == 0 {
        None
    } else {
        Some(out)
    }
}

fn strings_or_empty(o: &Option<Vec<String>>) -> (r: Vec<String>)
    ensures
        string_views(r@) == list_or_empty(opt_strings_view(*o)),
{
    match o {
        Some(v) => copy_strings(v),
        None => {
            let r: Vec<String> = Vec::new();
            assert(string_views(r@) =~= Seq::<Seq<char>>::empty());
            r
        },
    }
}

fn non_empty(o: &Option<Vec<String>>) -> (r: bool)
    ensures
        r == (list_or_empty(opt_strings_view(*o)).len() > 0),
{
    match o {
        Some(v) => v.len() > 0,
        None => false,
    }
}

/// Builds the model of the docstring whose text is `value` and which spans `range` of the source.
pub fn parse(value: &str, range: TextRange) -> (r: Docstring)
    ensures
        r@ == parse_spec(value@, range),
{
    let lines = split_lines(&chars_of(value));
    let mut texts: Vec<String> = Vec::new();
    let mut i: usize = 0;
    while i < lines.len()
        invariant
            i <= lines@.len(),
            string_views(texts@) == line_views(lines@.subrange(0, i as int)),
        decreases lines@.len() - i,
    {
        let t = string_of(lines[i].as_slice());
        let ghost before = texts@;
        texts.push(t);
        proof {
            assert(string_views(texts@) =~= string_views(before).push(t@));
            assert(line_views(lines@.subrange(0, i + 1)) =~= line_views(
                lines@.subrange(0, i as int),
            ).push(lines@[i as int]@));
        }
        i = i + 1;
    }
    assert(lines@.subrange(0, lines@.len() as int) =~= lines@);
    let secs = get_sections(&texts);
    let (args, args_at) = first_section(&secs, SectionKind::Args);
    Docstring {
        args,
        args_at,
        args_sections: all_section_names(&secs, SectionKind::Args),
        attrs: first_section_items(&secs, SectionKind::Attrs),
        attrs_sections: all_section_names(&secs, SectionKind::Attrs),
        returns_sections: all_section_names(&secs, SectionKind::Returns),
        yields_sections: all_section_names(&secs, SectionKind::Yields),
        raises: first_section_items(&secs, SectionKind::Raises),
        raises_sections: all_section_names(&secs, SectionKind::Raises),
        range,
    }
}

impl Docstring {
    /// No section of any kind that the model records is present.
    pub fn is_empty(&self) -> (r: bool)
        ensures
            r == (self@.args is None && self@.args_sections is None && self@.attrs is None
                && self@.attrs_sections is None && self@.returns_sections is None
                && self@.yields_sections is None && self@.raises is None
                && self@.raises_sections is None),
    {
        self.args.is_none() && self.args_sections.is_none() && self.attrs.is_none()
            && self.attrs_sections.is_none() && self.returns_sections.is_none()
            && self.yields_sections.is_none() && self.raises.is_none()
            && self.raises_sections.is_none()
    }

    /// There is a returns section.
    pub fn has_returns(&self) -> (r: bool)
        ensures
            r == (list_or_empty(self@.returns_sections).len() > 0),
    {
        non_empty(&self.returns_sections)
    }

    /// The names of all returns sections, as written.
    pub fn get_returns(&self) -> (r: Vec<String>)
        ensures
            string_views(r@) == list_or_empty(self@.returns_sections),
    {
        strings_or_empty(&self.returns_sections)
    }

    /// There is a yields section.
    pub fn has_yields(&self) -> (r: bool)
        ensures
            r == (list_or_empty(self@.yields_sections).len() > 0),
    {
        non_empty(&self.yields_sections)
    }

    /// The names of all yields sections, as written.
    pub fn get_yields(&self) -> (r: Vec<String>)
        ensures
            string_views(r@) == list_or_empty(self@.yields_sections),
    {
        strings_or_empty(&self.yields_sections)
    }

    /// There is an arguments section.
    pub fn has_args_sections(&self) -> (r: bool)
        ensures
            r == (list_or_empty(self@.args_sections).len() > 0),
    {
        non_empty(&self.args_sections)
    }

    /// The names of all arguments sections, as written.
    pub fn get_args_sections(&self) -> (r: Vec<String>)
        ensures
            string_views(r@) == list_or_empty(self@.args_sections),
    {
        strings_or_empty(&self.args_sections)
    }

    /// The first arguments section names at least one argument.
    pub fn has_args(&self) -> (r: bool)
        ensures
            r == (list_or_empty(self@.args).len() > 0),
    {
        non_empty(&self.args)
    }

    /// The arguments that the first arguments section names, in order.
    pub fn get_args(&self) -> (r: Vec<String>)
        ensures
            string_views(r@) == list_or_empty(self@.args),
    {
        strings_or_empty(&self.args)
    }

    /// Where each documented argument stands: its line among the docstring's lines and its
    /// column, in the order of `get_args`.
    pub fn get_args_at(&self) -> (r: Vec<(usize, usize)>)
        ensures
            r@ == (match self@.args_at {
                Some(v) => v,
                None => seq![],
            }),
    {
        match &self.args_at {
            Some(v) => copy_positions(v),
            None => Vec::new(),
        }
    }

    /// There is a raises section.
    pub fn has_raises_sections(&self) -> (r: bool)
        ensures
            r == (list_or_empty(self@.raises_sections).len() > 0),
    {
        non_empty(&self.raises_sections)
    }

    /// The names of all raises sections, as written.
    pub fn get_raises_sections(&self) -> (r: Vec<String>)
        ensures
            string_views(r@) == list_or_empty(self@.raises_sections),
    {
        strings_or_empty(&self.raises_sections)
    }

    /// The first raises section names at least one exception.
    pub fn has_raises(&self) -> (r: bool)
        ensures
            r == (list_or_empty(self@.raises).len() > 0),
    {
        non_empty(&self.raises)
    }

    /// The exceptions that the first raises section names, in order.
    pub fn get_raises(&self) -> (r: Vec<String>)
        ensures
            string_views(r@) == list_or_empty(self@.raises),
    {
        strings_or_empty(&self.raises)
    }

    /// The span of the docstring in the source.
    pub fn get_range(&self) -> (r: TextRange)
        ensures
            r == self@.range,
    {
        self.range
    }
}

// ---------------------------------------------------------------------------------------------
// Comparing docstrings
// ---------------------------------------------------------------------------------------------

/// The two lists hold the same items, each as many times, in any order.
pub open spec fn same_items(a: Seq<Seq<char>>, b: Seq<Seq<char>>) -> bool {
    a.to_multiset() == b.to_multiset()
}

/// Two docstrings are alike when, kind by kind, they list the same items and the same section
/// names, whatever their order; an absent list is alike an empty one.
pub open spec fn alike(a: DocstringView, b: DocstringView) -> bool {
    &&& same_items(list_or_empty(a.args), list_or_empty(b.args))
    &&& same_items(list_or_empty(a.args_sections), list_or_empty(b.args_sections))
    &&& same_items(list_or_empty(a.attrs), list_or_empty(b.attrs))
    &&& same_items(list_or_empty(a.attrs_sections), list_or_empty(b.attrs_sections))
    &&& same_items(list_or_empty(a.returns_sections), list_or_empty(b.returns_sections))
    &&& same_items(list_or_empty(a.yields_sections), list_or_empty(b.yields_sections))
    &&& same_items(list_or_empty(a.raises), list_or_empty(b.raises))
    &&& same_items(list_or_empty(a.raises_sections), list_or_empty(b.raises_sections))
}

/// How many times `x` occurs in `s`.
pub open spec fn occurrences(s: Seq<Seq<char>>, x: Seq<char>) -> nat
    decreases s.len(),
{
    if s.len() == 0 {
        0
    } else {
        occurrences(s.drop_last(), x) + if s.last() == x {
            1nat
        } else {
            0nat
        }
    }
}

proof fn lemma_occurrences(s: Seq<Seq<char>>, x: Seq<char>)
    ensures
        occurrences(s, x) == s.to_multiset().count(x),
    decreases s.len(),
{
    broadcast use vstd::seq_lib::group_to_multiset_ensures;

    if s.len() == 0 {
        assert(s.to_multiset() =~= Multiset::empty());
    } else {
        let w = s.drop_last();
        lemma_occurrences(w, x);
        assert(w.push(s.last()) =~= s);
    }
}

fn count_of(v: &Vec<String>, x: &String) -> (r: usize)
    ensures
        r == occurrences(string_views(v@), x@),
{
    let ghost vv = string_views(v@);
    let mut c: usize = 0;
    let mut i: usize = 0;
    assert(vv.subrange(0, 0) =~= Seq::<Seq<char>>::empty());
    while i < v.len()
        invariant
            i <= v@.len(),
            vv == string_views(v@),
            c == occurrences(vv.subrange(0, i as int), x@),
            c <= i,
        decreases v@.len() - i,
    {
        assert(vv.subrange(0, i + 1).drop_last() =~= vv.subrange(0, i as int));
        if v[i] == *x {
            c = c + 1;
        }
        i = i + 1;
    }
    assert(vv.subrange(0, vv.len() as int) =~= vv);
    c
}

/// Every item of `of` occurs as often in `a` as in `b`.
fn counts_agree(a: &Vec<String>, b: &Vec<String>, of: &Vec<String>) -> (r: bool)
    ensures
        r == forall|i: int|
            0 <= i < of@.len() ==> occurrences(string_views(a@), #[trigger] of@[i]@) == occurrences(
                string_views(b@),
                of@[i]@,
            ),
{
    let mut i: usize = 0;
    while i < of.len()
        invariant
            i <= of@.len(),
            forall|j: int|
                0 <= j < i ==> occurrences(string_views(a@), #[trigger] of@[j]@) == occurrences(
                    string_views(b@),
                    of@[j]@,
                ),
        decreases of@.len() - i,
    {
        if count_of(a, &of[i]) != count_of(b, &of[i]) {
            return false;
        }
        i = i + 1;
    }
    true
}

fn same_items_exec(a: &Vec<String>, b: &Vec<String>) -> (r: bool)
    ensures
        r == same_items(string_views(a@), string_views(b@)),
{
    broadcast use vstd::seq_lib::group_to_multiset_ensures;

    let ghost av = string_views(a@);
    let ghost bv = string_views(b@);
    let first = counts_agree(a, b, a);
    let second = counts_agree(a, b, b);
    proof {
        if first && second {
            assert forall|x: Seq<char>| av.to_multiset().count(x) == bv.to_multiset().count(x) by {
                lemma_occurrences(av, x);
                lemma_occurrences(bv, x);
                if av.contains(x) {
                    let i = choose|i: int| 0 <= i < av.len() && av[i] == x;
                    assert(a@[i]@ == x);
                } else if bv.contains(x) {
                    let i = choose|i: int| 0 <= i < bv.len() && bv[i] == x;
                    assert(b@[i]@ == x);
                }
            }
            assert(av.to_multiset() =~= bv.to_multiset());
        }
        if av.to_multiset() == bv.to_multiset() {
            assert forall|i: int| 0 <= i < a@.len() implies occurrences(av, #[trigger] a@[i]@)
                == occurrences(bv, a@[i]@) by {
                lemma_occurrences(av, a@[i]@);
                lemma_occurrences(bv, a@[i]@);
            }
            assert forall|i: int| 0 <= i < b@.len() implies occurrences(av, #[trigger] b@[i]@)
                == occurrences(bv, b@[i]@) by {
                lemma_occurrences(av, b@[i]@);
                lemma_occurrences(bv, b@[i]@);
            }
        } else {
            if first && second {
                assert(false);
            }
        }
    }
    first && second
}

fn same_opt_items(a: &Option<Vec<String>>, b: &Option<Vec<String>>) -> (r: bool)
    ensures
        r == same_items(list_or_empty(opt_strings_view(*a)), list_or_empty(opt_strings_view(*b))),
{
    same_items_exec(&strings_or_empty(a), &strings_or_empty(b))
}

impl Docstring {
    /// Whether the two docstrings are alike (see `alike`); their places in the source do not
    /// count.
    pub fn alike(&self, other: &Docstring) -> (r: bool)
        ensures
            r == alike(self@, other@),
    {
        same_opt_items(&self.args, &other.args) && same_opt_items(
            &self.args_sections,
            &other.args_sections,
        ) && same_opt_items(&self.attrs, &other.attrs) && same_opt_items(
            &self.attrs_sections,
            &other.attrs_sections,
        ) && same_opt_items(&self.returns_sections, &other.returns_sections) && same_opt_items(
            &self.yields_sections,
            &other.yields_sections,
        ) && same_opt_items(&self.raises, &other.raises) && same_opt_items(
            &self.raises_sections,
            &other.raises_sections,
        )
    }
}

} // verus!

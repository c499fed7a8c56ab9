use vstd::prelude::*;

verus! {

/// A span of the source text, as byte offsets: `start` inclusive, `end` exclusive.
#[derive(Clone, Copy, Debug, PartialEq, Eq, Structural)]
pub struct TextRange {
    pub start: usize,
    pub end: usize,
}

impl TextRange {
    /// The range lies within a text of `len` bytes.
    pub open spec fn within(self, len: nat) -> bool {
        self.start <= self.end && self.end <= len
    }
}

/// One occurrence found by `find_string_in_text_range`.
#[derive(Clone, Copy, Debug, PartialEq, Eq, Structural)]
pub struct Hit {
    /// The 1-based line on which the occurrence starts.
    pub line: usize,
    /// How many bytes precede the occurrence on its own line.
    pub column: usize,
    /// Which of the searched strings was found.
    pub target: usize,
}

/// The contents of each byte string.
pub open spec fn byte_views(ts: Seq<Vec<u8>>) -> Seq<Seq<u8>> {
    ts.map_values(|t: Vec<u8>| t@)
}

pub open spec fn newline_count(s: Seq<u8>) -> nat
    decreases s.len(),
{
    if s.len() == 0 {
        0
    } else {
        newline_count(s.drop_last()) + if s.last() == 10u8 {
            1nat
        } else {
            0nat
        }
    }
}

/// The number of bytes after the last newline of `s` (all of `s` if it has none).
pub open spec fn tail_len(s: Seq<u8>) -> nat
    decreases s.len(),
{
    if s.len() == 0 {
        0
    } else if s.last() == 10u8 {
        0
    } else {
        tail_len(s.drop_last()) + 1
    }
}

/// ASCII lower case of a byte.
pub open spec fn lower(b: u8) -> u8 {
    if 65 <= b <= 90 {
        (b + 32) as u8
    } else {
        b
    }
}

/// `t` occurs, ignoring ASCII case, at offset `p` of `src`, and ends no later than `end`.
pub open spec fn matches_at(src: Seq<u8>, p: int, end: int, t: Seq<u8>) -> bool {
    &&& t.len() > 0
    &&& 0 <= p
    &&& p + t.len() <= end
    &&& forall|k: int| 0 <= k < t.len() ==> lower(#[trigger] src[p + k]) == lower(t[k])
}

/// The first of `ts[k..]` that occurs at `p`.
pub open spec fn first_match(src: Seq<u8>, p: int, end: int, ts: Seq<Seq<u8>>, k: int) -> Option<
    int,
>
    decreases ts.len() - k,
{
    if k < 0 || k >= ts.len() {
        None
    } else if matches_at(src, p, end, ts[k]) {
        Some(k)
    } else {
        first_match(src, p, end, ts, k + 1)
    }
}

pub open spec fn hit_at(src: Seq<u8>, p: int, k: int) -> Hit {
    Hit {
        line: (newline_count(src.subrange(0, p)) + 1) as usize,
        column: tail_len(src.subrange(0, p)) as usize,
        target: k as usize,
    }
}

/// Scanning `src` from `p` to `end`: at each offset the first target that occurs there is
/// recorded and skipped over; where none occurs the scan moves on by one byte.
pub open spec fn hits_from(src: Seq<u8>, p: int, end: int, ts: Seq<Seq<u8>>) -> Seq<Hit>
    decreases end - p,
{
    if p >= end {
        seq![]
    } else {
        match first_match(src, p, end, ts, 0) {
            Some(k) => if 0 <= k < ts.len() && ts[k].len() > 0 && p + ts[k].len() <= end {
                seq![hit_at(src, p, k)] + hits_from(src, p + ts[k].len(), end, ts)
            } else {
                hits_from(src, p + 1, end, ts)
            },
            None => hits_from(src, p + 1, end, ts),
        }
    }
}

pub open spec fn hits_in(src: Seq<u8>, range: TextRange, ts: Seq<Seq<u8>>) -> Seq<Hit> {
    if range.within(src.len()) {
        hits_from(src, range.start as int, range.end as int, ts)
    } else {
        seq![]
    }
}

proof fn lemma_first_match(src: Seq<u8>, p: int, end: int, ts: Seq<Seq<u8>>, k: int)
    ensures
        first_match(src, p, end, ts, k) matches Some(j) ==> k <= j < ts.len() && matches_at(
            src,
            p,
            end,
            ts[j],
        ),
    decreases ts.len() - k,
{
    if 0 <= k < ts.len() && !matches_at(src, p, end, ts[k]) {
        lemma_first_match(src, p, end, ts, k + 1);
    }
}

proof fn lemma_prefix_step(s: Seq<u8>, i: int)
    requires
        0 <= i < s.len(),
    ensures
        s.subrange(0, i + 1).drop_last() == s.subrange(0, i),
        s.subrange(0, i + 1).last() == s[i],
{
    assert(s.subrange(0, i + 1).drop_last() =~= s.subrange(0, i));
}

/// The 1-based line of offset `p` and the number of bytes before `p` on its line.
fn prefix_position(src: &Vec<u8>, p: usize) -> (r: (usize, usize))
    requires
        p < src@.len(),
    ensures
        r.0 == newline_count(src@.subrange(0, p as int)) + 1,
        r.1 == tail_len(src@.subrange(0, p as int)),
        r.0 <= p + 1,
{
    let mut newlines: usize = 0;
    let mut tail: usize = 0;
    let mut i: usize = 0;
    assert(src@.subrange(0, 0) =~= Seq::<u8>::empty());
    while i < p
        invariant
            p < src@.len(),
            i <= p,
            newlines == newline_count(src@.subrange(0, i as int)),
            tail == tail_len(src@.subrange(0, i as int)),
            newlines + tail <= i,
        decreases p - i,
    {
        proof {
            lemma_prefix_step(src@, i as int);
        }
        if src[i] == 10u8 {
            newlines = newlines + 1;
            tail = 0;
        } else {
            tail = tail + 1;
        }
        i = i + 1;
    }
    let n = src.len();
    assert(newlines < n);
    (newlines + 1, tail)
}

/// The 1-based line and 0-based column of byte offset `index`, or `None` past the text's end.
pub fn find_line_and_column(src: &Vec<u8>, index: usize) -> (r: Option<(usize, usize)>)
    ensures
        index < src@.len() ==> r == Some(
            (
                (newline_count(src@.subrange(0, index as int)) + 1) as usize,
                tail_len(src@.subrange(0, index as int)) as usize,
            ),
        ),
        index >= src@.len() ==> r.is_none(),
{
    if index >= src.len() {
        return None;
    }
    Some(prefix_position(src, index))
}

fn matches_here(src: &Vec<u8>, p: usize, end: usize, t: &Vec<u8>) -> (r: bool)
    requires
        end <= src@.len(),
    ensures
        r == matches_at(src@, p as int, end as int, t@),
{
    if t.len() == 0 || p > end || end - p < t.len() {
        return false;
    }
    let mut k: usize = 0;
    while k < t.len()
        invariant
            p + t@.len() <= end <= src@.len(),
            k <= t@.len(),
            forall|j: int| 0 <= j < k ==> lower(#[trigger] src@[p + j]) == lower(t@[j]),
        decreases t@.len() - k,
    {
        let a = src[p + k];
        let b = t[k];
        let la: u8 = if 65 <= a && a <= 90 {
            a + 32
        } else {
            a
        };
        let lb: u8 = if 65 <= b && b <= 90 {
            b + 32
        } else {
            b
        };
        if la != lb {
            return false;
        }
        k = k + 1;
    }
    true
}

fn first_match_exec(src: &Vec<u8>, p: usize, end: usize, ts: &Vec<Vec<u8>>) -> (r: Option<usize>)
    requires
        end <= src@.len(),
    ensures
        r matches Some(k) ==> first_match(src@, p as int, end as int, byte_views(ts@), 0) == Some(
            k as int,
        ),
        r is None ==> first_match(src@, p as int, end as int, byte_views(ts@), 0) is None,
        r matches Some(k) ==> k < ts@.len(),
{
    let ghost tv = byte_views(ts@);
    let mut k: usize = 0;
    while k < ts.len()
        invariant
            k <= ts@.len(),
            end <= src@.len(),
            tv == byte_views(ts@),
            first_match(src@, p as int, end as int, tv, 0) == first_match(
                src@,
                p as int,
                end as int,
                tv,
                k as int,
            ),
        decreases ts@.len() - k,
    {
        if matches_here(src, p, end, &ts[k]) {
            return Some(k);
        }
        k = k + 1;
    }
    None
}

/// Every occurrence of the `targets`, ignoring ASCII case, inside `range` of `src`, scanned
/// from left to right: at each offset the first target that occurs wins and is skipped over.
/// A range that does not lie within `src` holds no occurrence.
pub fn find_string_in_text_range(src: &Vec<u8>, range: TextRange, targets: &Vec<Vec<u8>>) -> (r:
    Vec<Hit>)
    ensures
        r@ == hits_in(src@, range, byte_views(targets@)),
{
    let ghost tv = byte_views(targets@);
    let mut out: Vec<Hit> = Vec::new();
    if !(range.start <= range.end && range.end <= src.len()) {
        return out;
    }
    let end = range.end;
    let mut p: usize = range.start;
    while p < end
        invariant
            range.start <= p,
            end == range.end,
            end <= src@.len(),
            tv == byte_views(targets@),
            p <= end || out@ == hits_from(src@, range.start as int, end as int, tv),
            p <= end ==> out@ + hits_from(src@, p as int, end as int, tv) == hits_from(
                src@,
                range.start as int,
                end as int,
                tv,
            ),
        decreases end - p,
    {
        match first_match_exec(src, p, end, targets) {
            Some(k) => {
                proof {
                    lemma_first_match(src@, p as int, end as int, tv, 0);
                    assert(tv[k as int] == targets@[k as int]@);
                }
                let (line, column) = prefix_position(src, p);
                let h = Hit { line, column, target: k };
                proof {
                    lemma_first_match(src@, p as int, end as int, tv, 0);
                    assert(h == hit_at(src@, p as int, k as int));
                    assert(out@.push(h) + hits_from(src@, p + tv[k as int].len(), end as int, tv)
                        =~= out@ + hits_from(src@, p as int, end as int, tv));
                }
                out.push(h);
                p = p + targets[k].len();
            },
            None => {
                p = p + 1;
            },
        }
    }
    proof {
        assert(out@ + hits_from(src@, p as int, end as int, tv) =~= out@);
    }
    out
}

} // verus!

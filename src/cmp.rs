use vstd::prelude::*;
use crate::source::{Operand, names_stdin, operand, operand_of};

verus! {

/// The byte value of a line feed.
pub const LINE_FEED: u8 = 10;

/// One of the two compared streams.
#[derive(Clone, Copy, Debug, PartialEq, Eq, Structural)]
pub enum Side {
    First,
    Second,
}

/// A differing byte pair, as list mode reports it: its 1-based offset and the
/// byte of each stream.
#[derive(Clone, Copy, Debug, PartialEq, Eq, Structural)]
pub struct ByteDiff {
    pub offset: u64,
    pub first: u8,
    pub second: u8,
}

/// How a comparison ended.
#[derive(Clone, Copy, Debug, PartialEq, Eq, Structural)]
pub enum Verdict {
    /// No difference and equal lengths.
    Identical,
    /// Default mode: the first difference, at a 1-based offset and line.
    Differ { offset: u64, line: u64 },
    /// Short mode: a difference, reported by status alone.
    Silent,
    /// One stream ended before the other; the side is the shorter one.
    Eof(Side),
    /// List mode: differences were listed, and the lengths are equal.
    Listed,
}

/// The running state of a comparison: the 1-based offset of the next byte pair,
/// the current line, and whether list mode has seen a difference.
#[derive(Clone, Copy, Debug, PartialEq, Eq, Structural)]
pub struct CmpState {
    pub offset: u64,
    pub line: u64,
    pub differ: bool,
}

/// What to do after one pair of reads.
#[derive(Clone, Copy, Debug, PartialEq, Eq, Structural)]
pub enum Step {
    /// Read the next pair.
    Continue,
    /// Write this difference, then read the next pair.
    Report(ByteDiff),
    /// Stop with this verdict.
    Stop(Verdict),
}

impl Verdict {
    /// The exit status of a comparison that ended so: 0 for identical, 1 otherwise.
    pub open spec fn spec_status(self) -> i32 {
        if self == Verdict::Identical {
            0
        } else {
            1
        }
    }

    /// The exit status of a comparison that ended so: 0 for identical, 1 otherwise.
    pub fn status(&self) -> (r: i32)
        ensures
            r == self.spec_status(),
    {
        match self {
            Verdict::Identical => 0,
            _ => 1,
        }
    }
}

/// The state before the first pair of reads.
pub open spec fn spec_initial_state() -> CmpState {
    CmpState { offset: 1, line: 1, differ: false }
}

/// The state before the first pair of reads: offset 1, line 1, no difference.
pub fn initial_state() -> (r: CmpState)
    ensures
        r == spec_initial_state(),
{
    CmpState { offset: 1, line: 1, differ: false }
}

/// A state that `cmp_step` accepts: the line never passes the offset, which
/// starts at 1.
pub open spec fn state_ok(st: CmpState) -> bool {
    1 <= st.line <= st.offset
}

/// One transition of the comparison, given the next byte of each stream
/// (`None` once a stream is exhausted).
pub open spec fn step_of(list: bool, short: bool, st: CmpState, b1: Option<u8>, b2: Option<u8>) -> (
    CmpState,
    Step,
) {
    match (b1, b2) {
        (Some(x), Some(y)) => if x == y {
            (
                CmpState {
                    offset: (st.offset + 1) as u64,
                    line: if x == LINE_FEED {
                        (st.line + 1) as u64
                    } else {
                        st.line
                    },
                    differ: st.differ,
                },
                Step::Continue,
            )
        } else if short {
            (st, Step::Stop(Verdict::Silent))
        } else if list {
            (
                CmpState { offset: (st.offset + 1) as u64, line: st.line, differ: true },
                Step::Report(ByteDiff { offset: st.offset, first: x, second: y }),
            )
        } else {
            (st, Step::Stop(Verdict::Differ { offset: st.offset, line: st.line }))
        },
        (None, Some(_)) => (st, Step::Stop(Verdict::Eof(Side::First))),
        (Some(_), None) => (st, Step::Stop(Verdict::Eof(Side::Second))),
        (None, None) => (
            st,
            Step::Stop(
                if st.differ {
                    Verdict::Listed
                } else {
                    Verdict::Identical
                },
            ),
        ),
    }
}

/// Advances the comparison by one pair of reads. `short` takes precedence over
/// `list`; with neither, the first difference ends the comparison.
pub fn cmp_step(list: bool, short: bool, st: CmpState, b1: Option<u8>, b2: Option<u8>) -> (r: (
    CmpState,
    Step,
))
    requires
        state_ok(st),
        b1 is Some && b2 is Some ==> st.offset < u64::MAX,
    ensures
        r == step_of(list, short, st, b1, b2),
        state_ok(r.0),
{
    match (b1, b2) {
        (Some(x), Some(y)) => {
            if x == y {
                let line = if x == LINE_FEED {
                    st.line + 1
                } else {
                    st.line
                };
                (CmpState { offset: st.offset + 1, line, differ: st.differ }, Step::Continue)
            } else if short {
                (st, Step::Stop(Verdict::Silent))
            } else if list {
                (
                    CmpState { offset: st.offset + 1, line: st.line, differ: true },
                    Step::Report(ByteDiff { offset: st.offset, first: x, second: y }),
                )
            } else {
                (st, Step::Stop(Verdict::Differ { offset: st.offset, line: st.line }))
            }
        },
        (None, Some(_)) => (st, Step::Stop(Verdict::Eof(Side::First))),
        (Some(_), None) => (st, Step::Stop(Verdict::Eof(Side::Second))),
        (None, None) => {
            let v = if st.differ {
                Verdict::Listed
            } else {
                Verdict::Identical
            };
            (st, Step::Stop(v))
        },
    }
}

/// What a run of `cmp` on two operands does.
#[derive(Debug)]
pub enum CmpPlan {
    /// Both operands are standard input: identical, with nothing read.
    BothStdin,
    /// Compare the first source with the second.
    Compare(Operand, Operand),
}

/// Plans a run of `cmp` on the operands `file1` and `file2`: two references to
/// standard input are identical at once; otherwise each operand is resolved
/// to its source and the two are compared.
pub fn cmp(file1: &str, file2: &str) -> (r: CmpPlan)
    ensures
        r is BothStdin <==> names_stdin(file1@) && names_stdin(file2@),
        r matches CmpPlan::Compare(a, b) ==> a@ == operand_of(file1@) && b@ == operand_of(file2@),
{
    let a = operand(file1);
    let b = operand(file2);
    match (a, b) {
        (Operand::Stdin, Operand::Stdin) => CmpPlan::BothStdin,
        (a, b) => CmpPlan::Compare(a, b),
    }
}

/// The smaller of two lengths.
pub open spec fn min_len(a: Seq<u8>, b: Seq<u8>) -> int {
    if a.len() <= b.len() {
        a.len() as int
    } else {
        b.len() as int
    }
}

/// The number of positions below `n` where both streams hold a line feed.
pub open spec fn matched_newlines(a: Seq<u8>, b: Seq<u8>, n: int) -> int
    decreases n,
{
    if n <= 0 {
        0
    } else {
        matched_newlines(a, b, n - 1) + if a[n - 1] == b[n - 1] && a[n - 1] == LINE_FEED {
            1int
        } else {
            0int
        }
    }
}

/// The first position below `n` where the streams differ, or `n` if none does.
pub open spec fn first_diff(a: Seq<u8>, b: Seq<u8>, n: int) -> int
    decreases n,
{
    if n <= 0 {
        0
    } else if first_diff(a, b, n - 1) < n - 1 {
        first_diff(a, b, n - 1)
    } else if a[n - 1] != b[n - 1] {
        n - 1
    } else {
        n
    }
}

/// Every differing pair at a position below `n`, in order, with 1-based offsets.
pub open spec fn listed_diffs(a: Seq<u8>, b: Seq<u8>, n: int) -> Seq<ByteDiff>
    decreases n,
{
    if n <= 0 {
        Seq::empty()
    } else if a[n - 1] != b[n - 1] {
        listed_diffs(a, b, n - 1).push(ByteDiff { offset: n as u64, first: a[n - 1], second: b[n - 1] })
    } else {
        listed_diffs(a, b, n - 1)
    }
}

/// The verdict when one stream is longer: the shorter one ran out.
pub open spec fn eof_verdict(a: Seq<u8>, b: Seq<u8>) -> Verdict {
    if a.len() < b.len() {
        Verdict::Eof(Side::First)
    } else {
        Verdict::Eof(Side::Second)
    }
}

/// What comparing the whole of `a` with the whole of `b` yields: the list of
/// reported differences and the verdict.
pub open spec fn cmp_outcome(list: bool, short: bool, a: Seq<u8>, b: Seq<u8>) -> (Seq<ByteDiff>, Verdict) {
    let m = min_len(a, b);
    let d = first_diff(a, b, m);
    if short {
        (
            Seq::empty(),
            if d < m {
                Verdict::Silent
            } else if a.len() != b.len() {
                eof_verdict(a, b)
            } else {
                Verdict::Identical
            },
        )
    } else if list {
        let ds = listed_diffs(a, b, m);
        (
            ds,
            if a.len() != b.len() {
                eof_verdict(a, b)
            } else if ds.len() > 0 {
                Verdict::Listed
            } else {
                Verdict::Identical
            },
        )
    } else {
        (
            Seq::empty(),
            if d < m {
                Verdict::Differ { offset: (d + 1) as u64, line: (1 + matched_newlines(a, b, d)) as u64 }
            } else if a.len() != b.len() {
                eof_verdict(a, b)
            } else {
                Verdict::Identical
            },
        )
    }
}

proof fn lemma_matched_newlines_bound(a: Seq<u8>, b: Seq<u8>, n: int)
    requires
        0 <= n,
    ensures
        0 <= matched_newlines(a, b, n) <= n,
    decreases n,
{
    if n > 0 {
        lemma_matched_newlines_bound(a, b, n - 1);
    }
}

proof fn lemma_first_diff_facts(a: Seq<u8>, b: Seq<u8>, n: int)
    requires
        0 <= n <= min_len(a, b),
    ensures
        0 <= first_diff(a, b, n) <= n,
        forall|j: int| 0 <= j < first_diff(a, b, n) ==> a[j] == b[j],
        first_diff(a, b, n) < n ==> a[first_diff(a, b, n)] != b[first_diff(a, b, n)],
        first_diff(a, b, n) == n <==> listed_diffs(a, b, n).len() == 0,
    decreases n,
{
    if n > 0 {
        lemma_first_diff_facts(a, b, n - 1);
    }
}

proof fn lemma_first_diff_stays(a: Seq<u8>, b: Seq<u8>, i: int, n: int)
    requires
        0 <= i < n <= min_len(a, b),
        first_diff(a, b, i + 1) == i,
    ensures
        first_diff(a, b, n) == i,
    decreases n,
{
    if n > i + 1 {
        lemma_first_diff_stays(a, b, i, n - 1);
    }
}

/// Compares `a` with `b` as the streaming comparison does, and returns the
/// reported differences and the verdict. `short` silences every difference
/// and ends at the first one; `list` reports every differing pair; with
/// neither, the first difference ends the comparison with its offset and line.
/// In every mode, streams of unequal length that got that far end in an EOF
/// verdict on the shorter one.
pub fn compare(list: bool, short: bool, a: &[u8], b: &[u8]) -> (r: (Vec<ByteDiff>, Verdict))
    requires
        a@.len() < u64::MAX,
        b@.len() < u64::MAX,
    ensures
        (r.0@, r.1) == cmp_outcome(list, short, a@, b@),
{
    let m: usize = if a.len() <= b.len() {
        a.len()
    } else {
        b.len()
    };
    let mut st = initial_state();
    let mut out: Vec<ByteDiff> = Vec::new();
    let mut i: usize = 0;
    while i < m
        invariant
            m == min_len(a@, b@),
            i <= m,
            a@.len() < u64::MAX,
            b@.len() < u64::MAX,
            st.offset == i + 1,
            st.line == 1 + matched_newlines(a@, b@, i as int),
            st.differ == (listed_diffs(a@, b@, i as int).len() > 0),
            list && !short ==> out@ == listed_diffs(a@, b@, i as int),
            !(list && !short) ==> out@ == Seq::<ByteDiff>::empty() && first_diff(a@, b@, i as int)
                == i,
        decreases m - i,
    {
        proof {
            lemma_matched_newlines_bound(a@, b@, i as int);
        }
        let (next, step) = cmp_step(list, short, st, Some(a[i]), Some(b[i]));
        match step {
            Step::Continue => {},
            Step::Report(d) => {
                out.push(d);
            },
            Step::Stop(v) => {
                proof {
                    assert(first_diff(a@, b@, i + 1) == i);
                    lemma_first_diff_stays(a@, b@, i as int, m as int);
                }
                return (out, v);
            },
        }
        st = next;
        i = i + 1;
    }
    proof {
        lemma_matched_newlines_bound(a@, b@, m as int);
        lemma_first_diff_facts(a@, b@, m as int);
    }
    let b1 = if m < a.len() {
        Some(a[m])
    } else {
        None
    };
    let b2 = if m < b.len() {
        Some(b[m])
    } else {
        None
    };
    let (_, step) = cmp_step(list, short, st, b1, b2);
    match step {
        Step::Stop(v) => (out, v),
        _ => {
            proof {
                assert(false);
            }
            (out, Verdict::Identical)
        },
    }
}

/// Comparing a stream with an identical one reports nothing and ends in
/// `Identical` (status 0), in every mode.
pub proof fn identical_streams_agree(list: bool, short: bool, a: Seq<u8>)
    ensures
        cmp_outcome(list, short, a, a).0.len() == 0,
        cmp_outcome(list, short, a, a).1 == Verdict::Identical,
        cmp_outcome(list, short, a, a).1.spec_status() == 0,
{
    lemma_first_diff_no_diff(a, a, a.len() as int);
    lemma_first_diff_facts(a, a, a.len() as int);
}

/// When the first stream is a proper prefix of the second, the comparison ends
/// in an EOF on the first stream (status 1) and lists nothing, in every mode.
pub proof fn proper_prefix_ends_in_eof(list: bool, short: bool, a: Seq<u8>, b: Seq<u8>)
    requires
        a.len() < b.len(),
        b.take(a.len() as int) == a,
    ensures
        cmp_outcome(list, short, a, b).0.len() == 0,
        cmp_outcome(list, short, a, b).1 == Verdict::Eof(Side::First),
        cmp_outcome(list, short, a, b).1.spec_status() == 1,
{
    assert forall|j: int| 0 <= j < a.len() implies a[j] == b[j] by {
        assert(b.take(a.len() as int)[j] == b[j]);
    }
    lemma_first_diff_no_diff(a, b, a.len() as int);
    lemma_first_diff_facts(a, b, a.len() as int);
}

/// In short mode nothing is listed, differing streams end with status 1, and
/// streams of equal length that differ end in `Silent`.
pub proof fn short_mode_reports_status_only(list: bool, a: Seq<u8>, b: Seq<u8>)
    requires
        a != b,
    ensures
        cmp_outcome(list, true, a, b).0.len() == 0,
        cmp_outcome(list, true, a, b).1.spec_status() == 1,
        a.len() == b.len() ==> cmp_outcome(list, true, a, b).1 == Verdict::Silent,
{
    let m = min_len(a, b);
    lemma_first_diff_facts(a, b, m);
    if a.len() == b.len() && first_diff(a, b, m) == m {
        assert(a =~= b);
    }
}

proof fn lemma_first_diff_no_diff(a: Seq<u8>, b: Seq<u8>, n: int)
    requires
        0 <= n <= min_len(a, b),
        forall|j: int| 0 <= j < n ==> a[j] == b[j],
    ensures
        first_diff(a, b, n) == n,
    decreases n,
{
    if n > 0 {
        lemma_first_diff_no_diff(a, b, n - 1);
    }
}

} // verus!

//! How a line of text is cut into runs so the part being composed can be underlined.

use vstd::prelude::*;

verus! {

/// A stretch of text drawn one way.
#[derive(Clone, Copy, Debug, PartialEq, Eq, Structural)]
pub struct TextRun {
    /// Its length in bytes.
    pub len: usize,
    /// Whether an input method is composing it.
    pub underlined: bool,
}

/// A run of `len` bytes, or nothing where there are none.
pub open spec fn run_of(len: int, underlined: bool) -> Seq<TextRun> {
    if len > 0 {
        seq![TextRun { len: len as usize, underlined }]
    } else {
        Seq::empty()
    }
}

/// The runs of a line of `len` bytes of which `start` to `end` are being composed.
pub open spec fn marked_runs(len: int, start: int, end: int) -> Seq<TextRun> {
    run_of(start, false) + run_of(end - start, true) + run_of(len - end, false)
}

/// The bytes that a sequence of runs covers.
pub open spec fn covered(runs: Seq<TextRun>) -> int
    decreases runs.len(),
{
    if runs.len() == 0 {
        0
    } else {
        covered(runs.drop_last()) + runs.last().len
    }
}

proof fn lemma_covered_concat(a: Seq<TextRun>, b: Seq<TextRun>)
    ensures
        covered(a + b) == covered(a) + covered(b),
    decreases b.len(),
{
    if b.len() == 0 {
        assert(a + b =~= a);
    } else {
        assert((a + b).drop_last() =~= a + b.drop_last());
        lemma_covered_concat(a, b.drop_last());
    }
}

proof fn lemma_covered_run(len: int, underlined: bool)
    requires
        0 <= len <= usize::MAX,
    ensures
        covered(run_of(len, underlined)) == len,
{
    if len > 0 {
        let one = run_of(len, underlined);
        assert(one.drop_last() =~= Seq::empty());
        assert(covered(one.drop_last()) == 0);
    }
}

/// The runs of a line cover it exactly, whichever part of it is being composed.
pub proof fn runs_cover_the_line(len: int, start: int, end: int)
    requires
        0 <= start <= end <= len <= usize::MAX,
    ensures
        covered(marked_runs(len, start, end)) == len,
{
    lemma_covered_run(start, false);
    lemma_covered_run(end - start, true);
    lemma_covered_run(len - end, false);
    lemma_covered_concat(run_of(start, false) + run_of(end - start, true), run_of(len - end, false));
    lemma_covered_concat(run_of(start, false), run_of(end - start, true));
}

fn push_run(runs: &mut Vec<TextRun>, len: usize, underlined: bool)
    ensures
        final(runs)@ == old(runs)@ + run_of(len as int, underlined),
{
    if len > 0 {
        runs.push(TextRun { len, underlined });
    }
    proof {
        assert(runs@ =~= old(runs)@ + run_of(len as int, underlined));
    }
}

/// Cut a line of `len` bytes into runs, `start` to `end` of it being composed. Empty runs are left
/// out.
pub fn build_marked_runs(len: usize, start: usize, end: usize) -> (runs: Vec<TextRun>)
    ensures
        runs@ == marked_runs(len as int, start as int, end as int),
{
    let mut runs: Vec<TextRun> = Vec::new();
    push_run(&mut runs, start, false);
    push_run(&mut runs, end.saturating_sub(start), true);
    push_run(&mut runs, len.saturating_sub(end), false);
    proof {
        assert(runs@ =~= marked_runs(len as int, start as int, end as int));
    }
    runs
}

/// What is being composed is underlined and nothing else is: the runs are what is before it, it,
/// and what is after it, those of them that there are.
pub proof fn what_is_composed_is_underlined(len: int, start: int, end: int, i: int)
    requires
        0 <= start <= end <= len <= usize::MAX,
        0 <= i < marked_runs(len, start, end).len(),
    ensures
        ({
            let runs = marked_runs(len, start, end);
            let before = covered(runs.take(i));
            &&& runs[i].len > 0
            &&& runs[i].underlined <==> start <= before < end
            &&& runs[i].underlined ==> before == start && runs[i].len == end - start
            &&& !runs[i].underlined ==> before + runs[i].len <= start || before >= end
        }),
{
    let runs = marked_runs(len, start, end);
    let a = run_of(start, false);
    let b = run_of(end - start, true);
    lemma_covered_run(start, false);
    lemma_covered_run(end - start, true);
    lemma_covered_run(len - end, false);
    lemma_covered_concat(a, b);
    assert(covered(Seq::<TextRun>::empty()) == 0);
    if i == 0 {
        assert(runs.take(0) =~= Seq::empty());
    } else if i < a.len() + b.len() {
        assert(runs.take(i) =~= a);
    } else if i == a.len() + b.len() {
        assert(runs.take(i) =~= a + b);
    }
}

} // verus!

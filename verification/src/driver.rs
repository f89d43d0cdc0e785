//! Orchestration of a training run.
//!
//! The driver trims every raw source line and keeps only the eligible ones —
//! those longer than five characters after trimming, which also discards
//! every empty line.  It then hands the surviving lines out one at a time, in
//! their original order, and merges each completed session's record into the
//! running aggregate.  An absent session result (the user pressed Escape)
//! stops the run for good: no further line is ever presented.  The driver
//! state is modelled by `DriverModel` and both interactions are spec
//! functions on it, so run-level properties are proved once about the model.

use vstd::prelude::*;
use vstd::string::StrSliceExecFns;

use crate::stats::Stats;
use crate::stats::merged;
use crate::stats::zero_stats;
use crate::text::trimmed_of;

verus! {

/// The lines a run presents: each raw line trimmed, keeping, in order, those
/// longer than five characters.
pub open spec fn eligible_lines(raw: Seq<Seq<char>>) -> Seq<Seq<char>>
    decreases raw.len(),
{
    if raw.len() == 0 {
        Seq::<Seq<char>>::empty()
    } else {
        let rest = eligible_lines(raw.drop_last());
        let t = trimmed_of(raw.last());
        if t.len() > 5 {
            rest.push(t)
        } else {
            rest
        }
    }
}

/// Every eligible line is longer than five characters, so a line that trims
/// to five characters or fewer — in particular an empty one — is never
/// presented.
pub proof fn lemma_eligible_lines_are_long(raw: Seq<Seq<char>>)
    ensures
        forall|i: int|
            0 <= i < eligible_lines(raw).len() ==> #[trigger] eligible_lines(raw)[i].len() > 5,
    decreases raw.len(),
{
    if raw.len() > 0 {
        lemma_eligible_lines_are_long(raw.drop_last());
        let rest = eligible_lines(raw.drop_last());
        let t = trimmed_of(raw.last());
        assert forall|i: int| 0 <= i < eligible_lines(raw).len() implies #[trigger] eligible_lines(
            raw,
        )[i].len() > 5 by {
            if t.len() > 5 {
                if i < rest.len() {
                    assert(eligible_lines(raw)[i] == rest[i]);
                } else {
                    assert(eligible_lines(raw)[i] == t);
                }
            } else {
                assert(eligible_lines(raw)[i] == rest[i]);
            }
        }
    }
}

/// The entry picked by a random draw over `n` directory entries: the draw
/// reduced modulo `n`, which is always in bounds.  An empty entry list has
/// no pick, so callers must rule it out first.
pub fn pick_entry_index(draw: usize, n: usize) -> (i: usize)
    requires
        n > 0,
    ensures
        i == draw as int % n as int,
        i < n,
{
    draw % n
}

/// The mathematical state of a training run.
pub ghost struct DriverModel {
    /// The eligible lines, trimmed, in source order.
    pub lines: Seq<Seq<char>>,
    /// Index of the next line to present.
    pub next: int,
    /// Aggregate of every merged per-line record.
    pub totals: Stats,
    /// Whether the user has abandoned the run.
    pub stopped: bool,
}

impl DriverModel {
    /// The cursor is in bounds and every line is longer than five
    /// characters.
    pub open spec fn wf(self) -> bool {
        &&& 0 <= self.next <= self.lines.len()
        &&& forall|i: int| 0 <= i < self.lines.len() ==> #[trigger] self.lines[i].len() > 5
    }
}

/// A fresh run over the given raw lines: the eligible ones, from the start,
/// with an all-zero aggregate.
pub open spec fn driver_init(raw: Seq<Seq<char>>) -> DriverModel {
    DriverModel { lines: eligible_lines(raw), next: 0, totals: zero_stats(), stopped: false }
}

/// The line a run presents next: nothing once the run is stopped or the
/// lines are exhausted.
pub open spec fn presented_line(d: DriverModel) -> Option<Seq<char>> {
    if d.stopped || d.next >= d.lines.len() {
        None
    } else {
        Some(d.lines[d.next])
    }
}

/// The run state after asking for a line: the cursor moves past a presented
/// line and nothing else changes.
pub open spec fn after_present(d: DriverModel) -> DriverModel {
    if d.stopped || d.next >= d.lines.len() {
        d
    } else {
        DriverModel { next: d.next + 1, ..d }
    }
}

/// The run state after a session's result: a record is merged into the
/// aggregate, an absent result stops the run.
pub open spec fn after_record(d: DriverModel, outcome: Option<Stats>) -> DriverModel {
    match outcome {
        Some(s) => DriverModel { totals: merged(d.totals, s), ..d },
        None => DriverModel { stopped: true, ..d },
    }
}

/// A presented line is always longer than five characters: a trimmed line of
/// five characters or fewer, or an empty one, is never presented.
pub proof fn lemma_presented_line_is_long(d: DriverModel)
    requires
        d.wf(),
    ensures
        presented_line(d) matches Some(l) ==> l.len() > 5,
{
}

/// Recording an absent result stops the run.
pub proof fn lemma_absent_result_stops_run(d: DriverModel)
    ensures
        after_record(d, None).stopped,
{
}

/// Stopping is permanent: a stopped run presents nothing, and no further
/// interaction — asking for a line or recording any result — restarts it.
/// Together with `lemma_absent_result_stops_run` this gives that once a
/// session returns an absent result, no later line is ever presented.
pub proof fn lemma_stopped_run_presents_nothing(d: DriverModel, outcome: Option<Stats>)
    requires
        d.stopped,
    ensures
        presented_line(d) is None,
        after_present(d) == d,
        after_record(d, outcome).stopped,
{
}

/// Both interactions preserve the run invariant.
pub proof fn lemma_driver_steps_preserve_wf(d: DriverModel, outcome: Option<Stats>)
    requires
        d.wf(),
    ensures
        after_present(d).wf(),
        after_record(d, outcome).wf(),
{
}

/// Bookkeeping for one training run: the eligible lines, the position of the
/// next line to present, the running aggregate, and whether the user has
/// stopped the run.
pub struct TrainingDriver {
    /// The eligible lines, trimmed, in source order.
    pub lines: Vec<String>,
    /// Index of the next line to present.
    pub next: usize,
    /// Aggregate of every merged per-line record.
    pub totals: Stats,
    /// Set once a session reports that the user abandoned the run.
    pub stopped: bool,
}

impl View for TrainingDriver {
    type V = DriverModel;

    open spec fn view(&self) -> DriverModel {
        DriverModel {
            lines: self.lines.deep_view(),
            next: self.next as int,
            totals: self.totals,
            stopped: self.stopped,
        }
    }
}

impl TrainingDriver {
    /// Build a run from raw source lines: trim each and keep the eligible
    /// ones, starting with an all-zero aggregate.
    pub fn new(raw: &Vec<String>) -> (d: TrainingDriver)
        ensures
            d@ == driver_init(raw.deep_view()),
            d@.wf(),
    {
        let mut lines: Vec<String> = Vec::new();
        let n = raw.len();
        let mut i: usize = 0;
        while i < n
            invariant
                n == raw.len(),
                i <= n,
                lines.deep_view() == eligible_lines(raw.deep_view().take(i as int)),
            decreases n - i,
        {
            let trimmed = raw[i].as_str().trim();
            let keep = trimmed.unicode_len() > 5;
            if keep {
                lines.push(trimmed.to_owned());
            }
            i = i + 1;
            proof {
                let rv = raw.deep_view();
                assert(rv.take(i as int).drop_last() =~= rv.take(i as int - 1));
                assert(rv.take(i as int).last() == rv[i as int - 1]);
                assert(rv[i as int - 1] == raw[i as int - 1]@);
                if keep {
                    assert(lines.deep_view() =~= eligible_lines(rv.take(i as int - 1)).push(
                        trimmed_of(rv[i as int - 1]),
                    ));
                }
            }
        }
        proof {
            assert(raw.deep_view().take(n as int) =~= raw.deep_view());
            lemma_eligible_lines_are_long(raw.deep_view());
        }
        TrainingDriver { lines, next: 0, totals: Stats::default(), stopped: false }
    }

    /// Hand out the next line to practice, or nothing when the run is over.
    /// Every line handed out is longer than five characters, and once the
    /// run is stopped or the lines are exhausted nothing more is presented.
    pub fn next_line(&mut self) -> (r: Option<String>)
        requires
            old(self)@.wf(),
        ensures
            final(self)@.wf(),
            final(self)@ == after_present(old(self)@),
            r is Some <==> presented_line(old(self)@) is Some,
            r matches Some(l) ==> presented_line(old(self)@) == Some(l@) && l@.len() > 5,
    {
        if self.stopped || self.next >= self.lines.len() {
            return None;
        }
        let line = self.lines[self.next].clone();
        self.next = self.next + 1;
        proof {
            assert(old(self)@.lines[old(self)@.next] == old(self).lines[old(self).next as int]@);
        }
        Some(line)
    }

    /// Merge one session's result into the run: a record is added to the
    /// aggregate, an absent result stops the run for good.
    pub fn record(&mut self, outcome: Option<Stats>)
        requires
            old(self)@.wf(),
            outcome matches Some(s) ==> old(self).totals.char_count + s.char_count <= u64::MAX
                && old(self).totals.seconds + s.seconds <= u64::MAX
                && old(self).totals.mistakes + s.mistakes <= u64::MAX,
        ensures
            final(self)@.wf(),
            final(self)@ == after_record(old(self)@, outcome),
    {
        match outcome {
            Some(stats) => {
                self.totals.add(stats);
            },
            None => {
                self.stopped = true;
            },
        }
    }
}

} // verus!

use vstd::prelude::*;
use crate::key::LineId;
use crate::patch::{gpio_lines, Patch};

verus! {

/// Level read from an input line.
#[derive(Clone, Copy, Debug, PartialEq, Eq, Structural)]
pub enum Level {
    Low,
    High,
}

/// Whether observing `level` on a line whose last level was high
/// (`was_high`) starts a playback: only on a rise from low to high.
pub open spec fn fires(was_high: bool, level: Level) -> bool {
    !was_high && level == Level::High
}

/// The state a line keeps after observing `level`: whether it is high.
pub open spec fn next_state(was_high: bool, level: Level) -> bool {
    level == Level::High
}

/// The state of a line, initially low, after it has observed `levels`.
pub open spec fn state_after(levels: Seq<Level>) -> bool
    decreases levels.len(),
{
    if levels.len() == 0 {
        false
    } else {
        next_state(state_after(levels.drop_last()), levels.last())
    }
}

/// How many playbacks a line, initially low, starts while observing `levels`.
pub open spec fn play_count(levels: Seq<Level>) -> nat
    decreases levels.len(),
{
    if levels.len() == 0 {
        0
    } else {
        play_count(levels.drop_last()) + if fires(state_after(levels.drop_last()), levels.last()) {
            1nat
        } else {
            0nat
        }
    }
}

/// Whether position `i` of `levels` is a rising edge: high, after low or
/// at the start (a line starts low).
pub open spec fn is_rising(levels: Seq<Level>, i: int) -> bool {
    levels[i] == Level::High && (i == 0 || levels[i - 1] == Level::Low)
}

/// The number of rising edges in `levels`.
pub open spec fn rising_count(levels: Seq<Level>) -> nat
    decreases levels.len(),
{
    if levels.len() == 0 {
        0
    } else {
        rising_count(levels.drop_last()) + if is_rising(levels, levels.len() - 1) {
            1nat
        } else {
            0nat
        }
    }
}

/// A line observed one level per poll starts a playback exactly at each
/// rising edge: its observation `i` plays if and only if level `i` is high
/// and the one before was low, so a line held high plays once, not once per
/// poll, and the number of playbacks is the number of rising edges.
pub proof fn lemma_plays_once_per_rising_edge(levels: Seq<Level>)
    ensures
        forall|i: int|
            0 <= i < levels.len() ==> (fires(state_after(#[trigger] levels.take(i)), levels[i])
                <==> is_rising(levels, i)),
        play_count(levels) == rising_count(levels),
    decreases levels.len(),
{
    assert forall|i: int| 0 <= i < levels.len() implies (fires(
        state_after(#[trigger] levels.take(i)),
        levels[i],
    ) <==> is_rising(levels, i)) by {
        if i > 0 {
            assert(levels.take(i).drop_last() =~= levels.take(i - 1));
            assert(levels.take(i).last() == levels[i - 1]);
        }
    };
    if levels.len() > 0 {
        let rest = levels.drop_last();
        lemma_plays_once_per_rising_edge(rest);
        let k = levels.len() - 1;
        assert(levels.take(k) =~= rest);
        if k > 0 {
            assert(rest.take(k - 1) =~= levels.take(k - 1));
            assert(rest.drop_last() =~= levels.take(k - 1));
        }
        assert(is_rising(levels, k) == fires(state_after(rest), levels.last()));
    }
}

/// The lines that a tick plays, in line order: for each line whose reading
/// succeeded and rose from low to high.
pub open spec fn played_lines(
    lines: Seq<LineId>,
    states: Seq<bool>,
    readings: Seq<Option<Level>>,
    k: int,
) -> Seq<LineId>
    decreases k,
{
    if k <= 0 {
        Seq::empty()
    } else {
        let rest = played_lines(lines, states, readings, k - 1);
        match readings[k - 1] {
            Some(level) => if fires(states[k - 1], level) {
                rest.push(lines[k - 1])
            } else {
                rest
            },
            None => rest,
        }
    }
}

/// The state of a line after a tick: updated from a successful reading,
/// kept as it was when the reading failed.
pub open spec fn state_after_reading(was_high: bool, reading: Option<Level>) -> bool {
    match reading {
        Some(level) => next_state(was_high, level),
        None => was_high,
    }
}

/// Last observed level of each watched line, owned by the poll loop.
pub struct EdgeDetector {
    lines: Vec<LineId>,
    high: Vec<bool>,
}

impl EdgeDetector {
    /// The watched lines, in poll order.
    pub closed spec fn lines_spec(&self) -> Seq<LineId> {
        self.lines@
    }

    /// Whether each watched line was last seen high.
    pub closed spec fn states(&self) -> Seq<bool> {
        self.high@
    }

    pub open spec fn wf(&self) -> bool {
        self.lines_spec().len() == self.states().len()
    }

    /// Watches `lines`, each initially low.
    pub fn new(lines: Vec<LineId>) -> (r: EdgeDetector)
        ensures
            r.wf(),
            r.lines_spec() == lines@,
            r.states() == Seq::new(lines@.len(), |i: int| false),
    {
        let n = lines.len();
        let mut high: Vec<bool> = Vec::new();
        let mut k: usize = 0;
        while k < n
            invariant
                k <= n,
                n == lines@.len(),
                high@ == Seq::new(k as nat, |i: int| false),
            decreases n - k,
        {
            high.push(false);
            k = k + 1;
            assert(high@ =~= Seq::new(k as nat, |i: int| false));
        }
        EdgeDetector { lines, high }
    }

    /// Watches every line of `patch`, each initially low.
    pub fn for_patch<C>(patch: &Patch<C>) -> (r: EdgeDetector)
        ensures
            r.wf(),
            r.lines_spec() == gpio_lines(patch.entries()),
            r.states() == Seq::new(r.lines_spec().len(), |i: int| false),
    {
        EdgeDetector::new(patch.lines())
    }

    pub fn line_count(&self) -> (r: usize)
        ensures
            r == self.lines_spec().len(),
    {
        self.lines.len()
    }

    pub fn line(&self, i: usize) -> (r: LineId)
        requires
            i < self.lines_spec().len(),
        ensures
            r == self.lines_spec()[i as int],
    {
        self.lines[i]
    }

    /// Records `level` as the new level of watched line `i`; returns whether
    /// that is a rise from low to high, on which the line's clip is played.
    pub fn observe(&mut self, i: usize, level: Level) -> (play: bool)
        requires
            old(self).wf(),
            i < old(self).lines_spec().len(),
        ensures
            final(self).wf(),
            final(self).lines_spec() == old(self).lines_spec(),
            final(self).states() == old(self).states().update(
                i as int,
                next_state(old(self).states()[i as int], level),
            ),
            play == fires(old(self).states()[i as int], level),
    {
        let was_high = self.high[i];
        let is_high = match level {
            Level::High => true,
            Level::Low => false,
        };
        self.high.set(i, is_high);
        !was_high && is_high
    }

    /// One poll: `readings[i]` is what line `i` gave, or `None` where the
    /// read failed, which leaves that line as it was until the next poll.
    /// Returns the lines to play, in line order; each line is decided by its
    /// own state and reading alone.
    pub fn tick(&mut self, readings: &Vec<Option<Level>>) -> (played: Vec<LineId>)
        requires
            old(self).wf(),
            readings@.len() == old(self).lines_spec().len(),
        ensures
            final(self).wf(),
            final(self).lines_spec() == old(self).lines_spec(),
            forall|i: int|
                0 <= i < readings@.len() ==> #[trigger] final(self).states()[i]
                    == state_after_reading(old(self).states()[i], readings@[i]),
            played@ == played_lines(
                old(self).lines_spec(),
                old(self).states(),
                readings@,
                readings@.len() as int,
            ),
    {
        let ghost lines0 = self.lines_spec();
        let ghost states0 = self.states();
        let n = readings.len();
        let mut played: Vec<LineId> = Vec::new();
        let mut k: usize = 0;
        while k < n
            invariant
                n == readings@.len(),
                k <= n,
                self.wf(),
                self.lines_spec() == lines0,
                lines0.len() == n,
                states0.len() == n,
                forall|i: int|
                    0 <= i < k ==> #[trigger] self.states()[i] == state_after_reading(
                        states0[i],
                        readings@[i],
                    ),
                forall|i: int| k <= i < n ==> #[trigger] self.states()[i] == states0[i],
                played@ == played_lines(lines0, states0, readings@, k as int),
            decreases n - k,
        {
            match readings[k] {
                Some(level) => {
                    if self.observe(k, level) {
                        played.push(self.lines[k]);
                    }
                },
                None => {},
            }
            k = k + 1;
        }
        played
    }
}

/// Within one tick every line that rises is played, whatever the other
/// lines do: two lines that rise in the same tick are both played.
pub proof fn lemma_rising_lines_all_play(
    lines: Seq<LineId>,
    states: Seq<bool>,
    readings: Seq<Option<Level>>,
    k: int,
    i: int,
)
    requires
        0 <= i < k <= readings.len(),
        lines.len() == readings.len(),
        states.len() == readings.len(),
        readings[i] matches Some(level) && fires(states[i], level),
    ensures
        played_lines(lines, states, readings, k).contains(lines[i]),
    decreases k,
{
    let rest = played_lines(lines, states, readings, k - 1);
    if i == k - 1 {
        let p = played_lines(lines, states, readings, k);
        assert(p == rest.push(lines[i]));
        assert(p[p.len() - 1] == lines[i]);
    } else {
        lemma_rising_lines_all_play(lines, states, readings, k - 1, i);
        let j = choose|j: int| 0 <= j < rest.len() && rest[j] == lines[i];
        let p = played_lines(lines, states, readings, k);
        assert(p[j] == lines[i]);
    }
}

} // verus!

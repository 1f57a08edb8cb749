//! Bounded buffer of log lines for a reader that polls it.
//!
//! The reader treats an index as an absolute, monotonically increasing cursor:
//! it asks for everything after the last line it saw. That is why evicted lines
//! are counted rather than silently shifting every index down.

use crate::text;
use std::collections::VecDeque;
use vstd::prelude::*;

verus! {

/// Lines retained before the oldest quarter is evicted.
pub const MAX_LOG_LINES: usize = 2_000;

/// What a ring holds, as mathematics: the number of lines evicted so far and
/// the lines retained, oldest first.
#[verifier::ext_equal]
pub struct RingView {
    pub dropped: nat,
    pub lines: Seq<Seq<char>>,
}

impl RingView {
    /// The ring nothing was pushed to.
    pub open spec fn empty() -> RingView {
        RingView { dropped: 0, lines: Seq::empty() }
    }

    /// Lines ever pushed, evicted ones included.
    pub open spec fn total(self) -> nat {
        self.dropped + self.lines.len()
    }

    /// What every ring satisfies: at most `MAX_LOG_LINES` lines are held,
    /// eviction took whole quarters, and a ring that ever evicted still holds
    /// more than three quarters of its capacity.
    pub open spec fn wf(self) -> bool {
        &&& self.lines.len() <= MAX_LOG_LINES
        &&& self.dropped % (MAX_LOG_LINES as nat / 4) == 0
        &&& self.dropped > 0 ==> self.lines.len() > MAX_LOG_LINES - MAX_LOG_LINES / 4
    }

    /// The ring after making room: a full ring loses its oldest quarter.
    pub open spec fn with_room(self) -> RingView {
        if self.lines.len() >= MAX_LOG_LINES {
            RingView {
                dropped: self.dropped + MAX_LOG_LINES as nat / 4,
                lines: self.lines.skip(MAX_LOG_LINES as int / 4),
            }
        } else {
            self
        }
    }

    /// The ring after one more line.
    pub open spec fn pushed(self, line: Seq<char>) -> RingView {
        let roomy = self.with_room();
        RingView { dropped: roomy.dropped, lines: roomy.lines.push(line) }
    }

    /// The position among the retained lines at which absolute index `from`
    /// starts reading: evicted indices start at the oldest retained line, and
    /// indices past the end read nothing.
    pub open spec fn start_of(self, from: nat) -> int {
        if from <= self.dropped {
            0
        } else if from >= self.total() {
            self.lines.len() as int
        } else {
            from - self.dropped
        }
    }

    /// The text a reader at absolute index `from` gets.
    pub open spec fn since(self, from: nat) -> Seq<char> {
        text::joined(self.lines.skip(self.start_of(from)), '\n')
    }

    /// The line at absolute index `i`, where it is retained.
    pub open spec fn line_at(self, i: nat) -> Option<Seq<char>> {
        if self.dropped <= i < self.total() {
            Some(self.lines[i - self.dropped])
        } else {
            None
        }
    }

    /// The ring after pushing each line of `history` in turn.
    pub open spec fn pushed_all(self, history: Seq<Seq<char>>) -> RingView
        decreases history.len(),
    {
        if history.len() == 0 {
            self
        } else {
            self.pushed_all(history.drop_last()).pushed(history.last())
        }
    }
}

pub struct LogRing {
    lines: VecDeque<String>,
    /// Lines evicted from the front, so indices stay absolute across a wrap.
    dropped: u64,
}

impl View for LogRing {
    type V = RingView;

    closed spec fn view(&self) -> RingView {
        RingView {
            dropped: self.dropped as nat,
            lines: self.lines@.map_values(|line: String| line@),
        }
    }
}

impl LogRing {
    /// What every ring satisfies, with a count that fits the integers it is kept in.
    pub open spec fn wf(&self) -> bool {
        &&& self@.wf()
        &&& self@.total() <= u64::MAX
    }

    pub fn new() -> (ring: LogRing)
        ensures
            ring.wf(),
            ring@ == RingView::empty(),
            ring@.dropped == 0,
            ring@.lines.len() == 0,
    {
        let ring = LogRing { lines: VecDeque::new(), dropped: 0 };
        assert(ring@.lines =~= Seq::empty());
        proof {
            vstd::arithmetic::div_mod::lemma_small_mod(0, MAX_LOG_LINES as nat / 4);
        }
        ring
    }

    /// Append a line, evicting the oldest quarter once the cap is reached.
    pub fn push(&mut self, line: String)
        requires
            old(self).wf(),
            old(self)@.total() < u64::MAX,
        ensures
            final(self).wf(),
            final(self)@ == old(self)@.pushed(line@),
            final(self)@.lines.last() == line@,
            final(self)@.dropped + final(self)@.lines.len() == old(self)@.dropped + old(
                self,
            )@.lines.len() + 1,
            old(self)@.lines.len() < MAX_LOG_LINES ==> final(self)@.lines.drop_last() == old(
                self,
            )@.lines,
            old(self)@.lines.len() >= MAX_LOG_LINES ==> final(self)@.lines.drop_last() == old(
                self,
            )@.lines.skip(MAX_LOG_LINES as int / 4),
    {
        if self.lines.len() >= MAX_LOG_LINES {
            let remove: usize = MAX_LOG_LINES / 4;
            let kept = self.lines.split_off(remove);
            self.lines = kept;
            self.dropped += remove as u64;
        }
        assert(self@.lines =~= old(self)@.with_room().lines);
        let ghost roomy = self@;
        self.lines.push_back(line);
        assert(self@.lines =~= roomy.lines.push(line@));
        proof {
            old(self)@.law_push_keeps_ring_well_formed(line@);
            old(self)@.law_push_appends(line@);
        }
    }

    /// Total lines ever buffered, evicted ones included.
    ///
    /// Never decreases: the caller stores this as its next cursor, so a value
    /// that went backwards after an eviction would make it re-read old lines
    /// or, once the count lagged its cursor, silently receive nothing.
    pub fn total(&self) -> (count: u64)
        requires
            self.wf(),
        ensures
            count == self@.total(),
            count == self@.dropped + self@.lines.len(),
    {
        self.dropped + self.lines.len() as u64
    }

    /// Lines from absolute index `from` onward, joined by `\n`.
    ///
    /// A cursor pointing at evicted lines yields the oldest retained line
    /// rather than an error: those lines are simply gone.
    pub fn since(&self, from: u64) -> (text: String)
        requires
            self.wf(),
        ensures
            text@ == self@.since(from as nat),
            from <= self@.dropped ==> text@ == text::joined(self@.lines, '\n'),
            self@.dropped <= from <= self@.total() ==> text@ == text::joined(
                self@.lines.skip(from - self@.dropped),
                '\n',
            ),
            from >= self@.total() ==> text@.len() == 0,
    {
        proof {
            self@.law_cursor_reads_the_lines_from_it_on(from as nat);
        }
        let len: usize = self.lines.len();
        let offset: u64 = from.saturating_sub(self.dropped);
        let start: usize = if offset < len as u64 {
            offset as usize
        } else {
            len
        };
        let ghost wanted = self@.lines.skip(start as int);
        let mut out = String::new();
        let mut i: usize = start;
        while i < len
            invariant
                start <= i <= len,
                len == self.lines@.len(),
                len == self@.lines.len(),
                wanted == self@.lines.skip(start as int),
                out@ == text::joined(wanted.take(i - start), '\n'),
            decreases len - i,
        {
            if i > start {
                out.append("\n");
            }
            out.append(self.lines[i].as_str());
            proof {
                reveal_strlit("\n");
                assert("\n"@ =~= seq!['\n']);
                let next = wanted.take(i + 1 - start);
                assert(next.drop_last() =~= wanted.take(i - start));
                assert(next.last() == self@.lines[i as int]);
                assert(out@ =~= text::joined(next, '\n'));
            }
            i += 1;
        }
        assert(wanted.take(len - start) =~= wanted);
        out
    }
}

impl RingView {
    /// A push leaves a well-formed ring well-formed: the number of lines held
    /// never exceeds the cap, and what was evicted is a whole number of quarters.
    pub proof fn law_push_keeps_ring_well_formed(self, line: Seq<char>)
        requires
            self.wf(),
        ensures
            self.pushed(line).wf(),
    {
        vstd::arithmetic::div_mod::lemma_mod_add_multiples_vanish(
            self.dropped as int,
            MAX_LOG_LINES as int / 4,
        );
    }

    /// A push puts the line last, keeps the lines before it in order, and takes
    /// nothing away but the oldest quarter of a full ring, which is counted.
    pub proof fn law_push_appends(self, line: Seq<char>)
        ensures
            self.pushed(line).lines.len() > 0,
            self.pushed(line).lines.last() == line,
            self.lines.len() < MAX_LOG_LINES ==> {
                &&& self.pushed(line).lines.drop_last() == self.lines
                &&& self.pushed(line).dropped == self.dropped
            },
            self.lines.len() >= MAX_LOG_LINES ==> {
                &&& self.pushed(line).lines.drop_last() == self.lines.skip(
                    MAX_LOG_LINES as int / 4,
                )
                &&& self.pushed(line).dropped == self.dropped + MAX_LOG_LINES / 4
            },
    {
        let after = self.pushed(line);
        assert(after.lines.drop_last() =~= self.with_room().lines);
    }

    /// Every push raises the total, which is the evicted and the retained lines
    /// together, by exactly one, whether or not it evicts.
    pub proof fn law_total_counts_every_push(self, line: Seq<char>)
        ensures
            self.total() == self.dropped + self.lines.len(),
            self.pushed(line).total() == self.total() + 1,
    {
    }

    /// A reader that stored the total as its cursor gets exactly the line
    /// pushed next, even when that push evicts.
    pub proof fn law_held_cursor_gets_next_line(self, line: Seq<char>)
        ensures
            self.pushed(line).since(self.total()) == line,
    {
        let after = self.pushed(line);
        let tail = after.lines.skip(after.start_of(self.total()));
        assert(tail =~= seq![line]);
        assert(tail.drop_last() =~= Seq::empty());
        assert(after.since(self.total()) =~= line);
    }

    /// A cursor at or past the end reads nothing.
    pub proof fn law_cursor_past_the_end_reads_nothing(self, from: nat)
        requires
            from >= self.total(),
        ensures
            self.since(from) == Seq::<char>::empty(),
    {
        assert(self.lines.skip(self.lines.len() as int) =~= Seq::empty());
        assert(self.start_of(from) == self.lines.len());
    }

    /// A cursor reads the retained lines from it on, joined by newlines: all of
    /// them where it points at evicted lines, and none where it is at the end.
    pub proof fn law_cursor_reads_the_lines_from_it_on(self, from: nat)
        ensures
            from <= self.dropped ==> self.since(from) == text::joined(self.lines, '\n'),
            self.dropped <= from <= self.dropped + self.lines.len() ==> self.since(from)
                == text::joined(self.lines.skip(from - self.dropped), '\n'),
            from >= self.dropped + self.lines.len() ==> self.since(from).len() == 0,
    {
        assert(self.lines.skip(0) =~= self.lines);
        if from >= self.total() {
            self.law_cursor_past_the_end_reads_nothing(from);
        }
    }

    /// A cursor pointing at evicted lines reads every retained line.
    pub proof fn law_evicted_cursor_reads_all_retained(self, from: nat)
        requires
            from <= self.dropped,
        ensures
            self.since(from) == text::joined(self.lines, '\n'),
    {
        assert(self.lines.skip(0) =~= self.lines);
    }

    /// An absolute index names the same line for as long as that line is
    /// retained; a push loses exactly the oldest quarter of a full ring, and
    /// nothing of any other.
    pub proof fn law_indices_stay_absolute(self, line: Seq<char>, i: nat)
        ensures
            self.pushed(line).line_at(self.total()) == Some(line),
            self.lines.len() < MAX_LOG_LINES && i < self.total() ==> self.pushed(line).line_at(i)
                == self.line_at(i),
            self.lines.len() >= MAX_LOG_LINES && i < self.dropped + MAX_LOG_LINES / 4
                ==> self.pushed(line).line_at(i) is None,
            self.lines.len() >= MAX_LOG_LINES && self.dropped + MAX_LOG_LINES / 4 <= i
                < self.total() ==> self.pushed(line).line_at(i) == self.line_at(i),
    {
    }

    /// Reading from `a` gives the lines before `b`, one separator, and what a
    /// reader at `b` gets: reading on from a later cursor neither repeats nor
    /// skips a line.
    pub proof fn law_reads_continue(self, a: nat, b: nat)
        requires
            self.dropped <= a < b < self.total(),
        ensures
            self.since(a) == text::joined(
                self.lines.subrange(a - self.dropped, b - self.dropped),
                '\n',
            ).push('\n') + self.since(b),
    {
        let first = self.lines.subrange(a - self.dropped, b - self.dropped);
        let second = self.lines.skip(b - self.dropped);
        assert(self.lines.skip(a - self.dropped) =~= first + second);
        text::law_joined_splits(first, second, '\n');
    }

    /// What a reader gets ends in the newest line itself: no newline follows it.
    pub proof fn law_no_trailing_newline(self, from: nat)
        requires
            self.wf(),
            from < self.total(),
        ensures
            self.lines.last().is_suffix_of(self.since(from)),
    {
        let tail = self.lines.skip(self.start_of(from));
        assert(tail.last() == self.lines.last());
        let lead = if tail.len() == 1 {
            Seq::<char>::empty()
        } else {
            text::joined(tail.drop_last(), '\n').push('\n')
        };
        assert(self.since(from) == lead + tail.last());
        assert(self.since(from).skip(lead.len() as int) =~= tail.last());
    }

    /// Pushing a run of lines keeps the ring well-formed and leaves it holding
    /// a suffix of its earlier lines followed by the run, with every line counted.
    pub proof fn law_ring_holds_latest_lines(self, history: Seq<Seq<char>>)
        requires
            self.wf(),
        ensures
            self.pushed_all(history).wf(),
            self.pushed_all(history).total() == self.total() + history.len(),
            self.pushed_all(history).dropped >= self.dropped,
            self.pushed_all(history).lines == (self.lines + history).skip(
                self.pushed_all(history).dropped - self.dropped,
            ),
        decreases history.len(),
    {
        let all = self.lines + history;
        if history.len() == 0 {
            assert(all.skip(0) =~= self.lines);
        } else {
            let before = history.drop_last();
            self.law_ring_holds_latest_lines(before);
            let mid = self.pushed_all(before);
            mid.law_push_keeps_ring_well_formed(history.last());
            assert(all =~= (self.lines + before).push(history.last()));
            let after = self.pushed_all(history);
            assert(after.lines =~= all.skip(after.dropped - self.dropped));
        }
    }

    /// A reader that polls before more than three quarters of the capacity and
    /// one line have been pushed since its cursor gets exactly the lines pushed
    /// in between, each of them once and in order.
    pub proof fn law_polling_reader_misses_nothing(self, fresh: Seq<Seq<char>>)
        requires
            self.wf(),
            fresh.len() <= MAX_LOG_LINES - MAX_LOG_LINES / 4 + 1,
        ensures
            self.pushed_all(fresh).since(self.total()) == text::joined(fresh, '\n'),
    {
        self.law_ring_holds_latest_lines(fresh);
        let after = self.pushed_all(fresh);
        assert(after.lines.skip(after.start_of(self.total())) =~= fresh);
    }

    /// How many lines are gone after `count` pushes to a new ring: none up to
    /// the cap, then a quarter for each quarter begun beyond it.
    pub open spec fn evicted_after(count: nat) -> nat {
        let quarter = MAX_LOG_LINES as nat / 4;
        if count <= MAX_LOG_LINES {
            0
        } else {
            ((count - MAX_LOG_LINES + quarter - 1) as nat / quarter) * quarter
        }
    }

    /// A new ring that was pushed `history` holds that history without its
    /// first `evicted_after` lines, and index `i` names the line pushed after
    /// `i` others.
    pub proof fn law_ring_is_suffix_of_history(history: Seq<Seq<char>>)
        ensures
            RingView::empty().pushed_all(history).dropped == Self::evicted_after(history.len()),
            RingView::empty().pushed_all(history).lines == history.skip(
                Self::evicted_after(history.len()) as int,
            ),
            forall|i: nat|
                Self::evicted_after(history.len()) <= i < history.len()
                    ==> #[trigger] RingView::empty().pushed_all(history).line_at(i) == Some(
                    history[i as int],
                ),
        decreases history.len(),
    {
        let after = RingView::empty().pushed_all(history);
        vstd::arithmetic::div_mod::lemma_small_mod(0, MAX_LOG_LINES as nat / 4);
        RingView::empty().law_ring_holds_latest_lines(history);
        assert(RingView::empty().lines + history =~= history);
        assert(MAX_LOG_LINES as nat / 4 == 500);
        if history.len() > 0 {
            Self::law_ring_is_suffix_of_history(history.drop_last());
        }
    }
}

} // verus!

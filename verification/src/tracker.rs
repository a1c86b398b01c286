//! The time tracker: tasks that run, countdowns among them, and tasks that are done.

use crate::clock::{self, Date, Moment, FAR, MAX_SPAN};
use crate::text;
use vstd::prelude::*;

verus! {

/// A task: when it began, when it ended if it has, and how long it was to last if it is a countdown.
pub struct TimeEntry {
    pub activity: String,
    pub start: Moment,
    pub end: Option<Moment>,
    /// In nanoseconds.
    pub target_duration: Option<i128>,
}

/// What a task says.
#[verifier::ext_equal]
pub struct EntryView {
    pub activity: Seq<char>,
    pub start: Moment,
    pub end: Option<Moment>,
    pub target: Option<i128>,
}

impl View for TimeEntry {
    type V = EntryView;

    open spec fn view(&self) -> EntryView {
        EntryView {
            activity: self.activity@,
            start: self.start,
            end: self.end,
            target: self.target_duration,
        }
    }
}

/// The view of a list of tasks.
pub open spec fn entries_view(entries: Seq<TimeEntry>) -> Seq<EntryView> {
    Seq::new(entries.len(), |i: int| entries[i]@)
}

/// The time that a task has taken: to its end, or to `now` while it runs.
pub open spec fn elapsed(e: EntryView, now: Moment) -> int {
    match e.end {
        Some(end) => clock::instant(end) - clock::instant(e.start),
        None => clock::instant(now) - clock::instant(e.start),
    }
}

/// The time that is left of a countdown.
pub open spec fn remaining(e: EntryView, now: Moment) -> Option<int> {
    match e.target {
        Some(target) => Some(target - elapsed(e, now)),
        None => None,
    }
}

/// Whether the time that is left of a countdown is a span.
pub open spec fn counts(e: EntryView, now: Moment) -> bool {
    remaining(e, now) matches Some(left) ==> clock::span_fits(left)
}

/// Whether a countdown is over. What is no countdown never is.
pub open spec fn is_over(e: EntryView, now: Moment) -> bool {
    remaining(e, now) matches Some(left) && clock::seconds(left) <= 0
}

/// A span in hours, minutes and seconds.
pub open spec fn span_text(nanos: int) -> Seq<char> {
    text::number(clock::hours(nanos)) + "h "@ + text::number(
        clock::left_over(clock::minutes(nanos), 60),
    ) + ("m "@ + text::number(clock::left_over(clock::seconds(nanos), 60)) + "s"@)
}

/// The text of a countdown: what is left of it; of another task: what it has taken.
pub open spec fn countdown_text(e: EntryView, now: Moment) -> Seq<char> {
    match remaining(e, now) {
        Some(left) => if clock::seconds(left) <= 0 {
            "DONE!"@
        } else {
            span_text(left)
        },
        None => span_text(elapsed(e, now)),
    }
}

/// Writes a span in hours, minutes and seconds.
pub fn format_span(nanos: i128) -> (r: String)
    requires
        -FAR < nanos < FAR,
    ensures
        r@ == span_text(nanos as int),
{
    let minutes: i128 = clock::num_minutes(nanos);
    let seconds: i128 = clock::num_seconds(nanos);
    let hours: String = text::number_text(clock::num_hours(nanos));
    let head: String = text::join4(
        hours.as_str(),
        "h ",
        text::number_text(clock::remainder(minutes, 60)).as_str(),
        text::join3("m ", text::number_text(clock::remainder(seconds, 60)).as_str(), "s").as_str(),
    );
    head
}

impl TimeEntry {
    /// The time that the task has taken, in nanoseconds.
    pub fn duration(&self, now: &Moment) -> (r: i128)
        ensures
            r == elapsed(self@, *now),
            -FAR < r < FAR,
    {
        match &self.end {
            Some(end) => clock::span_between(&self.start, end),
            None => clock::span_between(&self.start, now),
        }
    }

    /// The time that the task has taken, as text.
    pub fn format_duration(&self, now: &Moment) -> (r: String)
        ensures
            r@ == span_text(elapsed(self@, *now)),
    {
        format_span(self.duration(now))
    }

    /// Whether the task is a countdown.
    pub fn is_countdown(&self) -> (r: bool)
        ensures
            r == (self@.target is Some),
    {
        self.target_duration.is_some()
    }

    /// Whether the time that is left can be reckoned.
    pub fn can_count(&self, now: &Moment) -> (r: bool)
        ensures
            r == counts(self@, *now),
    {
        match self.target_duration {
            Some(target) => {
                let taken: i128 = self.duration(now);
                taken - MAX_SPAN <= target && target <= taken + MAX_SPAN
            },
            None => true,
        }
    }

    /// The time that is left of a countdown, in nanoseconds.
    pub fn remainig_duration(&self, now: &Moment) -> (r: Option<i128>)
        requires
            counts(self@, *now),
        ensures
            match r {
                Some(left) => remaining(self@, *now) == Some(left as int) && clock::span_fits(
                    left as int,
                ),
                None => remaining(self@, *now) is None,
            },
    {
        match self.target_duration {
            Some(target) => {
                let taken: i128 = self.duration(now);
                Some(target - taken)
            },
            None => None,
        }
    }

    /// Whether the task is a countdown that is over.
    pub fn is_countdown_complete(&self, now: &Moment) -> (r: bool)
        requires
            counts(self@, *now),
        ensures
            r == is_over(self@, *now),
    {
        match self.remainig_duration(now) {
            Some(left) => clock::num_seconds(left) <= 0,
            None => false,
        }
    }

    /// The time that is left of a countdown, as text; of another task, what it has taken.
    pub fn format_countdown(&self, now: &Moment) -> (r: String)
        requires
            counts(self@, *now),
        ensures
            r@ == countdown_text(self@, *now),
    {
        match self.remainig_duration(now) {
            Some(left) => {
                if clock::num_seconds(left) <= 0 {
                    "DONE!".to_owned()
                } else {
                    format_span(left)
                }
            },
            None => self.format_duration(now),
        }
    }
}

/// What the tracker holds.
#[verifier::ext_equal]
pub struct TrackerView {
    /// The tasks that are done, in the order in which they ended.
    pub entries: Seq<EntryView>,
    /// The tasks that run, in the order in which they began.
    pub active: Seq<EntryView>,
}

/// Whether a task of this name runs.
pub open spec fn runs(t: TrackerView, name: Seq<char>) -> bool {
    exists|i: int| 0 <= i < t.active.len() && (#[trigger] t.active[i]).activity == name
}

/// The tracker after a task was to begin.
pub open spec fn after_start(
    t: TrackerView,
    name: Seq<char>,
    now: Moment,
    target: Option<i128>,
) -> TrackerView {
    if runs(t, name) {
        t
    } else {
        TrackerView {
            active: t.active.push(EntryView { activity: name, start: now, end: None, target }),
            ..t
        }
    }
}

/// What is answered when a task is to begin.
pub open spec fn start_answer(t: TrackerView, name: Seq<char>) -> Result<(), Seq<char>> {
    if runs(t, name) {
        Err("Task '"@ + name + "' is already active"@)
    } else {
        Ok(())
    }
}

/// The view of what is answered when a task is to begin.
pub open spec fn start_outcome(r: Result<(), String>) -> Result<(), Seq<char>> {
    match r {
        Ok(_) => Ok(()),
        Err(e) => Err(e@),
    }
}

/// The nanoseconds of a countdown of some minutes.
pub open spec fn countdown_nanos(minutes: int) -> int {
    minutes * 60 * clock::NANOS
}

/// Whether the end of a countdown can be found.
pub open spec fn stoppable(e: EntryView) -> bool {
    e.target matches Some(target) ==> clock::reaches(e.start, target as int)
}

/// When a task ends that is stopped at `now`: a countdown not later than when it is over. By `offset`
/// the local clock is ahead then.
pub open spec fn end_moment(e: EntryView, now: Moment, offset: i32) -> Moment {
    match e.target {
        Some(target) => if clock::instant(now) > clock::instant(e.start) + target {
            clock::moment_at(clock::instant(e.start) + target, offset)
        } else {
            now
        },
        None => now,
    }
}

/// The earlier of two moments, where there are two.
pub open spec fn earlier(now: Moment, over: Option<Moment>) -> Moment {
    match over {
        Some(m) => if clock::instant(now) > clock::instant(m) {
            m
        } else {
            now
        },
        None => now,
    }
}

/// A task after it was stopped.
pub open spec fn stopped(e: EntryView, now: Moment, offset: i32) -> EntryView {
    EntryView { end: Some(end_moment(e, now, offset)), ..e }
}

/// The tracker after the task at `index` was stopped.
pub open spec fn after_stop(t: TrackerView, index: int, now: Moment, offset: i32) -> TrackerView {
    if index < t.active.len() {
        TrackerView {
            entries: t.entries.push(stopped(t.active[index], now, offset)),
            active: t.active.remove(index),
        }
    } else {
        t
    }
}

/// What is answered when the task at `index` is to be stopped or deleted: its name.
pub open spec fn name_answer(list: Seq<EntryView>, index: int) -> Result<Seq<char>, Seq<char>> {
    if index < list.len() {
        Ok(list[index].activity)
    } else {
        Err("Invalid task index"@)
    }
}

/// Tasks after they were all stopped at `now`.
pub open spec fn all_stopped(active: Seq<EntryView>, now: Moment, offsets: Seq<i32>) -> Seq<EntryView> {
    Seq::new(active.len(), |i: int| stopped(active[i], now, offsets[i]))
}

/// Whether local clocks can be ahead by these seconds.
pub open spec fn offsets_fit(offsets: Seq<i32>) -> bool {
    forall|i: int| 0 <= i < offsets.len() ==> clock::offset_fits(#[trigger] offsets[i])
}

/// The tracker after all tasks were stopped.
pub open spec fn after_stop_all(t: TrackerView, now: Moment, offsets: Seq<i32>) -> TrackerView {
    TrackerView { entries: t.entries + all_stopped(t.active, now, offsets), active: Seq::empty() }
}

/// Whether the ends of all running countdowns can be found.
pub open spec fn all_stoppable(t: TrackerView) -> bool {
    forall|i: int| 0 <= i < t.active.len() ==> stoppable(#[trigger] t.active[i])
}

/// The tracker after the task at `index` was deleted.
pub open spec fn after_delete(t: TrackerView, index: int) -> TrackerView {
    if index < t.entries.len() {
        TrackerView { entries: t.entries.remove(index), ..t }
    } else {
        t
    }
}

/// Whether a task ended on one of the days from `first` to `last`, which are day numbers.
pub open spec fn ended_between(e: EntryView, first: int, last: int) -> bool {
    e.end matches Some(end) && first <= clock::local_secs(end) / clock::DAY as int <= last
}

/// The tasks that ended on one of the days from `first` to `last`, in order.
pub open spec fn ending_between(entries: Seq<EntryView>, first: int, last: int) -> Seq<EntryView>
    decreases entries.len(),
{
    if entries.len() == 0 {
        Seq::empty()
    } else {
        let rest = ending_between(entries.drop_last(), first, last);
        if ended_between(entries.last(), first, last) {
            rest.push(entries.last())
        } else {
            rest
        }
    }
}

/// Whether every end lies on the calendar.
pub open spec fn ends_dated(entries: Seq<EntryView>) -> bool {
    forall|i: int|
        0 <= i < entries.len() ==> ((#[trigger] entries[i]).end matches Some(end) ==> clock::dated(
            end,
        ))
}

/// The time that ended tasks have taken together.
pub open spec fn total(entries: Seq<EntryView>, now: Moment) -> int
    decreases entries.len(),
{
    if entries.len() == 0 {
        0
    } else {
        total(entries.drop_last(), now) + elapsed(entries.last(), now)
    }
}

/// Whether the time that tasks have taken together stays a span as they are added up.
pub open spec fn adds_up(entries: Seq<EntryView>, now: Moment) -> bool
    decreases entries.len(),
{
    entries.len() == 0 || adds_up(entries.drop_last(), now) && clock::span_fits(
        total(entries, now),
    )
}

/// The time tracker.
pub struct TimeTracker {
    pub entries: Vec<TimeEntry>,
    pub active_entries: Vec<TimeEntry>,
}

impl View for TimeTracker {
    type V = TrackerView;

    open spec fn view(&self) -> TrackerView {
        TrackerView {
            entries: entries_view(self.entries@),
            active: entries_view(self.active_entries@),
        }
    }
}

/// The earlier of two moments, where there are two.
fn pick_end(now: &Moment, over: Option<Moment>) -> (r: Moment)
    ensures
        r == earlier(*now, over),
{
    match over {
        Some(m) => {
            if clock::instant_of(now) > clock::instant_of(&m) {
                m
            } else {
                *now
            }
        },
        None => *now,
    }
}

impl TimeTracker {
    /// A tracker without tasks.
    pub fn new() -> (r: Self)
        ensures
            r@ == (TrackerView { entries: Seq::empty(), active: Seq::empty() }),
    {
        let r: TimeTracker = TimeTracker { entries: Vec::new(), active_entries: Vec::new() };
        assert(r@.entries =~= Seq::<EntryView>::empty());
        assert(r@.active =~= Seq::<EntryView>::empty());
        r
    }

    /// Whether a task of this name runs.
    pub fn is_active(&self, name: &str) -> (r: bool)
        ensures
            r == runs(self@, name@),
    {
        let n: usize = self.active_entries.len();
        for i in 0..n
            invariant
                n == self.active_entries@.len(),
                forall|j: int| 0 <= j < i ==> (#[trigger] self@.active[j]).activity != name@,
        {
            if text::same(self.active_entries[i].activity.as_str(), name) {
                assert(self@.active[i as int].activity == name@);
                return true;
            }
            assert(self@.active[i as int].activity != name@);
        }
        false
    }

    /// Begins a task, as a countdown if there is a target.
    fn begin(&mut self, name: &str, now: &Moment, target_duration: Option<i128>) -> (r: Result<
        (),
        String,
    >)
        ensures
            start_outcome(r) == start_answer(old(self)@, name@),
            final(self)@ == after_start(old(self)@, name@, *now, target_duration),
    {
        if self.is_active(name) {
            return Err(text::join3("Task '", name, "' is already active"));
        }
        let ghost before = self.active_entries@;
        let entry: TimeEntry = TimeEntry {
            activity: name.to_owned(),
            start: *now,
            end: None,
            target_duration,
        };
        let ghost e = entry@;
        self.active_entries.push(entry);
        assert(entries_view(self.active_entries@) =~= entries_view(before).push(e));
        Ok(())
    }

    /// Begins a task, unless one of the same name runs.
    pub fn start(&mut self, name: &str, now: &Moment) -> (r: Result<(), String>)
        ensures
            start_outcome(r) == start_answer(old(self)@, name@),
            final(self)@ == after_start(old(self)@, name@, *now, None),
    {
        self.begin(name, now, None)
    }

    /// Begins a countdown of some minutes, unless a task of the same name runs.
    pub fn start_countdown(&mut self, name: &str, minutes: i64, now: &Moment) -> (r: Result<
        (),
        String,
    >)
        requires
            !runs(old(self)@, name@) ==> clock::span_fits(countdown_nanos(minutes as int)),
        ensures
            start_outcome(r) == start_answer(old(self)@, name@),
            final(self)@ == after_start(
                old(self)@,
                name@,
                *now,
                Some(countdown_nanos(minutes as int) as i128),
            ),
    {
        self.begin(name, now, Some(minutes as i128 * 60 * clock::NANOS))
    }

    /// The moment at which a countdown is over; nothing for another task.
    fn over_at(entry: &TimeEntry) -> (r: Option<Moment>)
        requires
            stoppable(entry@),
        ensures
            match entry@.target {
                Some(target) => r is Some && r->Some_0 == clock::moment_at(
                    clock::instant(entry@.start) + target,
                    r->Some_0.offset,
                ) && clock::offset_fits(r->Some_0.offset) && clock::instant(r->Some_0) == clock::instant(entry@.start) + target,
                None => r is None,
            },
    {
        match entry.target_duration {
            Some(target) => Some(clock::later(&entry.start, target)),
            None => None,
        }
    }

    /// Whether the task at `index` can be stopped.
    pub fn can_stop(&self, index: usize) -> (r: bool)
        requires
            index < self@.active.len(),
        ensures
            r == stoppable(self@.active[index as int]),
    {
        assert(self@.active[index as int] == self.active_entries@[index as int]@);
        let entry: &TimeEntry = &self.active_entries[index];
        match entry.target_duration {
            Some(target) => clock::can_reach(&entry.start, target),
            None => true,
        }
    }

    /// Whether all tasks can be stopped.
    pub fn can_stop_all(&self) -> (r: bool)
        ensures
            r == all_stoppable(self@),
    {
        let n: usize = self.active_entries.len();
        for i in 0..n
            invariant
                n == self.active_entries@.len(),
                forall|j: int| 0 <= j < i ==> stoppable(#[trigger] self@.active[j]),
        {
            if !self.can_stop(i) {
                return false;
            }
        }
        true
    }

    /// Stops the task at `index`. A countdown that is over ends when it was over.
    pub fn stop(&mut self, index: usize, now: &Moment) -> (r: Result<String, String>)
        requires
            index < old(self)@.active.len() ==> stoppable(old(self)@.active[index as int]),
        ensures
            text::outcome(r) == name_answer(old(self)@.active, index as int),
            exists|offset: i32|
                clock::offset_fits(offset) && final(self)@ == #[trigger] after_stop(
                    old(self)@,
                    index as int,
                    *now,
                    offset,
                ),
    {
        let ghost mut offset: i32 = 0;
        let over: Option<Moment> = if index < self.active_entries.len() {
            assert(self@.active[index as int] == self.active_entries@[index as int]@);
            Self::over_at(&self.active_entries[index])
        } else {
            None
        };
        proof {
            if over is Some {
                offset = over->Some_0.offset;
            }
        }
        let r: Result<String, String> = self.stop_given(index, now, over);
        assert(self@ == after_stop(old(self)@, index as int, *now, offset));
        r
    }

    /// Stops the task at `index`, which ends at `now`, or at `over` if that is earlier.
    pub fn stop_given(&mut self, index: usize, now: &Moment, over: Option<Moment>) -> (r: Result<
        String,
        String,
    >)
        ensures
            text::outcome(r) == name_answer(old(self)@.active, index as int),
            final(self)@ == if index < old(self)@.active.len() {
                TrackerView {
                    entries: old(self)@.entries.push(
                        EntryView {
                            end: Some(earlier(*now, over)),
                            ..old(self)@.active[index as int]
                        },
                    ),
                    active: old(self)@.active.remove(index as int),
                }
            } else {
                old(self)@
            },
    {
        if index >= self.active_entries.len() {
            return Err("Invalid task index".to_owned());
        }
        let name: String = self.active_entries[index].activity.clone();
        assert(self@.active[index as int] == self.active_entries@[index as int]@);
        self.finish(index, pick_end(now, over));
        Ok(name)
    }

    /// Moves the task at `index` to those that are done, with this end.
    fn finish(&mut self, index: usize, end: Moment)
        requires
            index < old(self)@.active.len(),
        ensures
            final(self)@.entries == old(self)@.entries.push(
                EntryView { end: Some(end), ..old(self)@.active[index as int] },
            ),
            final(self)@.active == old(self)@.active.remove(index as int),
    {
        let ghost active = self.active_entries@;
        let ghost entries = self.entries@;
        let mut entry: TimeEntry = self.active_entries.remove(index);
        entry.end = Some(end);
        let ghost e = entry@;
        self.entries.push(entry);
        assert(entries_view(self.entries@) =~= entries_view(entries).push(e));
        assert(entries_view(self.active_entries@) =~= entries_view(active).remove(index as int));
    }

    /// Stops all tasks. Returns how many there were.
    pub fn stop_all(&mut self, now: &Moment) -> (r: usize)
        requires
            all_stoppable(old(self)@),
        ensures
            r == old(self)@.active.len(),
            exists|offsets: Seq<i32>|
                offsets.len() == old(self)@.active.len() && offsets_fit(offsets) && final(self)@
                    == #[trigger] after_stop_all(old(self)@, *now, offsets),
    {
        let count: usize = self.active_entries.len();
        let ghost active = self@.active;
        let ghost entries = self@.entries;
        let ghost mut offsets: Seq<i32> = Seq::empty();
        assert(active.skip(0) =~= active);
        for i in 0..count
            invariant
                count == active.len(),
                active == old(self)@.active,
                entries == old(self)@.entries,
                all_stoppable(old(self)@),
                offsets.len() == i,
                offsets_fit(offsets),
                self@.active == active.skip(i as int),
                self@.entries == entries + all_stopped(active.take(i as int), *now, offsets),
        {
            assert(self@.active.len() == self.active_entries@.len());
            assert(self@.active[0] == active[i as int]);
            assert(self@.active[0] == self.active_entries@[0]@);
            let over: Option<Moment> = Self::over_at(&self.active_entries[0]);
            let ghost offset: i32 = if over is Some {
                over->Some_0.offset
            } else {
                0
            };
            self.finish(0, pick_end(now, over));
            proof {
                let more = offsets.push(offset);
                assert(all_stopped(active.take(i + 1), *now, more) =~= all_stopped(
                    active.take(i as int),
                    *now,
                    offsets,
                ).push(stopped(active[i as int], *now, offset)));
                offsets = more;
                assert(self@.active =~= active.skip(i + 1));
                assert(self@.entries =~= entries + all_stopped(
                    active.take(i + 1),
                    *now,
                    offsets,
                ));
            }
        }
        proof {
            assert(active.take(count as int) =~= active);
            assert(active.skip(count as int) =~= Seq::<EntryView>::empty());
            assert(self@ == after_stop_all(old(self)@, *now, offsets));
        }
        count
    }

    /// Deletes the finished task at `index`.
    pub fn delete_task(&mut self, index: usize) -> (r: Result<String, String>)
        ensures
            text::outcome(r) == name_answer(old(self)@.entries, index as int),
            final(self)@ == after_delete(old(self)@, index as int),
    {
        if index >= self.entries.len() {
            return Err("Invalid task index".to_owned());
        }
        let ghost entries = self.entries@;
        let entry: TimeEntry = self.entries.remove(index);
        assert(entries_view(self.entries@) =~= entries_view(entries).remove(index as int));
        Ok(entry.activity)
    }

    /// Deletes all finished tasks. Returns how many there were.
    pub fn delete_all(&mut self) -> (r: usize)
        ensures
            r == old(self)@.entries.len(),
            final(self)@ == (TrackerView { entries: Seq::empty(), ..old(self)@ }),
    {
        let count: usize = self.entries.len();
        self.entries = Vec::new();
        assert(entries_view(self.entries@) =~= Seq::<EntryView>::empty());
        count
    }

    /// Whether every finished task ended on a day of the calendar.
    pub fn can_date(&self) -> (r: bool)
        ensures
            r == ends_dated(self@.entries),
    {
        let n: usize = self.entries.len();
        for i in 0..n
            invariant
                n == self.entries@.len(),
                forall|j: int|
                    0 <= j < i ==> ((#[trigger] self@.entries[j]).end matches Some(end)
                        ==> clock::dated(end)),
        {
            assert(self@.entries[i as int] == self.entries@[i as int]@);
            if let Some(end) = &self.entries[i].end {
                if clock::date_of(end).is_none() {
                    return false;
                }
            }
        }
        true
    }

    /// Whether a finished task ended on one of the days from `first` to `last`.
    fn ended_in(entry: &TimeEntry, first: &Date, last: &Date) -> (r: bool)
        requires
            entry@.end matches Some(end) ==> clock::dated(end),
        ensures
            r == ended_between(entry@, clock::day_number(first@), clock::day_number(last@)),
    {
        match &entry.end {
            Some(end) => match clock::date_of(end) {
                Some(date) => {
                    let begun: bool = first.until(&date);
                    let over: bool = !date.until(last);
                    proof {
                        clock::law_day_numbers_order_dates(date@, first@);
                        clock::law_day_numbers_order_dates(last@, date@);
                    }
                    begun && !over
                },
                None => false,
            },
            None => false,
        }
    }

    /// The tasks that ended on one of the days from `start` to `end`.
    pub fn task_in_range(&self, start: &Date, end: &Date) -> (r: Vec<&TimeEntry>)
        requires
            ends_dated(self@.entries),
        ensures
            refs_view(r@) == ending_between(
                self@.entries,
                clock::day_number(start@),
                clock::day_number(end@),
            ),
    {
        let ghost first = clock::day_number(start@);
        let ghost last = clock::day_number(end@);
        let mut found: Vec<&TimeEntry> = Vec::new();
        let n: usize = self.entries.len();
        assert(self@.entries.take(0) =~= Seq::<EntryView>::empty());
        assert(refs_view(found@) =~= Seq::<EntryView>::empty());
        for i in 0..n
            invariant
                n == self.entries@.len(),
                ends_dated(self@.entries),
                first == clock::day_number(start@),
                last == clock::day_number(end@),
                refs_view(found@) == ending_between(self@.entries.take(i as int), first, last),
        {
            let entry: &TimeEntry = &self.entries[i];
            proof {
                assert(self@.entries[i as int] == entry@);
                assert(self@.entries.take(i + 1).drop_last() =~= self@.entries.take(i as int));
                assert(self@.entries.take(i + 1).last() == entry@);
            }
            if Self::ended_in(entry, start, end) {
                let ghost before = found@;
                found.push(entry);
                assert(refs_view(found@) =~= refs_view(before).push(entry@));
            }
        }
        assert(self@.entries.take(n as int) =~= self@.entries);
        found
    }

    /// How many tasks ended on a day.
    pub fn task_on_date(&self, date: &Date) -> (r: usize)
        requires
            ends_dated(self@.entries),
        ensures
            r == ending_between(
                self@.entries,
                clock::day_number(date@),
                clock::day_number(date@),
            ).len(),
    {
        let found: Vec<&TimeEntry> = self.task_in_range(date, date);
        assert(refs_view(found@).len() == found@.len());
        found.len()
    }

    /// Whether the time that the tasks of some days have taken together can be reckoned.
    pub fn can_total(&self, start: &Date, end: &Date, now: &Moment) -> (r: bool)
        requires
            ends_dated(self@.entries),
        ensures
            r == adds_up(
                ending_between(
                    self@.entries,
                    clock::day_number(start@),
                    clock::day_number(end@),
                ),
                *now,
            ),
    {
        checked_total(&self.task_in_range(start, end), now).is_some()
    }

    /// The time that the tasks of some days have taken together, in nanoseconds.
    pub fn duration_in_range(&self, start: &Date, end: &Date, now: &Moment) -> (r: i128)
        requires
            ends_dated(self@.entries),
            adds_up(
                ending_between(
                    self@.entries,
                    clock::day_number(start@),
                    clock::day_number(end@),
                ),
                *now,
            ),
        ensures
            r == total(
                ending_between(
                    self@.entries,
                    clock::day_number(start@),
                    clock::day_number(end@),
                ),
                *now,
            ),
            clock::span_fits(r as int),
    {
        match checked_total(&self.task_in_range(start, end), now) {
            Some(sum) => sum,
            None => 0,
        }
    }

    /// The time that the tasks which ended on a day have taken together, in nanoseconds.
    pub fn duration_on_date(&self, date: &Date, now: &Moment) -> (r: i128)
        requires
            ends_dated(self@.entries),
            adds_up(
                ending_between(
                    self@.entries,
                    clock::day_number(date@),
                    clock::day_number(date@),
                ),
                *now,
            ),
        ensures
            r == total(
                ending_between(
                    self@.entries,
                    clock::day_number(date@),
                    clock::day_number(date@),
                ),
                *now,
            ),
            clock::span_fits(r as int),
    {
        self.duration_in_range(date, date, now)
    }
}

/// The view of a list of tasks that are held elsewhere.
pub open spec fn refs_view(entries: Seq<&TimeEntry>) -> Seq<EntryView> {
    Seq::new(entries.len(), |i: int| entries[i]@)
}

/// Adds up the time that tasks have taken, as long as it stays a span.
fn checked_total(entries: &Vec<&TimeEntry>, now: &Moment) -> (r: Option<i128>)
    ensures
        match r {
            Some(sum) => adds_up(refs_view(entries@), *now) && sum == total(
                refs_view(entries@),
                *now,
            ) && clock::span_fits(sum as int),
            None => !adds_up(refs_view(entries@), *now),
        },
{
    let mut sum: i128 = 0;
    let ghost all = refs_view(entries@);
    let n: usize = entries.len();
    assert(all.take(0) =~= Seq::<EntryView>::empty());
    for i in 0..n
        invariant
            n == entries@.len(),
            all == refs_view(entries@),
            sum == total(all.take(i as int), *now),
            clock::span_fits(sum as int),
            adds_up(all.take(i as int), *now),
    {
        proof {
            assert(all.take(i + 1).drop_last() =~= all.take(i as int));
            assert(all.take(i + 1).last() == entries@[i as int]@);
        }
        sum = sum + entries[i].duration(now);
        if sum < -MAX_SPAN || sum > MAX_SPAN {
            proof {
                if adds_up(all, *now) {
                    lemma_adds_up_before(all, i + 1, *now);
                }
            }
            return None;
        }
    }
    assert(all.take(n as int) =~= all);
    Some(sum)
}

/// What adds up adds up from the beginning on.
proof fn lemma_adds_up_before(entries: Seq<EntryView>, k: int, now: Moment)
    requires
        0 <= k <= entries.len(),
        adds_up(entries, now),
    ensures
        adds_up(entries.take(k), now),
    decreases entries.len(),
{
    if k < entries.len() {
        assert(entries.drop_last().take(k) =~= entries.take(k));
        lemma_adds_up_before(entries.drop_last(), k, now);
    } else {
        assert(entries.take(k) =~= entries);
    }
}

/// Whether no two running tasks have the same name.
pub open spec fn names_differ(t: TrackerView) -> bool {
    forall|i: int, j: int|
        0 <= i < j < t.active.len() ==> (#[trigger] t.active[i]).activity != (
        #[trigger] t.active[j]).activity
}

/// Running tasks have different names, whatever is started and stopped.
pub proof fn law_running_names_differ(
    t: TrackerView,
    name: Seq<char>,
    now: Moment,
    target: Option<i128>,
    index: int,
    offset: i32,
    offsets: Seq<i32>,
)
    requires
        names_differ(t),
        0 <= index,
    ensures
        names_differ(after_start(t, name, now, target)),
        names_differ(after_stop(t, index, now, offset)),
        names_differ(after_stop_all(t, now, offsets)),
        names_differ(after_delete(t, index)),
{
    let s = after_stop(t, index, now, offset);
    assert(names_differ(s)) by {
        assert forall|i: int, j: int| 0 <= i < j < s.active.len() implies (
        #[trigger] s.active[i]).activity != (#[trigger] s.active[j]).activity by {
            if index < t.active.len() {
                let a = if i < index { i } else { i + 1 };
                let b = if j < index { j } else { j + 1 };
                assert(s.active[i] == t.active[a]);
                assert(s.active[j] == t.active[b]);
            }
        }
    }
}

/// A task that runs cannot be started again, and starting one that does not run makes it run.
pub proof fn law_started_task_runs(t: TrackerView, name: Seq<char>, now: Moment, target: Option<i128>)
    ensures
        runs(after_start(t, name, now, target), name),
        start_answer(after_start(t, name, now, target), name) is Err,
        after_start(after_start(t, name, now, target), name, now, target) == after_start(
            t,
            name,
            now,
            target,
        ),
{
    if !runs(t, name) {
        let s = after_start(t, name, now, target);
        assert(s.active[t.active.len() as int].activity == name);
    }
}

/// No task is lost or made by stopping one: it moves from those that run to the end of those that
/// are done, under its name and with its start.
pub proof fn law_stopping_moves_one(t: TrackerView, index: int, now: Moment, offset: i32)
    requires
        0 <= index < t.active.len(),
    ensures
        after_stop(t, index, now, offset).active.len() + 1 == t.active.len(),
        after_stop(t, index, now, offset).entries.len() == t.entries.len() + 1,
        after_stop(t, index, now, offset).entries.last().activity == t.active[index].activity,
        after_stop(t, index, now, offset).entries.last().start == t.active[index].start,
        forall|i: int|
            0 <= i < t.entries.len() ==> #[trigger] after_stop(t, index, now, offset).entries[i]
                == t.entries[i],
{
}

/// No task is lost or made by stopping all.
pub proof fn law_stopping_all_keeps_all(t: TrackerView, now: Moment, offsets: Seq<i32>)
    ensures
        after_stop_all(t, now, offsets).active.len() == 0,
        after_stop_all(t, now, offsets).entries.len() == t.entries.len() + t.active.len(),
        forall|i: int|
            0 <= i < t.active.len() ==> (#[trigger] after_stop_all(t, now, offsets).entries[i
                + t.entries.len()]).activity == t.active[i].activity,
{
}

/// A stopped task has an end, which is not later than `now`, and a countdown has not taken longer
/// than it was to last.
pub proof fn law_countdown_ends_in_time(e: EntryView, now: Moment, offset: i32)
    requires
        stoppable(e),
    ensures
        stopped(e, now, offset).end is Some,
        clock::instant(stopped(e, now, offset).end->Some_0) <= clock::instant(now),
        e.target matches Some(target) ==> elapsed(stopped(e, now, offset), now) <= target,
        e.target matches Some(target) ==> clock::instant(now) <= clock::instant(e.start) + target
            ==> stopped(e, now, offset).end == Some(now),
{
}

/// A countdown that is over shows that it is done, and one that is not shows what is left.
pub proof fn law_countdown_shows_done(e: EntryView, now: Moment)
    requires
        e.target is Some,
    ensures
        is_over(e, now) ==> countdown_text(e, now) == "DONE!"@,
        !is_over(e, now) ==> countdown_text(e, now) == span_text(e.target->Some_0 - elapsed(e, now)),
{
}

/// The tasks of some days are those among the finished ones that ended on one of them.
pub proof fn law_tasks_of_days(entries: Seq<EntryView>, first: int, last: int, e: EntryView)
    ensures
        ending_between(entries, first, last).contains(e) <==> entries.contains(e) && ended_between(
            e,
            first,
            last,
        ),
    decreases entries.len(),
{
    if entries.len() > 0 {
        let rest = entries.drop_last();
        law_tasks_of_days(rest, first, last, e);
        let found = ending_between(rest, first, last);
        let l = entries.last();
        assert(entries.contains(e) <==> rest.contains(e) || e == l) by {
            if entries.contains(e) {
                let i = choose|i: int| 0 <= i < entries.len() && entries[i] == e;
                if i < rest.len() {
                    assert(rest[i] == e);
                }
            }
            if rest.contains(e) {
                let i = choose|i: int| 0 <= i < rest.len() && rest[i] == e;
                assert(entries[i] == e);
            }
            if e == l {
                assert(entries[entries.len() - 1] == e);
            }
        }
        if ended_between(l, first, last) {
            let more = found.push(l);
            assert(more.contains(e) <==> found.contains(e) || e == l) by {
                if more.contains(e) {
                    let i = choose|i: int| 0 <= i < more.len() && more[i] == e;
                    if i < found.len() {
                        assert(found[i] == e);
                    }
                }
                if found.contains(e) {
                    let i = choose|i: int| 0 <= i < found.len() && found[i] == e;
                    assert(more[i] == e);
                }
                if e == l {
                    assert(more[found.len() as int] == e);
                }
            }
        }
    }
}

/// A task that has ended has taken the time from its start to its end, and one that runs the time from
/// its start to now, whether it is a countdown or not.
pub proof fn law_tasks_take_from_start_to_end(e: EntryView, now: Moment)
    ensures
        e.end matches Some(end) ==> elapsed(e, now) == (end.secs * 1_000_000_000 + end.nanos) - (
        e.start.secs * 1_000_000_000 + e.start.nanos),
        e.end is None ==> elapsed(e, now) == (now.secs * 1_000_000_000 + now.nanos) - (e.start.secs
            * 1_000_000_000 + e.start.nanos),
{
}

/// A later moment finds a running task to have taken so much more, and a finished one to have taken
/// the same; the time that is left of a running countdown has shrunk by as much.
pub proof fn law_time_passes_for_running_tasks(e: EntryView, now: Moment, later: Moment)
    ensures
        e.end is None ==> elapsed(e, later) - elapsed(e, now) == clock::instant(later)
            - clock::instant(now),
        e.end is Some ==> elapsed(e, later) == elapsed(e, now),
        e.end is None && e.target is Some ==> remaining(e, now)->Some_0 - remaining(e, later)->Some_0
            == clock::instant(later) - clock::instant(now),
{
}

/// What is left of a countdown and what it has taken are together what it was to last. Other tasks
/// have nothing left. A countdown is over once less than a second is left.
pub proof fn law_countdowns_count_down(e: EntryView, now: Moment)
    ensures
        e.target is None ==> remaining(e, now) is None && !is_over(e, now),
        e.target matches Some(target) ==> remaining(e, now) is Some && remaining(e, now)->Some_0
            + elapsed(e, now) == target,
        e.target matches Some(target) ==> (is_over(e, now) <==> target - elapsed(e, now)
            < 1_000_000_000),
        counts(e, now) <==> (e.target matches Some(target) ==> -9_223_372_036_854_775_807_000_000
            <= target - elapsed(e, now) <= 9_223_372_036_854_775_807_000_000),
{
}

/// A span is written as its hours, the minutes that are left, and the seconds that are left.
pub proof fn law_spans_are_written_in_parts(nanos: int)
    requires
        nanos >= 0,
    ensures
        span_text(nanos) == text::number(nanos / 3_600_000_000_000) + "h "@ + text::number(
            nanos / 60_000_000_000 % 60,
        ) + ("m "@ + text::number(nanos / 1_000_000_000 % 60) + "s"@),
{
    clock::law_units_of_spans(nanos);
}

/// A running task shows the time that it has taken, and a countdown what is left of it, or that it is
/// done once less than a second is left.
pub proof fn law_running_tasks_show_their_time(e: EntryView, now: Moment)
    ensures
        e.target is None ==> countdown_text(e, now) == span_text(elapsed(e, now)),
        e.target matches Some(target) ==> countdown_text(e, now) == if target - elapsed(e, now)
            < 1_000_000_000 {
            "DONE!"@
        } else {
            span_text(target - elapsed(e, now))
        },
{
}

/// A task that is started begins now, has no end, and lasts as long as it is to; it is the last one of
/// those that run, and nothing else changes. It is refused, and nothing changes, exactly if one of
/// this name runs.
pub proof fn law_started_tasks_begin_now(
    t: TrackerView,
    name: Seq<char>,
    now: Moment,
    target: Option<i128>,
)
    ensures
        ({
            let taken = exists|i: int|
                0 <= i < t.active.len() && (#[trigger] t.active[i]).activity == name;
            let after = after_start(t, name, now, target);
            &&& after.entries == t.entries
            &&& taken ==> after.active == t.active && start_answer(t, name) == Err::<
                (),
                Seq<char>,
            >("Task '"@ + name + "' is already active"@)
            &&& !taken ==> start_answer(t, name) is Ok && after.active == t.active.push(
                EntryView { activity: name, start: now, end: None, target },
            )
        }),
{
}

/// A countdown of some minutes lasts sixty seconds for each.
pub proof fn law_minutes_of_countdowns(minutes: int)
    ensures
        countdown_nanos(minutes) == minutes * 60_000_000_000,
        minutes >= 0 ==> clock::minutes(countdown_nanos(minutes)) == minutes,
{
    clock::law_units_of_spans(countdown_nanos(minutes));
}

/// A task that is stopped keeps its name, its start and what it was to last. It ends now, but a
/// countdown that is over ends when it was over: it has taken the smaller of the time to now and
/// what it was to last.
pub proof fn law_stopped_tasks_end_now_or_when_over(e: EntryView, now: Moment, offset: i32)
    requires
        stoppable(e),
    ensures
        ({
            let s = stopped(e, now, offset);
            let past = clock::instant(now) - clock::instant(e.start);
            &&& s.activity == e.activity
            &&& s.start == e.start
            &&& s.target == e.target
            &&& s.end is Some
            &&& e.target is None ==> s.end == Some(now)
            &&& e.target matches Some(target) ==> past <= target ==> s.end == Some(now)
            &&& e.target matches Some(target) ==> past > target ==> clock::instant(s.end->Some_0)
                == clock::instant(e.start) + target && s.end->Some_0.offset == offset
            &&& forall|later: Moment|
                #[trigger] elapsed(s, later) == match e.target {
                    Some(target) => if past <= target {
                        past
                    } else {
                        target as int
                    },
                    None => past,
                }
        }),
{
    if let Some(target) = e.target {
        clock::law_moments_stand_where_they_are_put(
            clock::instant(e.start) + target,
            offset,
        );
    }
}

/// Whether the end of a task can be found is a question for countdowns alone: it has to lie on the
/// calendar.
pub proof fn law_what_can_be_stopped(e: EntryView)
    ensures
        e.target is None ==> stoppable(e),
        e.target matches Some(target) ==> (stoppable(e) <==> clock::reaches(
            e.start,
            target as int,
        )),
{
}

/// Stopping a task takes it, and no other, out of those that run, which keep their order, and puts it
/// behind those that are done. Without such a task nothing changes and the answer says so; with it the
/// answer is its name.
pub proof fn law_stopping_takes_out_one(t: TrackerView, index: int, now: Moment, offset: i32)
    requires
        index >= 0,
    ensures
        index >= t.active.len() ==> after_stop(t, index, now, offset) == t,
        index < t.active.len() ==> ({
            let after = after_stop(t, index, now, offset);
            &&& after.entries == t.entries.push(stopped(t.active[index], now, offset))
            &&& after.active == t.active.take(index) + t.active.skip(index + 1)
        }),
        name_answer(t.active, index) == if index < t.active.len() {
            Ok::<Seq<char>, Seq<char>>(t.active[index].activity)
        } else {
            Err("Invalid task index"@)
        },
{
    if index < t.active.len() {
        assert(t.active.remove(index) =~= t.active.take(index) + t.active.skip(index + 1));
    }
}

/// Stopping all tasks stops each as it would be stopped alone, in order, and leaves none running.
pub proof fn law_stopping_all_stops_each(t: TrackerView, now: Moment, offsets: Seq<i32>)
    ensures
        ({
            let after = after_stop_all(t, now, offsets);
            let n = t.entries.len() as int;
            &&& after.active.len() == 0
            &&& after.entries.len() == n + t.active.len()
            &&& after.entries.take(n) == t.entries
            &&& forall|i: int|
                0 <= i < t.active.len() ==> #[trigger] after.entries[n + i] == stopped(
                    t.active[i],
                    now,
                    offsets[i],
                )
        }),
{
    let after = after_stop_all(t, now, offsets);
    assert(after.entries.take(t.entries.len() as int) =~= t.entries);
}

/// Deleting a task takes it, and no other, out of those that are done, which keep their order. Those
/// that run stay. Without such a task nothing changes and the answer says so.
pub proof fn law_deleting_takes_out_one(t: TrackerView, index: int)
    requires
        index >= 0,
    ensures
        after_delete(t, index).active == t.active,
        after_delete(t, index).entries == if index < t.entries.len() {
            t.entries.take(index) + t.entries.skip(index + 1)
        } else {
            t.entries
        },
        name_answer(t.entries, index) is Ok <==> index < t.entries.len(),
        index < t.entries.len() ==> name_answer(t.entries, index)->Ok_0 == t.entries[index].activity,
{
    if index < t.entries.len() {
        assert(t.entries.remove(index) =~= t.entries.take(index) + t.entries.skip(index + 1));
    }
}

/// The tasks of some days are the finished ones whose end lies on one of them on its local clock, each
/// as often as it is among the finished ones and in their order.
pub proof fn law_tasks_of_days_are_picked_in_order(entries: Seq<EntryView>, first: int, last: int)
    ensures
        ending_between(entries, first, last) == entries.filter(
            |e: EntryView|
                e.end is Some && first <= (e.end->Some_0.secs + e.end->Some_0.offset) / 86_400
                    <= last,
        ),
    decreases entries.len(),
{
    reveal(Seq::filter);
    if entries.len() > 0 {
        law_tasks_of_days_are_picked_in_order(entries.drop_last(), first, last);
    }
}

/// The time that tasks have taken together is nothing for none, and with one more task, in front or
/// behind, it is as much more as that task has taken.
pub proof fn law_times_add_up(entries: Seq<EntryView>, e: EntryView, now: Moment)
    ensures
        total(Seq::empty(), now) == 0,
        total(entries.push(e), now) == total(entries, now) + elapsed(e, now),
        total(seq![e] + entries, now) == elapsed(e, now) + total(entries, now),
    decreases entries.len(),
{
    assert(entries.push(e).drop_last() =~= entries);
    if entries.len() > 0 {
        law_times_add_up(entries.drop_last(), e, now);
        assert((seq![e] + entries).drop_last() =~= seq![e] + entries.drop_last());
        assert((seq![e] + entries).last() == entries.last());
    } else {
        assert((seq![e] + entries).drop_last() =~= Seq::<EntryView>::empty());
        assert((seq![e] + entries).last() == e);
    }
}

/// Times can be added up exactly if each sum from the first task on is a span.
pub proof fn law_what_adds_up(entries: Seq<EntryView>, now: Moment)
    ensures
        adds_up(entries, now) <==> forall|k: int|
            0 < k <= entries.len() ==> -9_223_372_036_854_775_807_000_000 <= #[trigger] total(
                entries.take(k),
                now,
            ) <= 9_223_372_036_854_775_807_000_000,
    decreases entries.len(),
{
    if entries.len() > 0 {
        let rest = entries.drop_last();
        law_what_adds_up(rest, now);
        assert(entries.take(entries.len() as int) =~= entries);
        assert forall|k: int| 0 < k <= rest.len() implies rest.take(k) == #[trigger] entries.take(
            k,
        ) by {
            assert(rest.take(k) =~= entries.take(k));
        }
        if adds_up(entries, now) {
            assert forall|k: int| 0 < k <= entries.len() implies -9_223_372_036_854_775_807_000_000
                <= #[trigger] total(entries.take(k), now) <= 9_223_372_036_854_775_807_000_000 by {
                if k <= rest.len() {
                    assert(rest.take(k) == entries.take(k));
                }
            }
        } else if adds_up(rest, now) {
            assert(!clock::span_fits(total(entries.take(entries.len() as int), now)));
        } else {
            let k = choose|k: int|
                0 < k <= rest.len() && !(-9_223_372_036_854_775_807_000_000 <= #[trigger] total(
                    rest.take(k),
                    now,
                ) <= 9_223_372_036_854_775_807_000_000);
            assert(rest.take(k) == entries.take(k));
        }
    }
}

/// Every end lies on the calendar exactly if the local clock shows a second of it at each.
pub proof fn law_ends_on_the_calendar(entries: Seq<EntryView>)
    ensures
        ends_dated(entries) <==> forall|i: int|
            0 <= i < entries.len() ==> ((#[trigger] entries[i]).end matches Some(end)
                ==> -8_334_601_228_800 <= end.secs + end.offset <= 8_210_266_876_799),
{
}

} // verus!

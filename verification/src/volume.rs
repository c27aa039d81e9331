//! What a scan gives against the files of a table: a model of those files,
//! the run of a cursor against them, and what that run comes to.

use crate::clock::{day_of, hour_of, next_midnight};
use crate::cursor::{Found, Phase, Scan, Stepped};
use crate::record::{lemma_written_push, wire_decode, written, Decoding, Record};
use vstd::prelude::*;

verus! {

/// The partition files of one table, as a scan meets them.
pub struct Volume {
    /// The days, counted from the epoch, that have a directory.
    pub days: Set<int>,
    /// The content of the partition file of each hour, counted from the
    /// epoch, that has one.
    pub files: Map<int, Seq<u8>>,
}

/// The records that a scan reads off `bytes`: one after the other, until
/// the bytes that are left give no record.
pub open spec fn records_of(bytes: Seq<u8>) -> Seq<Record>
    decreases bytes.len(),
{
    match wire_decode(bytes) {
        Decoding::Record { record, used } if 1 <= used <= bytes.len() => seq![record] + records_of(
            bytes.skip(used as int),
        ),
        _ => Seq::empty(),
    }
}

impl Volume {
    /// A file lies in the directory of its day.
    pub open spec fn wf(self) -> bool {
        forall|h: int| #[trigger] self.files.contains_key(h) ==> self.days.contains(h / 24)
    }

    /// What a caller finds at the bucket that holds second `t`.
    pub open spec fn look(self, t: int) -> Found {
        if !self.days.contains(day_of(t)) {
            Found::NoDirectory
        } else if !self.files.contains_key(hour_of(t)) {
            Found::NoFile
        } else {
            Found::Contents(self.files[hour_of(t)])
        }
    }

    /// The records in the partition file of hour `h`; none where there is no
    /// file.
    pub open spec fn hour(self, h: int) -> Seq<Record> {
        if self.files.contains_key(h) {
            records_of(self.files[h])
        } else {
            Seq::empty()
        }
    }

    /// The records in the partition files of the hours from `lo` to `hi`,
    /// hour after hour, each file's in the order in which it holds them.
    pub open spec fn stored(self, lo: int, hi: int) -> Seq<Record>
        decreases hi - lo + 1,
    {
        if lo > hi {
            Seq::empty()
        } else {
            self.hour(lo) + self.stored(lo + 1, hi)
        }
    }
}

/// What a scan of the range from `start` to `end` keeps of the records
/// `records` that it reads in this order: those before `start` are passed
/// over, and the first one after `end` ends the scan.
pub open spec fn kept(records: Seq<Record>, start: int, end: int) -> Seq<Record>
    decreases records.len(),
{
    if records.len() == 0 {
        Seq::empty()
    } else if records[0].id < start {
        kept(records.skip(1), start, end)
    } else if records[0].id > end {
        Seq::empty()
    } else {
        seq![records[0]] + kept(records.skip(1), start, end)
    }
}

/// Does a scan of the range from `start` to `end` that reads `records` meet
/// a record after `end`, which ends it?
pub open spec fn cut(records: Seq<Record>, start: int, end: int) -> bool
    decreases records.len(),
{
    if records.len() == 0 {
        false
    } else if records[0].id < start {
        cut(records.skip(1), start, end)
    } else if records[0].id > end {
        true
    } else {
        cut(records.skip(1), start, end)
    }
}

/// How many seconds the clock at `t` has left before it is past `end`.
pub open spec fn span(t: int, end: int) -> nat {
    if t <= end {
        (end - t + 1) as nat
    } else {
        0
    }
}

/// An order on the phases: a scan that waits for a bucket comes before one
/// that reads, and that before one that is over.
pub open spec fn rank(phase: Phase) -> nat {
    match phase {
        Phase::Seeking => 2,
        Phase::Reading => 1,
        Phase::Done => 0,
    }
}

/// What one step does to a scan. The table and the range stay. A record
/// comes from a scan that reads, lies in the range, and leaves fewer bytes
/// to read. A request comes from a scan that waited already, which stays as
/// it is, or from one that read its file to the end, whose clock has moved
/// on by an hour and is not past the end. An end leaves the scan over.
pub proof fn lemma_step(s: Scan)
    ensures
        ({
            let (after, step) = s.advance();
            &&& after.source == s.source
            &&& after.table == s.table
            &&& after.start == s.start
            &&& after.end == s.end
            &&& match step {
                Stepped::Record(record) => {
                    &&& s.phase == Phase::Reading
                    &&& after.phase == Phase::Reading
                    &&& after.clock == s.clock <= s.end
                    &&& after.rest.len() < s.rest.len()
                    &&& s.start <= record.id <= s.end
                },
                Stepped::Seek { directory, file, anomaly } => {
                    &&& step == after.seek(anomaly)
                    &&& after.phase == Phase::Seeking
                    &&& s.phase == Phase::Seeking ==> after == s
                    &&& s.phase != Phase::Seeking ==> {
                        &&& s.phase == Phase::Reading
                        &&& s.clock <= s.end
                        &&& after.clock == s.clock + 3600 <= s.end
                    }
                },
                Stepped::End { anomaly } => after.phase == Phase::Done,
            }
        }),
    decreases s.rest.len(),
{
    let (next, step) = s.settle(wire_decode(s.rest));
    if step is None {
        assert(next.rest.len() < s.rest.len());
        lemma_step(next);
    }
}

/// The end is final: once a step is the end, the scan is over, every later
/// step is the end again, and nothing that the cursor is handed changes it.
pub proof fn end_is_final(s: Scan, found: Found)
    ensures
        ({
            let (after, step) = s.advance();
            step is End ==> {
                &&& after.phase == Phase::Done
                &&& after.advance() == (after, Stepped::End { anomaly: false })
                &&& after.supply(found) == after
            }
        }),
{
    lemma_step(s);
}

/// The scan clock never goes back: not on a step, and not on what the
/// cursor is handed.
pub proof fn clock_never_goes_back(s: Scan, found: Found)
    ensures
        s.advance().0.clock >= s.clock,
        s.supply(found).clock >= s.clock,
{
    lemma_step_clock(s);
}

/// A step does not move the clock back.
proof fn lemma_step_clock(s: Scan)
    ensures
        s.advance().0.clock >= s.clock,
    decreases s.rest.len(),
{
    let (next, step) = s.settle(wire_decode(s.rest));
    if step is None {
        lemma_step_clock(next);
    }
}

/// The records that a cursor hands out, step after step, when each bucket
/// that it asks for is answered from `v`, until it says that it is over.
pub open spec fn run(s: Scan, v: Volume) -> Seq<Record>
    decreases span(s.clock, s.end), rank(s.phase), s.rest.len(),
{
    let (after, step) = s.advance();
    match step {
        Stepped::Record(record) => {
            proof {
                lemma_step(s);
            }
            seq![record] + run(after, v)
        },
        Stepped::Seek { .. } => {
            proof {
                lemma_step(s);
            }
            run(after.supply(v.look(after.clock)), v)
        },
        Stepped::End { .. } => Seq::empty(),
    }
}

/// The records that a scan of the range from `start` to `end` gives once
/// its clock stands at `t` and it looks for a file: buckets without a
/// directory or a file are jumped, each file that is there is read with
/// `kept`, and the clock moves on by an hour after each, until it is past
/// `end` or a record past `end` is met.
pub open spec fn harvest(v: Volume, t: int, start: int, end: int) -> Seq<Record>
    decreases span(t, end),
{
    if t > end {
        Seq::empty()
    } else {
        match v.look(t) {
            Found::NoDirectory => harvest(v, next_midnight(t), start, end),
            Found::Contents(bytes) => {
                let records = records_of(bytes);
                if cut(records, start, end) {
                    kept(records, start, end)
                } else {
                    kept(records, start, end) + harvest(v, t + 3600, start, end)
                }
            },
            _ => harvest(v, t + 3600, start, end),
        }
    }
}

/// What is still to come from a scan that reads: what it keeps of the file
/// in hand, and then, unless a record past the end was met, the harvest
/// from the next hour on.
pub open spec fn to_come(s: Scan, v: Volume) -> Seq<Record> {
    let records = records_of(s.rest);
    if cut(records, s.start, s.end) {
        kept(records, s.start, s.end)
    } else {
        kept(records, s.start, s.end) + harvest(v, s.clock + 3600, s.start, s.end)
    }
}

/// The run of a cursor is the harvest: from the scan clock on where the
/// cursor waits for a bucket, and after the file in hand where it reads.
pub proof fn lemma_run_is_harvest(s: Scan, v: Volume)
    ensures
        s.phase == Phase::Done ==> run(s, v) == Seq::<Record>::empty(),
        s.phase == Phase::Seeking ==> run(s, v) == harvest(v, s.clock, s.start, s.end),
        s.phase == Phase::Reading && s.clock > s.end ==> run(s, v) == Seq::<Record>::empty(),
        s.phase == Phase::Reading && s.clock <= s.end ==> run(s, v) == to_come(s, v),
    decreases span(s.clock, s.end), rank(s.phase), s.rest.len(),
{
    lemma_step(s);
    let (after, step) = s.advance();
    match s.phase {
        Phase::Done => {},
        Phase::Seeking => {
            let next = s.supply(v.look(s.clock));
            assert(after == s);
            assert(run(s, v) == run(next, v));
            lemma_run_is_harvest(next, v);
            if s.clock <= s.end {
                match v.look(s.clock) {
                    Found::NoDirectory => {
                        let m = next_midnight(s.clock);
                        assert(next == s.move_to(m, false).0);
                        assert(m > s.end ==> harvest(v, m, s.start, s.end) == Seq::<Record>::empty());
                    },
                    Found::Contents(bytes) => {
                        assert(next.rest == bytes);
                        assert(run(next, v) == to_come(next, v));
                    },
                    _ => {
                        let m = s.clock + 3600;
                        assert(next == s.move_to(m, false).0);
                        assert(m > s.end ==> harvest(v, m, s.start, s.end) == Seq::<Record>::empty());
                    },
                }
            }
        },
        Phase::Reading => {
            if s.clock <= s.end {
                let found = wire_decode(s.rest);
                let (next, first) = s.settle(found);
                let records = records_of(s.rest);
                match found {
                    Decoding::Record { record, used } if 1 <= used <= s.rest.len() => {
                        let tail = records_of(s.rest.skip(used as int));
                        assert(records == seq![record] + tail);
                        assert(records.skip(1) =~= tail);
                        assert(records[0] == record);
                        if record.id < s.start {
                            lemma_run_is_harvest(next, v);
                        } else if record.id > s.end {
                        } else {
                            lemma_run_is_harvest(next, v);
                            assert(seq![record] + (kept(tail, s.start, s.end) + harvest(
                                v,
                                s.clock + 3600,
                                s.start,
                                s.end,
                            )) =~= (seq![record] + kept(tail, s.start, s.end)) + harvest(
                                v,
                                s.clock + 3600,
                                s.start,
                                s.end,
                            ));
                        }
                    },
                    _ => {
                        assert(records =~= Seq::<Record>::empty());
                        if s.clock + 3600 <= s.end {
                            lemma_run_is_harvest(after.supply(v.look(after.clock)), v);
                            lemma_run_is_harvest(after, v);
                        }
                        assert(kept(records, s.start, s.end) + harvest(
                            v,
                            s.clock + 3600,
                            s.start,
                            s.end,
                        ) =~= harvest(v, s.clock + 3600, s.start, s.end));
                    },
                }
            }
        },
    }
}

/// Reading two runs of records one after the other keeps what is kept of
/// the first and, unless the first met a record past the end, what is kept
/// of the second.
pub proof fn lemma_kept_concat(a: Seq<Record>, b: Seq<Record>, start: int, end: int)
    ensures
        kept(a + b, start, end) == if cut(a, start, end) {
            kept(a, start, end)
        } else {
            kept(a, start, end) + kept(b, start, end)
        },
    decreases a.len(),
{
    if a.len() == 0 {
        assert(a + b =~= b);
        assert(kept(a, start, end) + kept(b, start, end) =~= kept(b, start, end));
    } else {
        assert((a + b).skip(1) =~= a.skip(1) + b);
        assert((a + b)[0] == a[0]);
        lemma_kept_concat(a.skip(1), b, start, end);
        if start <= a[0].id <= end && !cut(a, start, end) {
            assert(seq![a[0]] + (kept(a.skip(1), start, end) + kept(b, start, end)) =~= (seq![a[0]]
                + kept(a.skip(1), start, end)) + kept(b, start, end));
        }
    }
}

/// Records that all lie in the range are all kept, and none of them ends
/// the scan.
pub proof fn lemma_kept_all(records: Seq<Record>, start: int, end: int)
    requires
        forall|i: int| 0 <= i < records.len() ==> start <= (#[trigger] records[i]).id <= end,
    ensures
        kept(records, start, end) == records,
        !cut(records, start, end),
    decreases records.len(),
{
    if records.len() > 0 {
        let tail = records.skip(1);
        assert forall|i: int| 0 <= i < tail.len() implies start <= (#[trigger] tail[i]).id <= end by {
            assert(tail[i] == records[i + 1]);
        }
        lemma_kept_all(tail, start, end);
        assert(seq![records[0]] + tail =~= records);
    } else {
        assert(records =~= Seq::<Record>::empty());
    }
}

/// Hours without records add nothing to what is stored.
pub proof fn lemma_stored_skip(v: Volume, lo: int, mid: int, hi: int)
    requires
        lo <= mid,
        forall|h: int| lo <= h < mid ==> (#[trigger] v.hour(h)).len() == 0,
    ensures
        v.stored(lo, hi) == v.stored(mid, hi),
    decreases mid - lo,
{
    if lo < mid {
        lemma_stored_skip(v, lo + 1, mid, hi);
        if lo <= hi {
            assert(v.hour(lo) + v.stored(lo + 1, hi) =~= v.stored(lo + 1, hi));
        } else {
            assert(v.stored(lo, hi) =~= Seq::<Record>::empty());
            assert(v.stored(mid, hi) =~= Seq::<Record>::empty());
        }
    }
}

/// Does a scan whose clock stands at `t` get to the file of the hour that
/// holds `end`, if that file has records? It does where the clock stands no
/// later in its hour than `end` does in its own; and where a day before that
/// of `end` has no directory, since the jump over such a day sets the clock
/// to the start of an hour.
pub open spec fn reaches_last_hour(v: Volume, t: int, end: int) -> bool {
    ||| t % 3600 <= end % 3600
    ||| v.hour(hour_of(end)).len() == 0
    ||| exists|d: int| day_of(t) <= d < day_of(end) && !(#[trigger] v.days.contains(d))
}

/// The harvest from `t` on is what a scan keeps of the records stored in
/// the hours from that of `t` to that of `end`.
pub proof fn lemma_harvest_is_stored(v: Volume, t: int, start: int, end: int)
    requires
        v.wf(),
        reaches_last_hour(v, t, end),
    ensures
        harvest(v, t, start, end) == kept(v.stored(hour_of(t), hour_of(end)), start, end),
    decreases span(t, end),
{
    let lo = hour_of(t);
    let hi = hour_of(end);
    if t > end {
        if lo == hi {
            assert(v.hour(hi).len() == 0);
            assert(v.stored(hi + 1, hi) =~= Seq::<Record>::empty());
            assert(v.stored(lo, hi) =~= Seq::<Record>::empty());
        } else {
            assert(v.stored(lo, hi) =~= Seq::<Record>::empty());
        }
    } else {
        match v.look(t) {
            Found::NoDirectory => {
                let m = next_midnight(t);
                assert(m % 3600 == 0);
                lemma_harvest_is_stored(v, m, start, end);
                assert forall|h: int| lo <= h < hour_of(m) implies (#[trigger] v.hour(h)).len()
                    == 0 by {
                    assert(h / 24 == day_of(t));
                    if v.files.contains_key(h) {
                        assert(v.days.contains(h / 24));
                    }
                }
                lemma_stored_skip(v, lo, hour_of(m), hi);
            },
            Found::Contents(bytes) => {
                lemma_later_reaches(v, t, end);
                lemma_harvest_is_stored(v, t + 3600, start, end);
                assert(hour_of(t + 3600) == lo + 1);
                lemma_kept_concat(v.hour(lo), v.stored(lo + 1, hi), start, end);
            },
            _ => {
                lemma_later_reaches(v, t, end);
                lemma_harvest_is_stored(v, t + 3600, start, end);
                assert(hour_of(t + 3600) == lo + 1);
                assert(v.hour(lo) + v.stored(lo + 1, hi) =~= v.stored(lo + 1, hi));
            },
        }
    }
}

/// A scan that gets to the last hour from `t`, where the day of `t` has a
/// directory, gets to it from an hour later too.
pub proof fn lemma_later_reaches(v: Volume, t: int, end: int)
    requires
        reaches_last_hour(v, t, end),
        v.days.contains(day_of(t)),
    ensures
        reaches_last_hour(v, t + 3600, end),
{
    if t % 3600 <= end % 3600 {
        assert((t + 3600) % 3600 == t % 3600);
    } else if v.hour(hour_of(end)).len() == 0 {
    } else {
        let d = choose|d: int| day_of(t) <= d < day_of(end) && !(#[trigger] v.days.contains(d));
        assert(day_of(t + 3600) <= day_of(t) + 1);
        assert(day_of(t + 3600) <= d < day_of(end) && !v.days.contains(d));
    }
}

/// Every record that a cursor hands out has its id in the cursor's range,
/// whatever the files hold.
pub proof fn scan_stays_in_range(s: Scan, v: Volume)
    ensures
        forall|i: int| 0 <= i < run(s, v).len() ==> s.start <= (#[trigger] run(s, v)[i]).id <= s.end,
    decreases span(s.clock, s.end), rank(s.phase), s.rest.len(),
{
    lemma_step(s);
    let (after, step) = s.advance();
    match step {
        Stepped::Record(record) => {
            scan_stays_in_range(after, v);
            let all = run(s, v);
            let tail = run(after, v);
            assert(all == seq![record] + tail);
            assert forall|i: int| 0 <= i < all.len() implies s.start <= (#[trigger] all[i]).id
                <= s.end by {
                if i > 0 {
                    assert(all[i] == tail[i - 1]);
                }
            }
        },
        Stepped::Seek { .. } => {
            let next = after.supply(v.look(after.clock));
            scan_stays_in_range(next, v);
            assert(run(s, v) == run(next, v));
            assert(next.start == s.start && next.end == s.end);
        },
        Stepped::End { .. } => {},
    }
}

/// A query for the range from `start` to `end` gives what `kept` keeps of
/// the records stored in the hours from that of `start` to that of `end`:
/// they come hour after hour and, within a file, in the file's order; those
/// before `start` are left out, and the first one after `end` ends the
/// answer. A record is found by the hour of its file and kept by its id,
/// whether or not the two agree.
pub proof fn scan_keeps_the_stored_records(
    v: Volume,
    source: Seq<char>,
    table: Seq<char>,
    start: int,
    end: int,
)
    requires
        v.wf(),
        reaches_last_hour(v, start, end),
    ensures
        run(Scan::fresh(source, table, start, end), v) == kept(
            v.stored(hour_of(start), hour_of(end)),
            start,
            end,
        ),
{
    let s = Scan::fresh(source, table, start, end);
    lemma_run_is_harvest(s, v);
    lemma_harvest_is_stored(v, start, start, end);
    assert(records_of(s.rest) =~= Seq::<Record>::empty());
    assert(kept(records_of(s.rest), start, end) + harvest(v, start, start, end) =~= harvest(
        v,
        start,
        start,
        end,
    ));
}

/// Are the ids of `records` in strictly rising order?
pub open spec fn rising(records: Seq<Record>) -> bool {
    forall|i: int, j: int| 0 <= i < j < records.len() ==> records[i].id < records[j].id
}

/// Where the records stored in the hours of the range all have their ids in
/// the range, and these rise strictly, a query for the range gives exactly
/// those records, none of them out of the range, in an order in which no id
/// comes before a smaller one.
pub proof fn scan_gives_the_records_in_range(
    v: Volume,
    source: Seq<char>,
    table: Seq<char>,
    start: int,
    end: int,
)
    requires
        v.wf(),
        reaches_last_hour(v, start, end),
        forall|i: int|
            0 <= i < v.stored(hour_of(start), hour_of(end)).len() ==> start <= (#[trigger] v.stored(
                hour_of(start),
                hour_of(end),
            )[i]).id <= end,
        rising(v.stored(hour_of(start), hour_of(end))),
    ensures
        run(Scan::fresh(source, table, start, end), v) == v.stored(hour_of(start), hour_of(end)),
        forall|i: int, j: int|
            0 <= i <= j < run(Scan::fresh(source, table, start, end), v).len() ==> run(
                Scan::fresh(source, table, start, end),
                v,
            )[i].id <= run(Scan::fresh(source, table, start, end), v)[j].id,
        forall|i: int|
            0 <= i < run(Scan::fresh(source, table, start, end), v).len() ==> start <= (#[trigger] run(
                Scan::fresh(source, table, start, end),
                v,
            )[i]).id <= end,
{
    scan_keeps_the_stored_records(v, source, table, start, end);
    lemma_kept_all(v.stored(hour_of(start), hour_of(end)), start, end);
}

/// The harvest is empty where no hour from that of `t` to that of `end`
/// holds a record.
pub proof fn lemma_harvest_of_nothing(v: Volume, t: int, start: int, end: int)
    requires
        forall|h: int| hour_of(t) <= h <= hour_of(end) ==> (#[trigger] v.hour(h)).len() == 0,
    ensures
        harvest(v, t, start, end) == Seq::<Record>::empty(),
    decreases span(t, end),
{
    if t <= end {
        assert(v.hour(hour_of(t)).len() == 0);
        match v.look(t) {
            Found::NoDirectory => {
                lemma_harvest_of_nothing(v, next_midnight(t), start, end);
            },
            Found::Contents(bytes) => {
                lemma_harvest_of_nothing(v, t + 3600, start, end);
                assert(records_of(bytes) =~= Seq::<Record>::empty());
            },
            _ => {
                lemma_harvest_of_nothing(v, t + 3600, start, end);
            },
        }
    }
}

/// A query over hours that hold no record (no file, or a file without
/// records) gives no record: the cursor says that it is over.
pub proof fn scan_of_nothing_is_empty(
    v: Volume,
    source: Seq<char>,
    table: Seq<char>,
    start: int,
    end: int,
)
    requires
        forall|h: int| hour_of(start) <= h <= hour_of(end) ==> (#[trigger] v.hour(h)).len() == 0,
    ensures
        run(Scan::fresh(source, table, start, end), v) == Seq::<Record>::empty(),
{
    let s = Scan::fresh(source, table, start, end);
    lemma_run_is_harvest(s, v);
    lemma_harvest_of_nothing(v, start, start, end);
    assert(records_of(s.rest) =~= Seq::<Record>::empty());
}

/// What is stored from `lo` to `hi` is what is stored before hour `h`, then
/// the records of hour `h`, then what is stored after it.
pub proof fn lemma_stored_split(v: Volume, lo: int, h: int, hi: int)
    requires
        lo <= h <= hi,
    ensures
        v.stored(lo, hi) == v.stored(lo, h - 1) + v.hour(h) + v.stored(h + 1, hi),
    decreases h - lo,
{
    if lo < h {
        lemma_stored_split(v, lo + 1, h, hi);
        assert(v.hour(lo) + (v.stored(lo + 1, h - 1) + v.hour(h) + v.stored(h + 1, hi)) =~= (v.hour(
            lo,
        ) + v.stored(lo + 1, h - 1)) + v.hour(h) + v.stored(h + 1, hi));
    } else {
        assert(v.stored(lo, h - 1) =~= Seq::<Record>::empty());
        assert(v.stored(lo, h - 1) + v.hour(h) + v.stored(h + 1, hi) =~= v.hour(h) + v.stored(
            h + 1,
            hi,
        ));
    }
}

/// Where the records stored in the hours of the range all have their ids in
/// the range, the records of each file in those hours come out of a query
/// for the range one after the other, in the order in which the file holds
/// them: after those of the hours before, and before those of the hours
/// after.
pub proof fn scan_gives_a_file_in_its_order(
    v: Volume,
    source: Seq<char>,
    table: Seq<char>,
    start: int,
    end: int,
    h: int,
)
    requires
        v.wf(),
        reaches_last_hour(v, start, end),
        forall|i: int|
            0 <= i < v.stored(hour_of(start), hour_of(end)).len() ==> start <= (#[trigger] v.stored(
                hour_of(start),
                hour_of(end),
            )[i]).id <= end,
        hour_of(start) <= h <= hour_of(end),
    ensures
        run(Scan::fresh(source, table, start, end), v) == v.stored(hour_of(start), h - 1) + v.hour(h)
            + v.stored(h + 1, hour_of(end)),
{
    scan_keeps_the_stored_records(v, source, table, start, end);
    lemma_kept_all(v.stored(hour_of(start), hour_of(end)), start, end);
    lemma_stored_split(v, hour_of(start), h, hour_of(end));
}

/// Does the wire form of `record` read back as `record`, whatever bytes
/// follow it? This is what the scan needs of the wire form; it is a demand
/// on the serializer, and nothing here shows that it is met.
pub open spec fn reads_back(record: Record) -> bool {
    &&& record.wire().len() > 0
    &&& forall|rest: Seq<u8>| #[trigger]
        wire_decode(record.wire() + rest) == (Decoding::Record {
            record,
            used: record.wire().len(),
        })
}

/// Where the wire form of each of `records` reads back, a file to which
/// they were appended holds exactly them, in the order of the appends.
pub proof fn written_records_are_read(records: Seq<Record>)
    requires
        forall|i: int| 0 <= i < records.len() ==> reads_back(#[trigger] records[i]),
    ensures
        records_of(written(records)) == records,
    decreases records.len(),
{
    if records.len() == 0 {
        assert(records_of(written(records)) =~= records);
    } else {
        let first = records[0];
        let tail = records.skip(1);
        assert(reads_back(first));
        assert(written(records) == first.wire() + written(tail));
        assert(wire_decode(first.wire() + written(tail)) == (Decoding::Record {
            record: first,
            used: first.wire().len(),
        }));
        assert(written(records).skip(first.wire().len() as int) =~= written(tail));
        assert forall|i: int| 0 <= i < tail.len() implies reads_back(#[trigger] tail[i]) by {
            assert(tail[i] == records[i + 1]);
        }
        written_records_are_read(tail);
        assert(seq![first] + tail =~= records);
    }
}

/// Where the wire forms read back, appending the wire form of `record` to a
/// file that holds `records` gives a file that holds them and then `record`.
pub proof fn appended_record_is_read(records: Seq<Record>, record: Record)
    requires
        forall|i: int| 0 <= i < records.len() ==> reads_back(#[trigger] records[i]),
        reads_back(record),
    ensures
        records_of(written(records) + record.wire()) == records.push(record),
{
    lemma_written_push(records, record);
    let all = records.push(record);
    assert forall|i: int| 0 <= i < all.len() implies reads_back(#[trigger] all[i]) by {
        if i < records.len() {
            assert(all[i] == records[i]);
        }
    }
    written_records_are_read(all);
}

} // verus!

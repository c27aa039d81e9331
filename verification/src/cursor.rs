//! The range cursor: a scan over the partition files of one table.
//!
//! The cursor reads no file. It hands out the records of the file it was
//! given last; when that file has no more, it names the bucket it wants
//! next, and the caller says what is there.

use crate::clock::{
    following_midnight, format_utc, next_midnight, utc_text, DATE_FORMAT, HOUR, TIME_FORMAT,
};
use crate::database::{day_directory, join, Database};
use crate::record::{wire_decode, Decoded, Decoding, MpdRecordType, Record};
use vstd::prelude::*;
use vstd::slice::slice_subrange;

verus! {

/// Where a scan stands.
#[derive(Debug, Clone, Copy, PartialEq, Eq)]
pub enum Phase {
    /// A file is loaded, and its records are being read.
    Reading,
    /// The bucket at the scan clock has been asked for.
    Seeking,
    /// The scan is over, for good.
    Done,
}

/// The bytes of the partition file in hand, and how far they have been read.
#[derive(Debug)]
pub struct Stream {
    pub bytes: Vec<u8>,
    pub at: usize,
}

impl Stream {
    /// The bytes not read yet.
    pub open spec fn rest(&self) -> Seq<u8> {
        if self.at <= self.bytes@.len() {
            self.bytes@.skip(self.at as int)
        } else {
            Seq::empty()
        }
    }

    /// The bytes not read yet.
    pub fn remaining(&self) -> (rest: &[u8])
        ensures
            rest@ == self.rest(),
    {
        let len = self.bytes.len();
        if self.at <= len {
            slice_subrange(self.bytes.as_slice(), self.at, len)
        } else {
            slice_subrange(self.bytes.as_slice(), len, len)
        }
    }
}

/// A scan over the records of one table between two instants.
#[derive(Debug)]
pub struct MyCursor {
    pub database: Database,
    pub table: String,
    /// The stream over the file in hand.
    pub de: Stream,
    /// The scan clock: the Unix time whose bucket is read or looked for.
    pub curr_ts: i64,
    /// The first and the last Unix time of the range, both included.
    pub start_ts: u32,
    pub end_ts: u32,
    pub phase: Phase,
}

/// What the caller found where the cursor sent it.
#[derive(Debug)]
pub enum Lookup {
    /// The day's directory is not there.
    NoDirectory,
    /// The directory is there, the hour's file is not.
    NoFile,
    /// The file is there and could not be read.
    Unreadable,
    /// The whole content of the file.
    Contents(Vec<u8>),
}

/// What one call of `next` comes to.
#[derive(Debug)]
pub enum Step {
    /// The next record of the range.
    Record(MpdRecordType),
    /// The file in hand is used up. The caller looks for the bucket's
    /// directory and file, hands what it found to `supply`, and calls `next`
    /// again. `anomaly` says that the file in hand ended in bytes that are
    /// no record.
    Seek { directory: String, file: String, anomaly: bool },
    /// No more records. `anomaly` is as in `Seek`.
    End { anomaly: bool },
}

/// A cursor as a mathematical value.
pub struct Scan {
    pub source: Seq<char>,
    pub table: Seq<char>,
    /// The bytes of the file in hand that are not read yet.
    pub rest: Seq<u8>,
    pub clock: int,
    pub start: int,
    pub end: int,
    pub phase: Phase,
}

/// `Lookup` as a mathematical value.
pub enum Found {
    NoDirectory,
    NoFile,
    Unreadable,
    Contents(Seq<u8>),
}

/// `Step` as a mathematical value.
pub enum Stepped {
    Record(Record),
    Seek { directory: Seq<char>, file: Seq<char>, anomaly: bool },
    End { anomaly: bool },
}

impl View for MyCursor {
    type V = Scan;

    open spec fn view(&self) -> Scan {
        Scan {
            source: self.database.source@,
            table: self.table@,
            rest: self.de.rest(),
            clock: self.curr_ts as int,
            start: self.start_ts as int,
            end: self.end_ts as int,
            phase: self.phase,
        }
    }
}

impl View for Lookup {
    type V = Found;

    open spec fn view(&self) -> Found {
        match *self {
            Lookup::NoDirectory => Found::NoDirectory,
            Lookup::NoFile => Found::NoFile,
            Lookup::Unreadable => Found::Unreadable,
            Lookup::Contents(bytes) => Found::Contents(bytes@),
        }
    }
}

impl View for Step {
    type V = Stepped;

    open spec fn view(&self) -> Stepped {
        match *self {
            Step::Record(record) => Stepped::Record(record@),
            Step::Seek { directory, file, anomaly } => Stepped::Seek {
                directory: directory@,
                file: file@,
                anomaly,
            },
            Step::End { anomaly } => Stepped::End { anomaly },
        }
    }
}

/// The view of a step that may not have come yet.
pub open spec fn step_view(step: Option<Step>) -> Option<Stepped> {
    match step {
        Some(s) => Some(s@),
        None => None,
    }
}

impl Scan {
    /// The scan that a query for `table` from `start` to `end` starts with.
    /// No file is in hand, and the clock stands one hour before `start`: the
    /// first step finds nothing to read and moves the clock on by that hour,
    /// so that the first bucket looked for is the one that holds `start`.
    pub open spec fn fresh(source: Seq<char>, table: Seq<char>, start: int, end: int) -> Scan {
        Scan {
            source,
            table,
            rest: Seq::empty(),
            clock: start - 3600,
            start,
            end,
            phase: Phase::Reading,
        }
    }

    /// The directory of the day that holds the scan clock.
    pub open spec fn directory(self) -> Seq<char> {
        day_directory(self.source, self.table, utc_text(self.clock, DATE_FORMAT@))
    }

    /// The partition file of the hour that holds the scan clock.
    pub open spec fn file(self) -> Seq<char> {
        join(self.directory(), utc_text(self.clock, TIME_FORMAT@))
    }

    /// The request for the bucket at the scan clock.
    pub open spec fn seek(self, anomaly: bool) -> Stepped {
        Stepped::Seek { directory: self.directory(), file: self.file(), anomaly }
    }

    /// The scan clock moves on to `clock`: past the end of the range the
    /// scan is over, else the bucket at `clock` is wanted.
    pub open spec fn move_to(self, clock: int, anomaly: bool) -> (Scan, Stepped) {
        if clock > self.end {
            (Scan { clock, phase: Phase::Done, ..self }, Stepped::End { anomaly })
        } else {
            let s = Scan { clock, phase: Phase::Seeking, ..self };
            (s, s.seek(anomaly))
        }
    }

    /// What the scan makes of one attempt to read a record off the file in
    /// hand: the state after it, and the step that it comes to, if any.
    ///
    /// A scan that is over stays over; one that waits for a bucket asks for
    /// it again; one whose clock is past the end of the range ends. Else: a
    /// record before the range is passed over (no step yet), a record after
    /// it ends the scan, a record inside it is the step. Where nothing more
    /// can be read, the clock moves on by an hour. A record that claims to
    /// have taken no byte, or more bytes than are left, is no record.
    pub open spec fn settle(self, found: Decoding) -> (Scan, Option<Stepped>) {
        match self.phase {
            Phase::Done => (self, Some(Stepped::End { anomaly: false })),
            Phase::Seeking => (self, Some(self.seek(false))),
            Phase::Reading => if self.clock > self.end {
                (Scan { phase: Phase::Done, ..self }, Some(Stepped::End { anomaly: false }))
            } else {
                match found {
                    Decoding::Record { record, used } if 1 <= used <= self.rest.len() => {
                        let s = Scan { rest: self.rest.skip(used as int), ..self };
                        if record.id < self.start {
                            (s, None)
                        } else if record.id > self.end {
                            (Scan { phase: Phase::Done, ..s }, Some(Stepped::End { anomaly: false }))
                        } else {
                            (s, Some(Stepped::Record(record)))
                        }
                    },
                    Decoding::End => {
                        let (s, step) = self.move_to(self.clock + 3600, false);
                        (s, Some(step))
                    },
                    _ => {
                        let (s, step) = self.move_to(self.clock + 3600, true);
                        (s, Some(step))
                    },
                }
            },
        }
    }

    /// The state after the next step, and that step: records are read off
    /// the file in hand until one attempt comes to a step. (An attempt that
    /// comes to no step has passed over a record, and so has left fewer
    /// bytes to read.)
    pub open spec fn advance(self) -> (Scan, Stepped)
        decreases self.rest.len(),
    {
        let (s, step) = self.settle(wire_decode(self.rest));
        match step {
            Some(step) => (s, step),
            None => if s.rest.len() < self.rest.len() {
                s.advance()
            } else {
                (s, Stepped::End { anomaly: false })
            },
        }
    }

    /// The state after the caller has said what is at the bucket that was
    /// asked for. A missing directory moves the clock to the start of the
    /// next day, a missing or unreadable file moves it on by an hour; a file
    /// is taken in hand. A scan that asked for nothing takes nothing.
    pub open spec fn supply(self, found: Found) -> Scan {
        if self.phase != Phase::Seeking {
            self
        } else if self.clock > self.end {
            Scan { phase: Phase::Done, ..self }
        } else {
            match found {
                Found::NoDirectory => self.move_to(next_midnight(self.clock), false).0,
                Found::NoFile => self.move_to(self.clock + 3600, false).0,
                Found::Unreadable => self.move_to(self.clock + 3600, false).0,
                Found::Contents(bytes) => Scan { rest: bytes, phase: Phase::Reading, ..self },
            }
        }
    }
}

impl MyCursor {
    /// A cursor over `tb` with the file content `buf` in hand, the scan clock
    /// at `dt`, and the range from `st` to `et`.
    pub fn new(db: Database, tb: String, buf: Vec<u8>, dt: i64, st: u32, et: u32) -> (cursor: MyCursor)
        ensures
            cursor@ == (Scan {
                source: db.source@,
                table: tb@,
                rest: buf@,
                clock: dt as int,
                start: st as int,
                end: et as int,
                phase: Phase::Reading,
            }),
    {
        let cursor = MyCursor {
            database: db,
            table: tb,
            de: Stream { bytes: buf, at: 0 },
            curr_ts: dt,
            start_ts: st,
            end_ts: et,
            phase: Phase::Reading,
        };
        assert(cursor.de.rest() =~= buf@);
        cursor
    }

    /// The request for the bucket at the scan clock.
    fn seek(&self, anomaly: bool) -> (step: Step)
        ensures
            step@ == self@.seek(anomaly),
    {
        let day = format_utc(self.curr_ts, DATE_FORMAT);
        let hour = format_utc(self.curr_ts, TIME_FORMAT);
        let (directory, file) = self.database.bucket_path(
            self.table.as_str(),
            day.as_str(),
            hour.as_str(),
        );
        Step::Seek { directory, file, anomaly }
    }

    /// Moves the scan clock on to `clock`, and says what comes of it.
    fn move_to(&mut self, clock: i64, anomaly: bool) -> (step: Step)
        ensures
            (final(self)@, step@) == old(self)@.move_to(clock as int, anomaly),
    {
        self.jump(clock);
        match self.phase {
            Phase::Seeking => self.seek(anomaly),
            _ => Step::End { anomaly },
        }
    }

    /// Moves the scan clock on to `clock`.
    fn jump(&mut self, clock: i64)
        ensures
            final(self)@ == old(self)@.move_to(clock as int, false).0,
            final(self).phase == Phase::Seeking || final(self).phase == Phase::Done,
    {
        self.curr_ts = clock;
        if clock > self.end_ts as i64 {
            self.phase = Phase::Done;
        } else {
            self.phase = Phase::Seeking;
        }
    }

    /// Takes the outcome of one attempt to read a record off the file in
    /// hand, and gives the step that it comes to, if any.
    pub fn settle(&mut self, found: Decoded) -> (step: Option<Step>)
        ensures
            (final(self)@, step_view(step)) == old(self)@.settle(found@),
    {
        match self.phase {
            Phase::Done => Some(Step::End { anomaly: false }),
            Phase::Seeking => Some(self.seek(false)),
            Phase::Reading => {
                if self.curr_ts > self.end_ts as i64 {
                    self.phase = Phase::Done;
                    return Some(Step::End { anomaly: false });
                }
                let left: usize = self.de.remaining().len();
                match found {
                    Decoded::Record { record, used } => {
                        if 1 <= used && used <= left {
                            assert(self.de.at + used <= self.de.bytes.len() <= usize::MAX);
                            self.de.at = self.de.at + used;
                            assert(self.de.rest() =~= old(self).de.rest().skip(used as int));
                            if record.id < self.start_ts {
                                None
                            } else if record.id > self.end_ts {
                                self.phase = Phase::Done;
                                Some(Step::End { anomaly: false })
                            } else {
                                Some(Step::Record(record))
                            }
                        } else {
                            Some(self.move_to(self.curr_ts + HOUR, true))
                        }
                    },
                    Decoded::End => Some(self.move_to(self.curr_ts + HOUR, false)),
                    Decoded::Anomaly => Some(self.move_to(self.curr_ts + HOUR, true)),
                }
            },
        }
    }

    /// The next step of the scan: the next record of the range, or the
    /// bucket that the caller is to look for, or the end. After the end every
    /// step is the end.
    pub fn next(&mut self) -> (step: Step)
        ensures
            (final(self)@, step@) == old(self)@.advance(),
    {
        loop
            invariant
                self@.advance() == old(self)@.advance(),
            decreases self@.rest.len(),
        {
            let found = match self.phase {
                Phase::Reading => MpdRecordType::decode(self.de.remaining()),
                _ => Decoded::End,
            };
            match self.settle(found) {
                Some(step) => {
                    return step;
                },
                None => {},
            }
        }
    }

    /// Takes what the caller found at the bucket that the last step asked for.
    pub fn supply(&mut self, found: Lookup)
        ensures
            final(self)@ == old(self)@.supply(found@),
    {
        match self.phase {
            Phase::Seeking => {
                if self.curr_ts > self.end_ts as i64 {
                    self.phase = Phase::Done;
                    return;
                }
                match found {
                    Lookup::NoDirectory => {
                        self.jump(following_midnight(self.curr_ts));
                    },
                    Lookup::NoFile => {
                        self.jump(self.curr_ts + HOUR);
                    },
                    Lookup::Unreadable => {
                        self.jump(self.curr_ts + HOUR);
                    },
                    Lookup::Contents(bytes) => {
                        self.de = Stream { bytes, at: 0 };
                        self.phase = Phase::Reading;
                        assert(self.de.rest() =~= bytes@);
                    },
                }
            },
            _ => {},
        }
    }
}

} // verus!

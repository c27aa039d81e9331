//! The partition store: where a bucket's file lies, and what is appended to it.

use crate::cursor::{MyCursor, Scan};
use crate::clock::{
    format_utc, hour_start, utc_hour_start, utc_text, DATE_FORMAT, HOUR, TIME_FORMAT,
};
use crate::digits::{parse_i32, parse_u32, read_i32, read_u32};
use crate::record::{crc32_ieee, wire_encode, MpdRecordType};
use vstd::prelude::*;
use vstd::slice::slice_subrange;
use vstd::string::*;

verus! {

/// `std::io::Error`, the error of the operations on files. The store makes
/// none itself; the type is declared so that it can stand in a signature.
#[verifier::external_type_specification]
#[verifier::external_body]
pub struct ExIoError(std::io::Error);

/// A handle on the store: the directory under which all tables lie.
#[derive(Debug)]
pub struct Database {
    pub source: String,
}

/// A payload on its way into a table.
#[derive(Debug)]
pub struct Entry {
    pub table: String,
    pub data: Vec<u8>,
}

/// An append that the caller is to carry out: make `directory` and `file` if
/// they are not there, and write `bytes` at the end of `file`.
#[derive(Debug)]
pub struct Append {
    pub directory: String,
    pub file: String,
    pub bytes: Vec<u8>,
}

/// A store that carries out its own reads and writes.
pub trait DB {
    /// Points the store at another directory.
    fn set_source(&self, source: &str) -> Result<(), std::io::Error>;

    /// Lists the tables under the store's directory.
    fn list_db(&self);

    /// Appends an entry to the bucket of the present hour.
    fn insert(&self, entry: Entry) -> Result<(), std::io::Error>;

    /// Reads one file whole.
    fn find_file(&self, source: &str) -> Result<Vec<u8>, std::io::Error>;

    /// Looks for a record by its date.
    fn find_data(&self, date: &str);
}

/// `a`, a slash, `b`.
pub open spec fn join(a: Seq<char>, b: Seq<char>) -> Seq<char> {
    a + seq!['/'] + b
}

/// The directory of one day of one table: `source/table/day`.
pub open spec fn day_directory(source: Seq<char>, table: Seq<char>, day: Seq<char>) -> Seq<char> {
    join(join(source, table), day)
}

/// The record id for Unix time `t`: `t` cut down to 32 bits.
pub open spec fn stamp_id(t: int) -> u32 {
    (t % 0x1_0000_0000) as u32
}

/// The Unix time of the bucket that a day name and an hour name spell, if
/// they spell one. The day's first eight bytes are read as the year (four
/// bytes), the month and the day of the month (two bytes each); the hour's
/// name is read whole.
pub open spec fn bucket_stamp(day: Seq<u8>, hour: Seq<u8>) -> Option<int> {
    if day.len() < 8 {
        None
    } else {
        match (
            parse_i32(day.subrange(0, 4)),
            parse_u32(day.subrange(4, 6)),
            parse_u32(day.subrange(6, 8)),
            parse_u32(hour),
        ) {
            (Some(y), Some(m), Some(d), Some(h)) => utc_hour_start(y as int, m as int, d as int, h as int),
            _ => None,
        }
    }
}

/// `a`, a slash, `b`.
pub fn join_path(a: &str, b: &str) -> (path: String)
    ensures
        path@ == join(a@, b@),
{
    proof {
        reveal_strlit("/");
    }
    let mut path = a.to_owned();
    path.append("/");
    path.append(b);
    assert("/"@ =~= seq!['/']);
    path
}

/// Cuts a Unix time down to the 32 bits of a record id.
pub fn stamp_to_id(t: i64) -> (id: u32)
    ensures
        id == stamp_id(t as int),
{
    let r: i64 = t % 0x1_0000_0000;
    if r < 0 {
        (r + 0x1_0000_0000) as u32
    } else {
        r as u32
    }
}

/// Reads the Unix time of the bucket that `day` and `hour` name.
pub fn read_bucket(day: &str, hour: &str) -> (stamp: Option<i64>)
    ensures
        stamp matches Some(t) ==> bucket_stamp(day.spec_bytes(), hour.spec_bytes()) == Some(t as int),
        stamp is None ==> bucket_stamp(day.spec_bytes(), hour.spec_bytes()) is None,
{
    let d = day.as_bytes();
    if d.len() < 8 {
        return None;
    }
    let year = read_i32(slice_subrange(d, 0, 4));
    let month = read_u32(slice_subrange(d, 4, 6));
    let date = read_u32(slice_subrange(d, 6, 8));
    let h = read_u32(hour.as_bytes());
    match (year, month, date, h) {
        (Some(y), Some(m), Some(dd), Some(hh)) => hour_start(y, m, dd, hh),
        _ => None,
    }
}

impl Database {
    /// A store under the directory `source`.
    pub fn new(source: String) -> (db: Database)
        ensures
            db.source@ == source@,
    {
        Database { source }
    }

    /// Points the handle at another directory.
    pub fn set_source(&mut self, source: String) -> (done: Result<(), std::io::Error>)
        ensures
            done is Ok,
            final(self).source@ == source@,
    {
        self.source = source;
        Ok(())
    }

    /// The path of one bucket's file: the day's directory and the file in it.
    pub fn bucket_path(&self, table: &str, day: &str, hour: &str) -> (at: (String, String))
        ensures
            at.0@ == day_directory(self.source@, table@, day@),
            at.1@ == join(at.0@, hour@),
    {
        let root = join_path(self.source.as_str(), table);
        let directory = join_path(root.as_str(), day);
        let file = join_path(directory.as_str(), hour);
        (directory, file)
    }

    /// The append that puts `entry` into the bucket named by `path` (the
    /// day, as `YYYYMMDD`) and `file` (the hour). The record's id is the
    /// Unix time at which that hour starts. There is no append where the two
    /// names spell no hour.
    pub fn insert_at(&self, path: &str, file: &str, entry: Entry) -> (order: Option<Append>)
        ensures
            match bucket_stamp(path.spec_bytes(), file.spec_bytes()) {
                Some(t) => order matches Some(a) && {
                    &&& a.directory@ == day_directory(self.source@, entry.table@, path@)
                    &&& a.file@ == join(a.directory@, file@)
                    &&& a.bytes@ == wire_encode(stamp_id(t), entry.data@, crc32_ieee(entry.data@))
                },
                None => order is None,
            },
    {
        match read_bucket(path, file) {
            Some(t) => {
                let (directory, target) = self.bucket_path(entry.table.as_str(), path, file);
                let record = MpdRecordType::new(stamp_to_id(t), entry.data);
                Some(Append { directory, file: target, bytes: record.encode() })
            },
            None => None,
        }
    }

    /// The append that puts `entry` into the bucket of the moment `now`
    /// (Unix time). The record's id is `now`, cut down to 32 bits.
    pub fn insert(&self, entry: Entry, now: i64) -> (order: Append)
        ensures
            order.directory@ == day_directory(
                self.source@,
                entry.table@,
                utc_text(now as int, DATE_FORMAT@),
            ),
            order.file@ == join(order.directory@, utc_text(now as int, TIME_FORMAT@)),
            order.bytes@ == wire_encode(
                stamp_id(now as int),
                entry.data@,
                crc32_ieee(entry.data@),
            ),
    {
        let day = format_utc(now, DATE_FORMAT);
        let hour = format_utc(now, TIME_FORMAT);
        let (directory, target) = self.bucket_path(entry.table.as_str(), day.as_str(), hour.as_str());
        let record = MpdRecordType::new(stamp_to_id(now), entry.data);
        Append { directory, file: target, bytes: record.encode() }
    }

    /// A cursor over the records of `table` whose ids lie from `start_time`
    /// to `end_time`, both included.
    pub fn get_data(&self, table: String, start_time: u32, end_time: u32) -> (cursor: MyCursor)
        ensures
            cursor@ == Scan::fresh(self.source@, table@, start_time as int, end_time as int),
    {
        MyCursor::new(
            Database::new(self.source.clone()),
            table,
            Vec::new(),
            start_time as i64 - HOUR,
            start_time,
            end_time,
        )
    }

    /// Looks for a record by its date. The store keeps no index by date:
    /// nothing is looked up, and nothing changes.
    #[allow(unused_variables)]
    pub fn find_data(&self, date: &str) {
    }

    /// The path of the file that `source` names under the store's directory:
    /// the two texts, one after the other.
    pub fn find_file(&self, source: &str) -> (path: String)
        ensures
            path@ == self.source@ + source@,
    {
        let mut path = self.source.clone();
        path.append(source);
        path
    }

    /// The path of the partition file to remove: `source` under `table`.
    pub fn delete_file(&self, table: &str, source: &str) -> (path: String)
        ensures
            path@ == day_directory(self.source@, table@, source@),
    {
        let root = join_path(self.source.as_str(), table);
        join_path(root.as_str(), source)
    }
}

} // verus!

//! Range queries as they come in from the message transport, and the
//! batches in which their records go out.

use crate::cursor::{MyCursor, Scan};
use crate::database::Database;
use crate::digits::{parse_u32, read_u32};
use crate::record::{lemma_written_push, written, MpdRecordType, Record};
use vstd::prelude::*;
use vstd::string::*;
use vstd::utf8::encode_utf8;

verus! {

/// The number of records in a full batch.
pub const BATCH: usize = 50;

/// A request for the records of `table` from `start_ts` to `end_ts`.
#[derive(Debug)]
pub struct GetData {
    pub table: String,
    pub start_ts: u32,
    pub end_ts: u32,
}

/// What `rmp_serde::from_slice` gives when it is asked for one triple
/// `(String, u32, u32)` in `payload`; `None` where it fails.
pub uninterp spec fn wire_request(payload: Seq<u8>) -> Option<(Seq<char>, u32, u32)>;

/// Calls `rmp_serde::from_slice` for a triple of a text and two numbers,
/// which the deserializer reads from an array of three values, as it reads a
/// struct of those fields. The outcome depends on the bytes alone and is
/// named `wire_request`.
#[verifier::external_body]
fn from_request(payload: &[u8]) -> (request: Option<GetData>)
    ensures
        match request {
            Some(r) => wire_request(payload@) == Some((r.table@, r.start_ts, r.end_ts)),
            None => wire_request(payload@) is None,
        },
{
    let got: Result<(String, u32, u32), rmp_serde::decode::Error> = rmp_serde::from_slice(payload);
    match got {
        Ok((table, start_ts, end_ts)) => Some(GetData { table, start_ts, end_ts }),
        Err(_) => None,
    }
}

/// The text that `rmp_serde::from_slice` gives when it is asked for one
/// `String` in `payload`; `None` where it fails.
pub uninterp spec fn wire_text(payload: Seq<u8>) -> Option<Seq<char>>;

/// Calls `rmp_serde::from_slice` for a `String`. The outcome depends on the
/// bytes alone and is named `wire_text`.
#[verifier::external_body]
fn from_text(payload: &[u8]) -> (text: Option<String>)
    ensures
        match text {
            Some(t) => wire_text(payload@) == Some(t@),
            None => wire_text(payload@) is None,
        },
{
    let got: Result<String, rmp_serde::decode::Error> = rmp_serde::from_slice(payload);
    match got {
        Ok(text) => Some(text),
        Err(_) => None,
    }
}

/// `text` without the white space at its two ends, as `str::trim` cuts it.
pub uninterp spec fn trimmed(text: Seq<char>) -> Seq<char>;

/// `str::trim` hands back the part of the text between its leading and its
/// trailing white space; that part is named `trimmed`.
#[verifier::external_body]
fn trim(text: &str) -> (inner: &str)
    ensures
        inner@ == trimmed(text@),
{
    text.trim()
}

/// The number of entries that a message asks to have added: the message
/// holds one text, which spells the number, with white space around it or
/// without.
pub open spec fn amount(payload: Seq<u8>) -> Option<u32> {
    match wire_text(payload) {
        Some(text) => parse_u32(encode_utf8(trimmed(text))),
        None => None,
    }
}

/// Reads the number of entries that a message asks to have added.
pub fn read_amount(payload: &[u8]) -> (n: Option<u32>)
    ensures
        n == amount(payload@),
{
    match from_text(payload) {
        Some(text) => read_u32(trim(text.as_str()).as_bytes()),
        None => None,
    }
}

/// `String::leak` gives the string's buffer up for the rest of the process
/// and hands its text back unchanged.
#[verifier::external_body]
fn leak(s: String) -> (text: &'static str)
    ensures
        text@ == s@,
{
    s.leak()
}

/// Turns an owned string into one that lives as long as the process.
pub fn string_to_static_str(s: String) -> (text: &'static str)
    ensures
        text@ == s@,
{
    leak(s)
}

/// The cursor that answers `request`.
pub fn open(database: &Database, request: GetData) -> (cursor: MyCursor)
    ensures
        cursor@ == Scan::fresh(
            database.source@,
            request.table@,
            request.start_ts as int,
            request.end_ts as int,
        ),
{
    database.get_data(request.table, request.start_ts, request.end_ts)
}

/// Reads a request off a message, and opens the cursor that answers it. A
/// message that is no request opens none.
pub fn get_data(payload: &[u8], database: &Database) -> (cursor: Option<MyCursor>)
    ensures
        match wire_request(payload@) {
            Some((table, start, end)) => cursor matches Some(c) && c@ == Scan::fresh(
                database.source@,
                table,
                start as int,
                end as int,
            ),
            None => cursor is None,
        },
{
    match from_request(payload) {
        Some(request) => Some(open(database, request)),
        None => None,
    }
}

/// The batch that is being filled: the wire forms of the records taken so
/// far, one after the other, and their number.
#[derive(Debug)]
pub struct Batch {
    pub buf: Vec<u8>,
    pub count: usize,
}

/// A batch as a mathematical value.
pub struct Filling {
    pub bytes: Seq<u8>,
    pub count: nat,
}

impl View for Batch {
    type V = Filling;

    open spec fn view(&self) -> Filling {
        Filling { bytes: self.buf@, count: self.count as nat }
    }
}

impl Filling {
    /// The batch that holds nothing.
    pub open spec fn empty() -> Filling {
        Filling { bytes: Seq::empty(), count: 0 }
    }

    /// The batch after it has taken `record`, and the message that goes out
    /// on that: the whole batch, if `record` filled it.
    pub open spec fn push(self, record: Record) -> (Filling, Option<Seq<u8>>) {
        if self.count + 1 >= BATCH {
            (Filling::empty(), Some(self.bytes + record.wire()))
        } else {
            (Filling { bytes: self.bytes + record.wire(), count: self.count + 1 }, None)
        }
    }

    /// The messages that close the answer: the batch, if it holds any byte,
    /// and then the empty message.
    pub open spec fn finish(self) -> Seq<Seq<u8>> {
        if self.bytes.len() > 0 {
            seq![self.bytes, Seq::empty()]
        } else {
            seq![Seq::empty()]
        }
    }

    /// All the messages that go out when the batch takes `records` one by
    /// one and the answer is then closed.
    pub open spec fn sent(self, records: Seq<Record>) -> Seq<Seq<u8>>
        decreases records.len(),
    {
        if records.len() == 0 {
            self.finish()
        } else {
            let (next, message) = self.push(records[0]);
            match message {
                Some(m) => seq![m] + next.sent(records.skip(1)),
                None => next.sent(records.skip(1)),
            }
        }
    }
}

/// The answer to a query that finds `records`: the wire forms of each fifty
/// records in one message, then those of the records that are left, if
/// they come to any byte, then the empty message.
pub open spec fn pages(records: Seq<Record>) -> Seq<Seq<u8>>
    decreases records.len(),
{
    if records.len() >= BATCH {
        seq![written(records.take(BATCH as int))] + pages(records.skip(BATCH as int))
    } else if written(records).len() > 0 {
        seq![written(records), Seq::empty()]
    } else {
        seq![Seq::empty()]
    }
}

/// A batch that holds the wire forms of `held`, fewer than fifty records,
/// sends for `records` what answers `held` and then `records`.
proof fn lemma_sent(batch: Filling, held: Seq<Record>, records: Seq<Record>)
    requires
        batch.count == held.len() < BATCH,
        batch.bytes == written(held),
    ensures
        batch.sent(records) == pages(held + records),
    decreases records.len(),
{
    if records.len() == 0 {
        assert(held + records =~= held);
    } else {
        let record = records[0];
        let tail = records.skip(1);
        let (next, message) = batch.push(record);
        lemma_written_push(held, record);
        if batch.count + 1 >= BATCH {
            lemma_sent(next, Seq::empty(), tail);
            assert(Seq::<Record>::empty() + tail =~= tail);
            assert((held + records).take(BATCH as int) =~= held.push(record));
            assert((held + records).skip(BATCH as int) =~= tail);
        } else {
            lemma_sent(next, held.push(record), tail);
            assert(held.push(record) + tail =~= held + records);
        }
    }
}

/// The messages that go out for a query, when each record that the cursor
/// hands out is pushed and the batch is finished at the cursor's end, are
/// the pages of those records: full batches of fifty, the batch that is
/// left, and one empty message at the end.
pub proof fn batches_are_the_pages(records: Seq<Record>)
    ensures
        Filling::empty().sent(records) == pages(records),
{
    lemma_sent(Filling::empty(), Seq::empty(), records);
    assert(Seq::<Record>::empty() + records =~= records);
}

impl Batch {
    /// An empty batch.
    pub fn new() -> (batch: Batch)
        ensures
            batch@ == Filling::empty(),
    {
        Batch { buf: Vec::new(), count: 0 }
    }

    /// Takes one more record. When that fills the batch, the batch is
    /// handed out as a message and a new one begun.
    pub fn push(&mut self, record: &MpdRecordType) -> (message: Option<Vec<u8>>)
        ensures
            final(self)@ == old(self)@.push(record@).0,
            match message {
                Some(m) => old(self)@.push(record@).1 == Some(m@),
                None => old(self)@.push(record@).1 is None,
            },
    {
        let mut bytes = record.encode();
        self.buf.append(&mut bytes);
        if self.count >= BATCH - 1 {
            let mut message: Vec<u8> = Vec::new();
            message.append(&mut self.buf);
            self.count = 0;
            assert(message@ =~= old(self).buf@ + record@.wire());
            Some(message)
        } else {
            self.count = self.count + 1;
            None
        }
    }

    /// The messages that close the answer: the batch in hand, if it holds
    /// anything, and then the empty message that tells the end.
    pub fn finish(self) -> (messages: Vec<Vec<u8>>)
        ensures
            messages@.len() == self@.finish().len(),
            forall|i: int| 0 <= i < messages@.len() ==> (#[trigger] messages@[i])@ == self@.finish()[i],
    {
        let mut messages: Vec<Vec<u8>> = Vec::new();
        if self.buf.len() > 0 {
            messages.push(self.buf);
        }
        messages.push(Vec::new());
        messages
    }
}

} // verus!

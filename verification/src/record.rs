//! The stored record and its wire form.

use vstd::prelude::*;

verus! {

/// The atomic stored unit.
#[derive(Debug, PartialEq)]
pub struct MpdRecordType {
    /// Unix time, in seconds, at which the record belongs.
    pub id: u32,
    /// The payload, opaque to the store.
    pub datalog: Vec<u8>,
    /// CRC-32 of `datalog`, taken when the record was made.
    pub checksum: u32,
}

/// A record as a mathematical value.
pub struct Record {
    pub id: u32,
    pub datalog: Seq<u8>,
    pub checksum: u32,
}

impl View for MpdRecordType {
    type V = Record;

    open spec fn view(&self) -> Record {
        Record { id: self.id, datalog: self.datalog@, checksum: self.checksum }
    }
}

/// The CRC-32 (IEEE polynomial) of `data`, as `crc::crc32::checksum_ieee`
/// computes it.
pub uninterp spec fn crc32_ieee(data: Seq<u8>) -> u32;

/// `crc::crc32::checksum_ieee` runs the table-driven CRC-32 with the IEEE
/// polynomial over the bytes; its result depends on the bytes alone and is
/// named `crc32_ieee`.
pub assume_specification[ crc::crc32::checksum_ieee ](bytes: &[u8]) -> (sum: u32)
    ensures
        sum == crc32_ieee(bytes@),
;

impl Record {
    /// A record is intact when its checksum is that of its payload.
    pub open spec fn intact(self) -> bool {
        self.checksum == crc32_ieee(self.datalog)
    }
}

/// What reading one record off the front of a byte stream can give.
#[derive(Debug, PartialEq)]
pub enum Decoded {
    /// A whole record, which took the first `used` bytes.
    Record { record: MpdRecordType, used: usize },
    /// The stream ended where a value was due to start.
    End,
    /// The bytes are not a record.
    Anomaly,
}

/// `Decoded` as a mathematical value.
pub enum Decoding {
    Record { record: Record, used: nat },
    End,
    Anomaly,
}

impl View for Decoded {
    type V = Decoding;

    open spec fn view(&self) -> Decoding {
        match *self {
            Decoded::Record { record, used } => Decoding::Record { record: record@, used: used as nat },
            Decoded::End => Decoding::End,
            Decoded::Anomaly => Decoding::Anomaly,
        }
    }
}

/// The MessagePack bytes that `rmp_serde::to_vec` gives for the triple
/// `(id, datalog, checksum)`.
pub uninterp spec fn wire_encode(id: u32, datalog: Seq<u8>, checksum: u32) -> Seq<u8>;

/// What `rmp_serde`'s deserializer gives when it is asked for one triple
/// `(u32, Vec<u8>, u32)` at the front of `bytes`.
pub uninterp spec fn wire_decode(bytes: Seq<u8>) -> Decoding;

impl Record {
    /// The record's wire form.
    pub open spec fn wire(self) -> Seq<u8> {
        wire_encode(self.id, self.datalog, self.checksum)
    }
}

/// The wire forms of `records`, one after the other: what a partition file
/// holds after they were appended to it in this order.
pub open spec fn written(records: Seq<Record>) -> Seq<u8>
    decreases records.len(),
{
    if records.len() == 0 {
        Seq::empty()
    } else {
        records[0].wire() + written(records.skip(1))
    }
}

/// Appending one more wire form at the end puts it after the others.
pub proof fn lemma_written_push(records: Seq<Record>, record: Record)
    ensures
        written(records.push(record)) == written(records) + record.wire(),
    decreases records.len(),
{
    let all = records.push(record);
    if records.len() == 0 {
        assert(all.skip(1) =~= Seq::<Record>::empty());
        assert(all[0] == record);
        assert(written(all.skip(1)) =~= Seq::<u8>::empty());
        assert(written(all) =~= record.wire());
        assert(written(records) + record.wire() =~= record.wire());
    } else {
        assert(all.skip(1) =~= records.skip(1).push(record));
        assert(all[0] == records[0]);
        lemma_written_push(records.skip(1), record);
        assert(written(all) =~= written(records) + record.wire());
    }
}

/// Calls `rmp_serde::to_vec` on the triple of the record's fields. With its
/// default configuration the serializer writes a tuple exactly as it writes a
/// struct of the same fields: an array of three values. The bytes depend on
/// the fields alone and are named `wire_encode`; writing into a vector does
/// not fail.
#[verifier::external_body]
fn to_wire(id: u32, datalog: &Vec<u8>, checksum: u32) -> (bytes: Vec<u8>)
    ensures
        bytes@ == wire_encode(id, datalog@, checksum),
{
    match rmp_serde::to_vec(&(id, datalog, checksum)) {
        Ok(bytes) => bytes,
        Err(_) => Vec::new(),
    }
}

/// Runs a fresh `rmp_serde::Deserializer` over `bytes` and asks it for one
/// triple. The outcome depends on the bytes alone and is named `wire_decode`.
/// A failure to read the marker with which a value starts is reported as
/// `End`, any other failure as `Anomaly`. On success `used` is the position
/// that the deserializer's reader has come to.
#[verifier::external_body]
fn from_wire(bytes: &[u8]) -> (found: Decoded)
    ensures
        found@ == wire_decode(bytes@),
{
    let mut de = rmp_serde::Deserializer::new(std::io::Cursor::new(bytes));
    let got: Result<(u32, Vec<u8>, u32), rmp_serde::decode::Error> =
        serde::Deserialize::deserialize(&mut de);
    match got {
        Ok((id, datalog, checksum)) => Decoded::Record {
            record: MpdRecordType { id, datalog, checksum },
            used: de.position() as usize,
        },
        Err(rmp_serde::decode::Error::InvalidMarkerRead(_)) => Decoded::End,
        Err(_) => Decoded::Anomaly,
    }
}

impl MpdRecordType {
    /// Makes the record for `datalog` at time `id`, with its checksum.
    pub fn new(id: u32, datalog: Vec<u8>) -> (record: MpdRecordType)
        ensures
            record@ == (Record { id, datalog: datalog@, checksum: crc32_ieee(datalog@) }),
            record@.intact(),
    {
        let checksum = crc::crc32::checksum_ieee(datalog.as_slice());
        MpdRecordType { id, datalog, checksum }
    }

    /// The record's wire form: what is appended to a partition file.
    pub fn encode(&self) -> (bytes: Vec<u8>)
        ensures
            bytes@ == self@.wire(),
    {
        to_wire(self.id, &self.datalog, self.checksum)
    }

    /// Reads one record off the front of `bytes`.
    pub fn decode(bytes: &[u8]) -> (found: Decoded)
        ensures
            found@ == wire_decode(bytes@),
    {
        from_wire(bytes)
    }

    /// Recomputes the checksum of the payload and compares it with the stored one.
    pub fn is_intact(&self) -> (ok: bool)
        ensures
            ok == self@.intact(),
    {
        crc::crc32::checksum_ieee(self.datalog.as_slice()) == self.checksum
    }
}

} // verus!

//! From appends to scans: what a query gives for a table that was filled by
//! appends, where the wire form of a record reads back.

use crate::clock::hour_of;
use crate::cursor::Scan;
use crate::record::{lemma_written_push, written, Record};
use crate::volume::{
    appended_record_is_read, lemma_kept_all, lemma_stored_split, reaches_last_hour, reads_back,
    run, scan_keeps_the_stored_records, Volume,
};
use vstd::prelude::*;

verus! {

/// One append: the hour of the bucket, counted from the epoch, and the
/// record that goes into its file.
pub struct Insert {
    pub hour: int,
    pub record: Record,
}

impl Volume {
    /// A table without any file.
    pub open spec fn empty() -> Volume {
        Volume { days: Set::empty(), files: Map::empty() }
    }

    /// The table after `bytes` were appended to the file of hour `h`, which
    /// is made first, with its directory, if it is not there.
    pub open spec fn append(self, h: int, bytes: Seq<u8>) -> Volume {
        Volume {
            days: self.days.insert(h / 24),
            files: self.files.insert(
                h,
                if self.files.contains_key(h) {
                    self.files[h] + bytes
                } else {
                    bytes
                },
            ),
        }
    }
}

/// The table after the appends `inserts` were carried out in this order on
/// a table without any file.
pub open spec fn filled(inserts: Seq<Insert>) -> Volume
    decreases inserts.len(),
{
    if inserts.len() == 0 {
        Volume::empty()
    } else {
        filled(inserts.drop_last()).append(inserts.last().hour, inserts.last().record.wire())
    }
}

/// The records of `inserts`, in the order of the appends.
pub open spec fn records(inserts: Seq<Insert>) -> Seq<Record> {
    Seq::new(inserts.len(), |i: int| inserts[i].record)
}

/// Every file holds the wire forms of the records that are read off it, and
/// each of these reads back.
pub open spec fn sound(v: Volume) -> bool {
    forall|h: int| #[trigger]
        v.files.contains_key(h) ==> {
            &&& v.files[h] == written(v.hour(h))
            &&& forall|i: int| 0 <= i < v.hour(h).len() ==> reads_back(#[trigger] v.hour(h)[i])
        }
}

/// An append of a record's wire form to a sound table puts the record at
/// the end of those of its hour, leaves the other hours as they are, and
/// leaves the table sound and each file in the directory of its day.
proof fn lemma_append(v: Volume, h: int, record: Record)
    requires
        v.wf(),
        sound(v),
        reads_back(record),
    ensures
        v.append(h, record.wire()).wf(),
        sound(v.append(h, record.wire())),
        v.append(h, record.wire()).hour(h) == v.hour(h).push(record),
        forall|k: int| k != h ==> (#[trigger] v.append(h, record.wire()).hour(k)) == v.hour(k),
        forall|k: int|
            (#[trigger] v.append(h, record.wire()).files.contains_key(k)) ==> k == h
                || v.files.contains_key(k),
{
    let after = v.append(h, record.wire());
    let held = v.hour(h);
    appended_record_is_read(held, record);
    if !v.files.contains_key(h) {
        assert(written(held) + record.wire() =~= record.wire());
    }
    lemma_written_push(held, record);
    assert(after.hour(h) == held.push(record));
    assert forall|k: int| #[trigger] after.files.contains_key(k) implies {
        &&& after.files[k] == written(after.hour(k))
        &&& forall|i: int| 0 <= i < after.hour(k).len() ==> reads_back(#[trigger] after.hour(k)[i])
    } by {
        if k != h {
            assert(v.files.contains_key(k));
        }
    }
    assert forall|k: int| #[trigger] after.files.contains_key(k) implies after.days.contains(
        k / 24,
    ) by {
        if k != h {
            assert(v.files.contains_key(k));
        }
    }
}

/// What is stored in hours that hold no file is nothing.
proof fn lemma_stored_of_no_files(v: Volume, lo: int, hi: int)
    requires
        forall|h: int| lo <= h <= hi ==> !(#[trigger] v.files.contains_key(h)),
    ensures
        v.stored(lo, hi) == Seq::<Record>::empty(),
    decreases hi - lo + 1,
{
    if lo <= hi {
        lemma_stored_of_no_files(v, lo + 1, hi);
        assert(v.hour(lo) + v.stored(lo + 1, hi) =~= Seq::<Record>::empty());
    }
}

/// Two tables that hold the same records in each hour from `lo` to `hi`
/// have the same records stored there.
proof fn lemma_stored_same(v: Volume, w: Volume, lo: int, hi: int)
    requires
        forall|h: int| lo <= h <= hi ==> (#[trigger] v.hour(h)) == w.hour(h),
    ensures
        v.stored(lo, hi) == w.stored(lo, hi),
    decreases hi - lo + 1,
{
    if lo <= hi {
        lemma_stored_same(v, w, lo + 1, hi);
    }
}

/// A table filled by appends to buckets in rising order of their hours,
/// all from `lo` to `hi`, stores the records of the appends in their order.
proof fn lemma_filled(inserts: Seq<Insert>, lo: int, hi: int)
    requires
        forall|i: int| 0 <= i < inserts.len() ==> reads_back(#[trigger] inserts[i].record),
        forall|i: int| 0 <= i < inserts.len() ==> lo <= (#[trigger] inserts[i]).hour <= hi,
        forall|i: int, j: int| 0 <= i < j < inserts.len() ==> inserts[i].hour <= inserts[j].hour,
    ensures
        filled(inserts).wf(),
        sound(filled(inserts)),
        filled(inserts).stored(lo, hi) == records(inserts),
        forall|h: int| #[trigger]
            filled(inserts).files.contains_key(h) ==> inserts.len() > 0 && lo <= h
                <= inserts.last().hour,
    decreases inserts.len(),
{
    let v = filled(inserts);
    if inserts.len() == 0 {
        lemma_stored_of_no_files(v, lo, hi);
        assert(records(inserts) =~= Seq::<Record>::empty());
    } else {
        let before = inserts.drop_last();
        let last = inserts.last();
        let h = last.hour;
        let u = filled(before);
        assert forall|i: int| 0 <= i < before.len() implies reads_back(
            #[trigger] before[i].record,
        ) by {
            assert(before[i] == inserts[i]);
        }
        assert forall|i: int| 0 <= i < before.len() implies lo <= (#[trigger] before[i]).hour
            <= h by {
            assert(before[i] == inserts[i]);
        }
        assert forall|i: int, j: int| 0 <= i < j < before.len() implies before[i].hour
            <= before[j].hour by {
            assert(before[i] == inserts[i]);
            assert(before[j] == inserts[j]);
        }
        lemma_filled(before, lo, hi);
        lemma_append(u, h, last.record);
        assert forall|k: int| #[trigger] v.files.contains_key(k) implies lo <= k <= h by {
            if k != h {
                assert(u.files.contains_key(k));
                assert(before.last().hour <= h);
            }
        }
        // Before the append nothing is stored after hour `h`.
        assert forall|k: int| h + 1 <= k <= hi implies !(#[trigger] u.files.contains_key(k)) by {
            if u.files.contains_key(k) {
                assert(k <= before.last().hour);
                assert(before.last() == inserts[inserts.len() - 2]);
            }
        }
        lemma_stored_of_no_files(u, h + 1, hi);
        lemma_stored_same(v, u, lo, h - 1);
        lemma_stored_same(v, u, h + 1, hi);
        lemma_stored_split(u, lo, h, hi);
        lemma_stored_split(v, lo, h, hi);
        assert(records(inserts) =~= records(before).push(last.record));
        assert(v.stored(lo, hi) =~= u.stored(lo, hi).push(last.record));
    }
}

/// Let records be appended to the buckets of a table that had no file: each
/// record has its id in the range from `start` to `end`, each bucket's hour
/// lies between the hours of `start` and `end`, and no append goes to an
/// earlier hour than the one before it. (So two appends may go to one
/// bucket, and a record's id need not lie in the hour of its bucket.) Where
/// the wire form of each record reads back, a query for the range gives
/// exactly those records, in the order of their appends.
pub proof fn scan_gives_what_was_inserted(
    inserts: Seq<Insert>,
    source: Seq<char>,
    table: Seq<char>,
    start: int,
    end: int,
)
    requires
        forall|i: int| 0 <= i < inserts.len() ==> reads_back(#[trigger] inserts[i].record),
        forall|i: int| 0 <= i < inserts.len() ==> start <= (#[trigger] inserts[i]).record.id <= end,
        forall|i: int|
            0 <= i < inserts.len() ==> hour_of(start) <= (#[trigger] inserts[i]).hour <= hour_of(
                end,
            ),
        forall|i: int, j: int| 0 <= i < j < inserts.len() ==> inserts[i].hour <= inserts[j].hour,
        reaches_last_hour(filled(inserts), start, end),
    ensures
        run(Scan::fresh(source, table, start, end), filled(inserts)) == records(inserts),
{
    let v = filled(inserts);
    lemma_filled(inserts, hour_of(start), hour_of(end));
    scan_keeps_the_stored_records(v, source, table, start, end);
    lemma_kept_all(records(inserts), start, end);
}

} // verus!

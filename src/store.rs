use vstd::prelude::*;
use crate::text::{all_digits, decimal, decimal_value, find_char, find_char_exec, is_hex_char, lemma_decimal_round_trip, lemma_find_char_absent, push_decimal, read_decimal};

verus! {

/// Identifies a channel by its funding output: the funding transaction's id, as 64 hex
/// digits, and the output's index in it.
pub struct ChannelOutpoint {
    pub txid: String,
    pub index: u16,
}

/// The name of the file that holds the record of `txid`/`index`: `{txid}_{index}`.
pub open spec fn record_file_name(txid: Seq<char>, index: nat) -> Seq<char> {
    txid + seq!['_'] + decimal(index)
}

/// Whether `name` has the shape `{64 hex digits}_{index}` followed by nothing or by a '.'
/// and anything, with an index that fits in 16 bits; such a name is read back into the
/// outpoint that `record_of_file_name` gives.
pub open spec fn is_record_file_name(name: Seq<char>) -> bool {
    let end = find_char(name, '.', 65);
    &&& vstd::utf8::is_ascii_chars(name)
    &&& name.len() > 65
    &&& forall|i: int| 0 <= i < 64 ==> is_hex_char(#[trigger] name[i])
    &&& name[64] == '_'
    &&& all_digits(name.subrange(65, end))
    &&& decimal_value(name.subrange(65, end)) <= 0xffff
}

/// The transaction id and output index named by a record file name.
pub open spec fn record_of_file_name(name: Seq<char>) -> (Seq<char>, nat) {
    (name.subrange(0, 64), decimal_value(name.subrange(65, find_char(name, '.', 65))))
}

impl ChannelOutpoint {
    /// The name of the file that holds this channel's record.
    pub fn file_name(&self) -> (r: String)
        ensures
            r@ == record_file_name(self.txid@, self.index as nat),
    {
        let mut name = self.txid.clone();
        name.append("_");
        proof {
            reveal_strlit("_");
        }
        push_decimal(&mut name, self.index as u64);
        name
    }

    /// Reads the outpoint back out of a record file name, or `None` for a name of any other
    /// shape. Backup and temporary copies (`.bk`, `.tmp`) name their channel too.
    pub fn from_file_name(name: &str) -> (r: Option<ChannelOutpoint>)
        ensures
            r is Some <==> is_record_file_name(name@),
            r is Some ==> (r->0.txid@, r->0.index as nat) == record_of_file_name(name@),
    {
        if !name.is_ascii() {
            return None;
        }
        let len = name.unicode_len();
        if len <= 65 {
            return None;
        }
        let mut i: usize = 0;
        while i < 64
            invariant
                i <= 64 < len,
                len == name@.len(),
                forall|k: int| 0 <= k < i ==> is_hex_char(#[trigger] name@[k]),
            decreases 64 - i,
        {
            let c = name.get_char(i);
            if !(('0' <= c && c <= '9') || ('a' <= c && c <= 'f') || ('A' <= c && c <= 'F')) {
                return None;
            }
            i = i + 1;
        }
        if name.get_char(64) != '_' {
            return None;
        }
        let end = find_char_exec(name, len, '.', 65);
        match read_decimal(name, 65, end, 0xffff) {
            None => None,
            Some(index) => {
                let txid = name.substring_char(0, 64);
                Some(ChannelOutpoint { txid: txid.to_owned(), index: index as u16 })
            },
        }
    }
}


/// What the filesystem says of a channel's record file just before it is replaced.
#[derive(Clone, Copy, Debug, PartialEq, Eq, Structural)]
pub enum PriorFile {
    /// No such file: the first record of this channel.
    Missing,
    /// A regular file.
    Regular,
    /// Something that is not a regular file (a directory, say).
    NotAFile,
    /// Its metadata could not be read for another reason than its absence.
    Unreadable,
}

/// One filesystem operation of a record update. Every write is followed by an fsync of the
/// file written.
#[derive(Clone, Copy, Debug, PartialEq, Eq, Structural)]
pub enum StoreOp {
    /// Write the serialized record to `{file}.tmp`, then fsync it.
    WriteTemp,
    /// Copy `{file}` to `{file}.bk`, then fsync the copy.
    CopyToBackup,
    /// Rename `{file}.tmp` to `{file}`, then fsync `{file}`.
    RenameTempOverFile,
    /// Delete `{file}.bk`.
    RemoveBackup,
}

/// The store could not make the update durable; the channel must be treated as failed.
#[derive(Clone, Copy, Debug, PartialEq, Eq, Structural)]
pub enum StoreError {
    PermanentFailure,
}

/// The operations that replace a channel's record, in order: a backup is taken unless the
/// file is known to be absent, and a path that is not a regular file is refused.
pub open spec fn update_plan(prior: PriorFile) -> Result<Seq<StoreOp>, StoreError> {
    match prior {
        PriorFile::Missing => Ok(seq![StoreOp::WriteTemp, StoreOp::RenameTempOverFile]),
        PriorFile::NotAFile => Err(StoreError::PermanentFailure),
        _ => Ok(seq![
            StoreOp::WriteTemp,
            StoreOp::CopyToBackup,
            StoreOp::RenameTempOverFile,
            StoreOp::RemoveBackup,
        ]),
    }
}

/// The operations for `add_or_update` of one channel record, given the state of its file.
pub fn plan_add_or_update(prior: PriorFile) -> (r: Result<Vec<StoreOp>, StoreError>)
    ensures
        r is Ok == update_plan(prior) is Ok,
        r is Ok ==> r->Ok_0@ == update_plan(prior)->Ok_0,
        r is Err ==> r->Err_0 == update_plan(prior)->Err_0,
{
    match prior {
        PriorFile::Missing => Ok(vec![StoreOp::WriteTemp, StoreOp::RenameTempOverFile]),
        PriorFile::NotAFile => Err(StoreError::PermanentFailure),
        _ => Ok(vec![
            StoreOp::WriteTemp,
            StoreOp::CopyToBackup,
            StoreOp::RenameTempOverFile,
            StoreOp::RemoveBackup,
        ]),
    }
}

/// What one of the three files of a channel holds.
pub enum Slot {
    Absent,
    /// A complete, durable record.
    Whole(Seq<u8>),
    /// A partly written file.
    Torn,
}

/// The record file of one channel with its temporary and backup siblings.
pub struct DiskModel {
    pub main: Slot,
    pub temp: Slot,
    pub backup: Slot,
}

/// The files after `op` completed, `rec` being the record written.
pub open spec fn apply_op(d: DiskModel, op: StoreOp, rec: Seq<u8>) -> DiskModel {
    match op {
        StoreOp::WriteTemp => DiskModel { temp: Slot::Whole(rec), ..d },
        StoreOp::CopyToBackup => DiskModel { backup: d.main, ..d },
        StoreOp::RenameTempOverFile => DiskModel { main: d.temp, temp: Slot::Absent, ..d },
        StoreOp::RemoveBackup => DiskModel { backup: Slot::Absent, ..d },
    }
}

pub open spec fn apply_ops(d: DiskModel, ops: Seq<StoreOp>, rec: Seq<u8>) -> DiskModel
    decreases ops.len(),
{
    if ops.len() == 0 {
        d
    } else {
        apply_op(apply_ops(d, ops.drop_last(), rec), ops.last(), rec)
    }
}

/// Whether power loss in the middle of `op` may leave the files `d` as `after`: a write or
/// copy may leave its target in any state, a rename (atomic within one filesystem) has
/// happened or not, and a removal may not have happened.
pub open spec fn interrupted(d: DiskModel, op: StoreOp, after: DiskModel) -> bool {
    match op {
        StoreOp::WriteTemp => after.main == d.main && after.backup == d.backup,
        StoreOp::CopyToBackup => after.main == d.main && after.temp == d.temp,
        StoreOp::RenameTempOverFile => after.backup == d.backup && (
            (after.main == d.main && after.temp == d.temp)
            || (after.main == d.temp && after.temp is Absent)),
        StoreOp::RemoveBackup => after.main == d.main && after.temp == d.temp
            && (after.backup == d.backup || after.backup is Absent),
    }
}

/// What the filesystem reports of the record file in `d`.
pub open spec fn prior_of(d: DiskModel) -> PriorFile {
    if d.main is Absent { PriorFile::Missing } else { PriorFile::Regular }
}

/// The files after a complete `add_or_update` of `rec`.
pub open spec fn updated(d: DiskModel, rec: Seq<u8>) -> DiskModel {
    apply_ops(d, update_plan(prior_of(d))->Ok_0, rec)
}

/// Crash safety of an update: when the record file held `prev` complete, then after every
/// prefix of the update's operations, and after power loss in the middle of any of them, the
/// record file itself holds exactly `prev` or exactly the new record `rec`, never a partial
/// one; and from the fsync of the backup until its removal, the backup holds exactly `prev`.
pub proof fn lemma_update_crash_safe(
    d0: DiskModel,
    prev: Seq<u8>,
    rec: Seq<u8>,
    k: int,
    after: DiskModel,
)
    requires
        d0.main == Slot::Whole(prev),
        0 <= k < update_plan(prior_of(d0))->Ok_0.len(),
    ensures
        ({
            let done = apply_ops(d0, update_plan(prior_of(d0))->Ok_0.take(k), rec);
            &&& done.main == Slot::Whole(prev) || done.main == Slot::Whole(rec)
            &&& 2 <= k ==> done.backup == Slot::Whole(prev)
        }),
        updated(d0, rec).main == Slot::Whole(rec),
        interrupted(
            apply_ops(d0, update_plan(prior_of(d0))->Ok_0.take(k), rec),
            update_plan(prior_of(d0))->Ok_0[k],
            after,
        ) ==> (after.main == Slot::Whole(prev) || after.main == Slot::Whole(rec)),
{
    let plan = update_plan(prior_of(d0))->Ok_0;
    assert(plan.take(0).len() == 0);
    assert(plan.take(1).drop_last() =~= plan.take(0));
    assert(plan.take(2).drop_last() =~= plan.take(1));
    assert(plan.take(3).drop_last() =~= plan.take(2));
    assert(plan.take(4).drop_last() =~= plan.take(3));
    assert(plan.take(4) =~= plan);
    let d1 = apply_ops(d0, plan.take(1), rec);
    let d2 = apply_ops(d0, plan.take(2), rec);
    let d3 = apply_ops(d0, plan.take(3), rec);
    assert(d1 == DiskModel { temp: Slot::Whole(rec), ..d0 });
    assert(d2 == DiskModel { backup: Slot::Whole(prev), ..d1 });
    assert(d3 == DiskModel { main: Slot::Whole(rec), temp: Slot::Absent, ..d2 });
}

proof fn lemma_updated(d: DiskModel, rec: Seq<u8>)
    ensures
        updated(d, rec) == (if d.main is Absent {
            DiskModel { main: Slot::Whole(rec), temp: Slot::Absent, backup: d.backup }
        } else {
            DiskModel { main: Slot::Whole(rec), temp: Slot::Absent, backup: Slot::Absent }
        }),
{
    let plan = update_plan(prior_of(d))->Ok_0;
    if d.main is Absent {
        assert(plan.drop_last() =~= seq![StoreOp::WriteTemp]);
        assert(plan.drop_last().drop_last() =~= Seq::<StoreOp>::empty());
        let d1 = apply_ops(d, plan.drop_last(), rec);
        assert(d1 == DiskModel { temp: Slot::Whole(rec), ..d });
    } else {
        assert(plan.drop_last().drop_last().drop_last().drop_last() =~= Seq::<StoreOp>::empty());
        assert(plan.drop_last().drop_last().drop_last() =~= seq![StoreOp::WriteTemp]);
        assert(plan.drop_last().drop_last() =~= seq![StoreOp::WriteTemp, StoreOp::CopyToBackup]);
        assert(seq![StoreOp::WriteTemp].drop_last() =~= Seq::<StoreOp>::empty());
        let x1 = plan.drop_last().drop_last().drop_last();
        let d1 = apply_ops(d, x1, rec);
        assert(apply_ops(d, x1.drop_last(), rec) == d);
        assert(d1 == apply_op(apply_ops(d, x1.drop_last(), rec), x1.last(), rec));
        let d2 = apply_ops(d, plan.drop_last().drop_last(), rec);
        let d3 = apply_ops(d, plan.drop_last(), rec);
        assert(d1 == DiskModel { temp: Slot::Whole(rec), ..d });
        assert(d2 == DiskModel { backup: d.main, ..d1 });
        assert(d3 == DiskModel { main: Slot::Whole(rec), temp: Slot::Absent, ..d2 });
    }
}

/// Two complete updates of one channel, with `r1` then `r2`, leave its record file holding
/// `r2` and no temporary or backup file, whatever files the channel had before.
pub proof fn lemma_two_updates_leave_latest(d0: DiskModel, r1: Seq<u8>, r2: Seq<u8>)
    ensures
        updated(updated(d0, r1), r2) == (DiskModel {
            main: Slot::Whole(r2),
            temp: Slot::Absent,
            backup: Slot::Absent,
        }),
{
    lemma_updated(d0, r1);
    lemma_updated(updated(d0, r1), r2);
}


/// A record file name is read back into the outpoint it was written from.
pub proof fn lemma_record_name_round_trip(txid: Seq<char>, index: nat)
    requires
        txid.len() == 64,
        forall|i: int| 0 <= i < 64 ==> is_hex_char(#[trigger] txid[i]),
        index <= 0xffff,
    ensures
        is_record_file_name(record_file_name(txid, index)),
        record_of_file_name(record_file_name(txid, index)) == (txid, index),
{
    let name = record_file_name(txid, index);
    let digits = decimal(index);
    lemma_decimal_round_trip(index);
    assert(name.subrange(0, 64) =~= txid);
    assert(name.subrange(65, name.len() as int) =~= digits);
    assert(forall|i: int| 65 <= i < name.len() ==> name[i] == #[trigger] digits[i - 65]);
    assert forall|i: int| 65 <= i < name.len() implies name[i] != '.' by {
        assert(crate::text::is_digit(digits[i - 65]));
    }
    lemma_find_char_absent(name, '.', 65);
    assert forall|i: int| 0 <= i < name.len() implies '\0' <= #[trigger] name[i] <= '\u{7f}' by {
        if i < 64 {
            assert(name[i] == txid[i]);
            assert(is_hex_char(txid[i]));
        } else if i > 64 {
            assert(name[i] == digits[i - 65]);
            assert(crate::text::is_digit(digits[i - 65]));
        }
    }
    assert(forall|i: int| 0 <= i < 64 ==> name[i] == #[trigger] txid[i]);
}

/// One directory entry as seen by loading: the file name and, when the file could be read and
/// decoded, its contents.
pub open spec fn entry_view(e: (String, Option<Vec<u8>>)) -> (Seq<char>, Option<Seq<u8>>) {
    (e.0@, if e.1 is Some { Some(e.1->0@) } else { None })
}

/// The records that loading takes from a directory listing, in the listing's order: every
/// readable file whose name names a channel, with the transaction id and index of its name.
pub open spec fn records_in(listing: Seq<(Seq<char>, Option<Seq<u8>>)>) -> Seq<(Seq<char>, nat, Seq<u8>)>
    decreases listing.len(),
{
    if listing.len() == 0 {
        Seq::empty()
    } else {
        let rest = records_in(listing.drop_last());
        let name = listing.last().0;
        if is_record_file_name(name) && listing.last().1 is Some {
            rest.push((record_of_file_name(name).0, record_of_file_name(name).1, listing.last().1->0))
        } else {
            rest
        }
    }
}

/// A loaded record as plain values.
pub open spec fn record_view(r: (ChannelOutpoint, Vec<u8>)) -> (Seq<char>, nat, Seq<u8>) {
    (r.0.txid@, r.0.index as nat, r.1@)
}

/// Picks the channel records out of a directory listing; entries with another name, or that
/// could not be read, are skipped.
pub fn load_records(entries: Vec<(String, Option<Vec<u8>>)>) -> (r: Vec<(ChannelOutpoint, Vec<u8>)>)
    ensures
        r@.map_values(|x: (ChannelOutpoint, Vec<u8>)| record_view(x)) == records_in(
            entries@.map_values(|e: (String, Option<Vec<u8>>)| entry_view(e)),
        ),
{
    let ghost es = entries@.map_values(|e: (String, Option<Vec<u8>>)| entry_view(e));
    let n = entries.len();
    let mut entries = entries;
    let mut out: Vec<(ChannelOutpoint, Vec<u8>)> = Vec::new();
    let mut done: usize = 0;
    while entries.len() > 0
        invariant
            done + entries@.len() == n,
            es.len() == n,
            entries@.map_values(|e: (String, Option<Vec<u8>>)| entry_view(e)) =~= es.subrange(
                done as int,
                n as int,
            ),
            out@.map_values(|x: (ChannelOutpoint, Vec<u8>)| record_view(x)) =~= records_in(
                es.subrange(0, done as int),
            ),
        decreases entries.len(),
    {
        let ghost before = entries@;
        let (name, contents) = entries.remove(0);
        proof {
            assert(es.subrange(0, done + 1).drop_last() =~= es.subrange(0, done as int));
            assert(before.map_values(|e: (String, Option<Vec<u8>>)| entry_view(e))[0] == es[done as int]);
            assert(es.subrange(0, done + 1).last() == entry_view((name, contents)));
            assert(entries@ =~= before.subrange(1, before.len() as int));
            let bm = before.map_values(|e: (String, Option<Vec<u8>>)| entry_view(e));
            assert(forall|k: int| 0 <= k < bm.len() ==> #[trigger] bm[k] == es[done + k]);
            assert forall|k: int| 0 <= k < entries@.len() implies #[trigger] entry_view(entries@[k])
                == es[done + 1 + k] by {
                assert(entries@[k] == before[k + 1]);
                assert(bm[k + 1] == entry_view(before[k + 1]));
            }
            assert(entries@.map_values(|e: (String, Option<Vec<u8>>)| entry_view(e)) =~= es.subrange(
                done + 1,
                n as int,
            ));
        }
        match (ChannelOutpoint::from_file_name(name.as_str()), contents) {
            (Some(op), Some(bytes)) => {
                out.push((op, bytes));
            },
            _ => {},
        }
        done = done + 1;
    }
    assert(es.subrange(0, n as int) =~= es);
    out
}

/// The entry for one file of a channel in the disk model: none when absent, an unreadable
/// one when torn.
pub open spec fn slot_entry(name: Seq<char>, slot: Slot) -> Seq<(Seq<char>, Option<Seq<u8>>)> {
    match slot {
        Slot::Absent => Seq::empty(),
        Slot::Whole(b) => seq![(name, Some(b))],
        Slot::Torn => seq![(name, None)],
    }
}

/// The directory listing of one channel's files in the disk model.
pub open spec fn channel_listing(txid: Seq<char>, index: nat, d: DiskModel) -> Seq<(Seq<char>, Option<Seq<u8>>)> {
    let name = record_file_name(txid, index);
    slot_entry(name, d.main) + slot_entry(name + ".tmp"@, d.temp) + slot_entry(name + ".bk"@, d.backup)
}

/// After `add_or_update` with `r1` then `r2` on a channel, whatever files it had before,
/// loading its directory gives one record: the channel's outpoint with `r2`.
pub proof fn lemma_load_after_two_updates(txid: Seq<char>, index: u16, d0: DiskModel, r1: Seq<u8>, r2: Seq<u8>)
    requires
        txid.len() == 64,
        forall|i: int| 0 <= i < 64 ==> is_hex_char(#[trigger] txid[i]),
    ensures
        records_in(channel_listing(txid, index as nat, updated(updated(d0, r1), r2)))
            == seq![(txid, index as nat, r2)],
{
    lemma_two_updates_leave_latest(d0, r1, r2);
    lemma_record_name_round_trip(txid, index as nat);
    let name = record_file_name(txid, index as nat);
    let listing = channel_listing(txid, index as nat, updated(updated(d0, r1), r2));
    assert(listing =~= seq![(name, Some(r2))]);
    assert(listing.drop_last() =~= Seq::<(Seq<char>, Option<Seq<u8>>)>::empty());
    assert(records_in(listing.drop_last()) == Seq::<(Seq<char>, nat, Seq<u8>)>::empty());
    assert(records_in(listing) =~= seq![(txid, index as nat, r2)]);
}

} // verus!

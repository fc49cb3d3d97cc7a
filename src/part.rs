//! Parts: fixed-capacity shards of a table, each mirrored by one file.

use vstd::prelude::*;
use crate::cell::{Cell, CellValue, Payload};
use crate::conditional::{conditions_view, Condition, ConditionModel};
use crate::record::{first_named, records_view, satisfies_all, Record, RecordModel};
use crate::storage::{removes_file, writes_part, writes_text, StorageAction};
use crate::text::{digits, render_radix};

verus! {

/// The capacity hint that parts are made with.
pub const PART_SIZE: u16 = 4096;

/// The primary key that a record's first column holds, if it is a present
/// `ULong`.
pub open spec fn leading_key(r: RecordModel) -> Option<u128> {
    if r.len() > 0 {
        match r[0].1 {
            Payload::ULong(Some(k)) => Some(k),
            _ => None,
        }
    } else {
        None
    }
}

/// The keys of the records, in order, skipping records without one.
pub open spec fn key_range_of(rs: Seq<RecordModel>) -> Seq<u128>
    decreases rs.len(),
{
    if rs.len() == 0 {
        Seq::empty()
    } else {
        let prev = key_range_of(rs.drop_last());
        match leading_key(rs.last()) {
            Some(k) => prev.push(k),
            None => prev,
        }
    }
}

/// The records that satisfy every condition, in order.
pub open spec fn matching(rs: Seq<RecordModel>, cs: Seq<ConditionModel>) -> Seq<RecordModel>
    decreases rs.len(),
{
    if rs.len() == 0 {
        Seq::empty()
    } else {
        let prev = matching(rs.drop_last(), cs);
        if satisfies_all(rs.last(), cs) {
            prev.push(rs.last())
        } else {
            prev
        }
    }
}

/// The records that fail some condition, in order.
pub open spec fn not_matching(rs: Seq<RecordModel>, cs: Seq<ConditionModel>) -> Seq<RecordModel>
    decreases rs.len(),
{
    if rs.len() == 0 {
        Seq::empty()
    } else {
        let prev = not_matching(rs.drop_last(), cs);
        if satisfies_all(rs.last(), cs) {
            prev
        } else {
            prev.push(rs.last())
        }
    }
}

/// The file name of part `index`: `p` and the index in upper-case hex.
pub open spec fn part_name(index: nat) -> Seq<char> {
    seq!['p'] + digits(index, 16)
}

/// The path of the file of part `index` in directory `dir`.
pub open spec fn part_path(dir: Seq<char>, index: nat) -> Seq<char> {
    dir + seq!['/'] + part_name(index)
}

/// The file name of part `index`.
pub fn part_file_name(index: usize) -> (r: String)
    ensures
        r@ == part_name(index as nat),
{
    proof {
        reveal_strlit("p");
        assert("p"@ =~= seq!['p']);
    }
    let mut name = String::from_str("p");
    let hex = render_radix(index as u128, 16);
    name.append(hex.as_str());
    name
}

/// The key that the indexer column gives a record, if the record holds a
/// present `ULong` under the indexer's name.
pub open spec fn indexer_key(r: RecordModel, indexer: Cell) -> Option<u128> {
    match indexer {
        Cell::CellDef { ctype, .. } => match first_named(r, ctype@.0) {
            Some(cell) => match cell.1 {
                Payload::ULong(Some(k)) => Some(k),
                _ => None,
            },
            None => None,
        },
        _ => None,
    }
}

/// Why a record cannot be placed under an indexer.
pub open spec fn indexer_error(r: RecordModel, indexer: Cell) -> Seq<char> {
    match indexer {
        Cell::CellDef { ctype, .. } => match first_named(r, ctype@.0) {
            Some(cell) => match cell.1 {
                Payload::ULong(_) => "submitted table index is None"@,
                _ => "table indexer was not correct type of ULong"@,
            },
            None => "table indexer could not find matching name on record"@,
        },
        _ => "table indexer was not correct type"@,
    }
}

/// The path of the file of part `index` in `directory`.
pub fn part_location(directory: &str, index: usize) -> (r: String)
    ensures
        r@ == part_path(directory@, index as nat),
{
    let mut path = String::from_str(directory);
    proof {
        reveal_strlit("/");
        assert("/"@ =~= seq!['/']);
    }
    path.append("/");
    let file = part_file_name(index);
    path.append(file.as_str());
    assert(path@ =~= part_path(directory@, index as nat));
    path
}

/// A copy of a list of records.
pub fn copy_records(v: &Vec<Record>) -> (r: Vec<Record>)
    ensures
        records_view(r@) == records_view(v@),
{
    let mut r: Vec<Record> = Vec::new();
    let mut i: usize = 0;
    while i < v.len()
        invariant
            i <= v.len(),
            r@.len() == i,
            forall|k: int| 0 <= k < i ==> (#[trigger] r@[k])@ == v@[k]@,
        decreases v.len() - i,
    {
        r.push(v[i].duplicate());
        i = i + 1;
    }
    assert(records_view(r@) =~= records_view(v@));
    r
}

/// The keys of a list of records, as `key_range_of` gives them.
pub fn derive_key_range(v: &Vec<Record>) -> (r: Vec<u128>)
    ensures
        r@ == key_range_of(records_view(v@)),
{
    let ghost rs = records_view(v@);
    let mut r: Vec<u128> = Vec::new();
    let mut i: usize = 0;
    while i < v.len()
        invariant
            i <= v.len(),
            rs == records_view(v@),
            r@ == key_range_of(rs.subrange(0, i as int)),
        decreases v.len() - i,
    {
        proof {
            assert(rs.subrange(0, i + 1).drop_last() =~= rs.subrange(0, i as int));
            assert(rs.subrange(0, i + 1).last() == v@[i as int]@);
        }
        let rec = &v[i];
        if rec.columns.len() > 0 {
            match &rec.columns[0] {
                CellValue::ULong { data: Some(k), .. } => r.push(*k),
                _ => {},
            }
        }
        i = i + 1;
    }
    assert(rs.subrange(0, v@.len() as int) =~= rs);
    r
}

/// A shard of a table: the records of one file and their keys.
pub struct Part {
    pub index: u32,
    pub size: u16,
    pub full: bool,
    /// Path of the part's file.
    pub directory: String,
    pub key_range: Vec<u128>,
    pub records: Vec<Record>,
}

impl Part {
    /// The records as mathematical values.
    pub open spec fn records_model(&self) -> Seq<RecordModel> {
        records_view(self.records@)
    }

    /// A new empty part whose file is `p<index in hex>` in `directory`; the
    /// plan gains the creation of that file, empty.
    pub fn new(directory: &str, index: usize, size: u16, plan: &mut Vec<StorageAction>) -> (r: Part)
        requires
            index <= u32::MAX,
        ensures
            r.index == index,
            r.size == size,
            !r.full,
            r.directory@ == part_path(directory@, index as nat),
            r.key_range@.len() == 0,
            r.records@.len() == 0,
            final(plan)@ == old(plan)@.push(final(plan)@.last()),
            writes_text(final(plan)@.last(), part_path(directory@, index as nat), Seq::empty()),
    {
        let path = part_location(directory, index);
        let ghost before = plan@;
        plan.push(StorageAction::WriteText(path.clone(), String::new()));
        assert(plan@ =~= before.push(plan@.last()));
        Part {
            index: index as u32,
            size,
            full: false,
            directory: path,
            key_range: Vec::new(),
            records: Vec::new(),
        }
    }

    /// A part whose file at `path` held `records`; its keys are derived
    /// from them.
    pub fn load_from_dir(path: String, size: u16, index: u32, records: Vec<Record>) -> (r: Part)
        ensures
            r.index == index,
            r.size == size,
            !r.full,
            r.directory@ == path@,
            r.records_model() == records_view(records@),
            r.key_range@ == key_range_of(records_view(records@)),
    {
        let key_range = derive_key_range(&records);
        Part { index, size, full: false, directory: path, key_range, records }
    }

    /// Replaces the records with those read again from the file, and derives
    /// the keys anew.
    pub fn reload(&mut self, records: Vec<Record>) -> (r: Result<String, String>)
        ensures
            final(self).records_model() == records_view(records@),
            final(self).key_range@ == key_range_of(records_view(records@)),
            final(self).index == old(self).index,
            final(self).size == old(self).size,
            final(self).full == old(self).full,
            final(self).directory == old(self).directory,
            r == Ok::<String, String>(r->Ok_0),
            r->Ok_0@ == "reloaded successully"@,
    {
        self.key_range = derive_key_range(&records);
        self.records = records;
        Ok(String::from_str("reloaded successully"))
    }

    /// The action that writes the records to the part's file.
    pub fn save(&self) -> (r: StorageAction)
        ensures
            writes_part(r, self.directory@, self.records_model()),
    {
        StorageAction::WritePart(self.directory.clone(), copy_records(&self.records))
    }

    /// The action that removes the part's file.
    pub fn delete(&self) -> (r: StorageAction)
        ensures
            removes_file(r, self.directory@),
    {
        StorageAction::RemoveFile(self.directory.clone())
    }

    /// Clears the records held in memory; the file is left alone.
    pub fn empty(&mut self) -> (r: Result<String, String>)
        ensures
            final(self).records@.len() == 0,
            final(self).key_range@.len() == 0,
            final(self).index == old(self).index,
            final(self).directory == old(self).directory,
            final(self).full == old(self).full,
            final(self).size == old(self).size,
            r == Ok::<String, String>(r->Ok_0),
            r->Ok_0@ == "records successully cleared from in memory part"@,
    {
        self.records = Vec::new();
        self.key_range = Vec::new();
        Ok(String::from_str("records successully cleared from in memory part"))
    }

    /// Copies of the records that satisfy every condition, in order.
    pub fn query_search_columns(&self, conditions: &Vec<Condition>) -> (r: Vec<Record>)
        ensures
            records_view(r@) == matching(self.records_model(), conditions_view(conditions@)),
    {
        let ghost rs = self.records_model();
        let ghost cs = conditions_view(conditions@);
        let mut r: Vec<Record> = Vec::new();
        let mut i: usize = 0;
        while i < self.records.len()
            invariant
                i <= self.records.len(),
                rs == self.records_model(),
                cs == conditions_view(conditions@),
                records_view(r@) == matching(rs.subrange(0, i as int), cs),
            decreases self.records.len() - i,
        {
            proof {
                assert(rs.subrange(0, i + 1).drop_last() =~= rs.subrange(0, i as int));
                assert(rs.subrange(0, i + 1).last() == self.records@[i as int]@);
            }
            if self.records[i].query_check_all(conditions) {
                let c = self.records[i].duplicate();
                r.push(c);
                proof {
                    assert(records_view(r@) =~= records_view(r@.drop_last()).push(c@));
                }
            }
            i = i + 1;
        }
        assert(rs.subrange(0, rs.len() as int) =~= rs);
        r
    }

    /// Appends a record whose indexer column holds a present `ULong`, adds
    /// that key to the key range, and plans the save of the part. Any other
    /// record is refused and nothing changes.
    pub fn query_create_record(
        &mut self,
        record: Record,
        table_indexer: &Cell,
        plan: &mut Vec<StorageAction>,
    ) -> (r: Result<String, String>)
        ensures
            match indexer_key(record@, *table_indexer) {
                Some(k) => {
                    &&& final(self).records_model() == old(self).records_model().push(record@)
                    &&& final(self).key_range@ == old(self).key_range@.push(k)
                    &&& final(self).index == old(self).index
                    &&& final(self).directory == old(self).directory
                    &&& final(self).full == old(self).full
                    &&& final(self).size == old(self).size
                    &&& final(plan)@.len() == old(plan)@.len() + 1
                    &&& final(plan)@.subrange(0, old(plan)@.len() as int) == old(plan)@
                    &&& writes_part(final(plan)@.last(), old(self).directory@, final(self).records_model())
                    &&& r is Ok && r->Ok_0@ == "record created"@
                },
                None => {
                    &&& *final(self) == *old(self)
                    &&& *final(plan) == *old(plan)
                    &&& r is Err && r->Err_0@ == indexer_error(record@, *table_indexer)
                },
            },
    {
        let key: Result<u128, String> = match table_indexer {
            Cell::CellDef { ctype, .. } => match record.find_column(ctype.name()) {
                Some(i) => match &record.columns[i] {
                    CellValue::ULong { data: Some(k), .. } => Ok(*k),
                    CellValue::ULong { data: None, .. } => Err(String::from_str("submitted table index is None")),
                    _ => Err(String::from_str("table indexer was not correct type of ULong")),
                },
                None => Err(String::from_str("table indexer could not find matching name on record")),
            },
            _ => Err(String::from_str("table indexer was not correct type")),
        };
        match key {
            Ok(k) => {
                self.key_range.push(k);
                let ghost before = self.records@;
                self.records.push(record);
                assert(records_view(self.records@) =~= records_view(before).push(self.records@.last()@));
                let ghost old_plan = plan@;
                plan.push(self.save());
                assert(plan@.subrange(0, old_plan.len() as int) =~= old_plan);
                Ok(String::from_str("record created"))
            },
            Err(e) => Err(e),
        }
    }

    /// Drops the records that satisfy every condition, keeping the others in
    /// order, and reports whether any was dropped. The file is not written.
    pub fn query_delete_records(&mut self, conditions: &Vec<Condition>) -> (r: Result<String, String>)
        ensures
            final(self).records_model() == not_matching(old(self).records_model(), conditions_view(conditions@)),
            final(self).key_range@ == key_range_of(final(self).records_model()),
            final(self).index == old(self).index,
            final(self).directory == old(self).directory,
            final(self).full == old(self).full,
            final(self).size == old(self).size,
            r is Ok,
            r->Ok_0@ == if final(self).records@.len() == old(self).records@.len() {
                "no matching records found or deleted"@
            } else {
                "matching records found and deleted successfully"@
            },
    {
        let ghost rs = self.records_model();
        let ghost cs = conditions_view(conditions@);
        let mut kept: Vec<Record> = Vec::new();
        let mut i: usize = 0;
        while i < self.records.len()
            invariant
                i <= self.records.len(),
                rs == self.records_model(),
                cs == conditions_view(conditions@),
                records_view(kept@) == not_matching(rs.subrange(0, i as int), cs),
            decreases self.records.len() - i,
        {
            proof {
                assert(rs.subrange(0, i + 1).drop_last() =~= rs.subrange(0, i as int));
                assert(rs.subrange(0, i + 1).last() == self.records@[i as int]@);
            }
            if !self.records[i].query_check_all(conditions) {
                let c = self.records[i].duplicate();
                kept.push(c);
                proof {
                    assert(records_view(kept@) =~= records_view(kept@.drop_last()).push(c@));
                }
            }
            i = i + 1;
        }
        assert(rs.subrange(0, rs.len() as int) =~= rs);
        let before = self.records.len();
        self.key_range = derive_key_range(&kept);
        self.records = kept;
        if before == self.records.len() {
            Ok(String::from_str("no matching records found or deleted"))
        } else {
            Ok(String::from_str("matching records found and deleted successfully"))
        }
    }
}

} // verus!

//! Tables: a schema and an ordered list of parts.

use vstd::prelude::*;
use crate::cell::{copy_cells, fk_view, opt_str_view, typed_payload, typed_value, Cell};
use crate::conditional::{conditions_view, Condition, ConditionModel};
use crate::part::{
    indexer_error, indexer_key, copy_records, key_range_of, matching, not_matching, part_file_name,
    part_location, part_name, part_path, Part,
    PART_SIZE,
};
use crate::record::{records_view, Record, RecordModel};
use crate::storage::{
    creates_dir, removes_dir, removes_file, writes_part, writes_table_def, writes_text, StorageAction,
};
use crate::text::same_text;

verus! {

/// A column as a create-table request gives it: name, type token, default
/// text, not-null flag, unique flag, and foreign key `(table, column)`.
pub type ColumnSpec = (String, String, Option<String>, bool, bool, Option<(String, String)>);

/// A column spec as a mathematical value.
pub type ColumnModel = (Seq<char>, Seq<char>, Option<Seq<char>>, bool, bool, Option<(Seq<char>, Seq<char>)>);

pub open spec fn column_view(c: ColumnSpec) -> ColumnModel {
    (c.0@, c.1@, opt_str_view(c.2), c.3, c.4, fk_view(c.5))
}

pub open spec fn columns_view(cs: Seq<ColumnSpec>) -> Seq<ColumnModel> {
    cs.map_values(|c: ColumnSpec| column_view(c))
}

/// Whether `c` is the definition that column `s` gives at position `i`.
pub open spec fn defines_column(c: Cell, i: int, s: ColumnModel) -> bool {
    match c {
        Cell::CellDef { name, index, ctype, default, not_null, unique, primary_key, foreign_key } => {
            &&& name@ == s.0
            &&& index as int == i
            &&& ctype@ == (s.0, typed_payload(s.1, s.2))
            &&& default == s.2.is_some()
            &&& not_null == s.3
            &&& unique == s.4
            &&& primary_key == (i == 0)
            &&& fk_view(foreign_key) == s.5
        },
        _ => false,
    }
}

/// The text after the last `/` of a path (all of it when there is none).
pub open spec fn last_segment(s: Seq<char>) -> Seq<char>
    decreases s.len(),
{
    if s.len() == 0 {
        s
    } else if s.last() == '/' {
        Seq::empty()
    } else {
        last_segment(s.drop_last()).push(s.last())
    }
}

/// The path of a table's definition file.
pub open spec fn def_path(dir: Seq<char>) -> Seq<char> {
    dir + seq!['/', '.', 'd', 'e', 'f']
}

/// The records read from the entry of that name, if one was read.
pub open spec fn entry_named(entries: Seq<(String, Vec<Record>)>, name: Seq<char>) -> Option<Seq<RecordModel>>
    decreases entries.len(),
{
    if entries.len() == 0 {
        None
    } else if entries[0].0@ == name {
        Some(records_view(entries[0].1@))
    } else {
        entry_named(entries.drop_first(), name)
    }
}

/// All records that satisfy every condition, part after part.
pub open spec fn matching_in_parts(ps: Seq<Seq<RecordModel>>, cs: Seq<ConditionModel>) -> Seq<RecordModel>
    decreases ps.len(),
{
    if ps.len() == 0 {
        Seq::empty()
    } else {
        matching_in_parts(ps.drop_last(), cs) + matching(ps.last(), cs)
    }
}

/// The column definitions that a list of column specs gives.
pub fn column_definitions(columns: &Vec<ColumnSpec>) -> (r: Vec<Cell>)
    requires
        columns@.len() <= 65536,
    ensures
        r@.len() == columns@.len(),
        forall|i: int| 0 <= i < r@.len() ==> defines_column(#[trigger] r@[i], i, column_view(columns@[i])),
{
    let mut r: Vec<Cell> = Vec::new();
    let mut i: usize = 0;
    while i < columns.len()
        invariant
            i <= columns.len(),
            columns@.len() <= 65536,
            r@.len() == i,
            forall|k: int| 0 <= k < i ==> defines_column(#[trigger] r@[k], k, column_view(columns@[k])),
        decreases columns.len() - i,
    {
        let spec = &columns[i];
        let ctype = typed_value(&spec.0, spec.1.as_str(), &spec.2);
        let foreign_key = match &spec.5 {
            Some((t, c)) => Some((t.clone(), c.clone())),
            None => None,
        };
        r.push(Cell::CellDef {
            name: spec.0.clone(),
            index: i as u16,
            ctype,
            default: spec.2.is_some(),
            not_null: spec.3,
            unique: spec.4,
            primary_key: i == 0,
            foreign_key,
        });
        i = i + 1;
    }
    r
}

/// The text after the last `/` of a path.
pub fn path_tail(s: &str) -> (r: String)
    ensures
        r@ == last_segment(s@),
{
    let n = s.unicode_len();
    let mut start: usize = 0;
    let mut i: usize = 0;
    while i < n
        invariant
            n == s@.len(),
            start <= i <= n,
            last_segment(s@.subrange(0, i as int)) == s@.subrange(start as int, i as int),
        decreases n - i,
    {
        let c = s.get_char(i);
        proof {
            assert(s@.subrange(0, i + 1).drop_last() =~= s@.subrange(0, i as int));
            assert(s@.subrange(0, i + 1).last() == c);
        }
        if c == '/' {
            start = i + 1;
            assert(s@.subrange(start as int, i + 1) =~= Seq::<char>::empty());
        } else {
            assert(s@.subrange(start as int, i + 1) =~= s@.subrange(start as int, i as int).push(c));
        }
        i = i + 1;
    }
    assert(s@.subrange(0, n as int) =~= s@);
    String::from_str(s.substring_char(start, n))
}

/// Whether a table's parts are those read from its directory: `p0`, `p1`,
/// ... in order, each with the records of its file and the keys derived
/// from them, up to the first index without a file.
pub open spec fn parts_rebuilt(r: Table, dir: Seq<char>, entries: Seq<(String, Vec<Record>)>) -> bool {
    &&& forall|k: int| 0 <= k < r.records@.len() ==> {
        &&& entry_named(entries, part_name(k as nat)) == Some((#[trigger] r.records@[k]).records_model())
        &&& r.records@[k].index == k
        &&& r.records@[k].directory@ == part_path(dir, k as nat)
        &&& r.records@[k].key_range@ == key_range_of(r.records@[k].records_model())
    }
    &&& (r.records@.len() == entries.len() || entry_named(entries, part_name(r.records@.len() as nat)) is None)
}

/// The position of the first part that is not full (the count of parts
/// when all are full).
pub open spec fn first_open(parts: Seq<Part>) -> int
    decreases parts.len(),
{
    if parts.len() == 0 {
        0
    } else if !parts[0].full {
        0
    } else {
        1 + first_open(parts.drop_first())
    }
}

/// The records that the indexer gives a key, in order.
pub open spec fn accepted(rs: Seq<RecordModel>, ix: Cell) -> Seq<RecordModel>
    decreases rs.len(),
{
    if rs.len() == 0 {
        Seq::empty()
    } else if indexer_key(rs.last(), ix) is Some {
        accepted(rs.drop_last(), ix).push(rs.last())
    } else {
        accepted(rs.drop_last(), ix)
    }
}

/// The keys of the accepted records, in order.
pub open spec fn accepted_keys(rs: Seq<RecordModel>, ix: Cell) -> Seq<u128>
    decreases rs.len(),
{
    if rs.len() == 0 {
        Seq::empty()
    } else {
        match indexer_key(rs.last(), ix) {
            Some(k) => accepted_keys(rs.drop_last(), ix).push(k),
            None => accepted_keys(rs.drop_last(), ix),
        }
    }
}

/// Why the last refused record was refused, if any was.
pub open spec fn last_refusal(rs: Seq<RecordModel>, ix: Cell) -> Option<Seq<char>>
    decreases rs.len(),
{
    if rs.len() == 0 {
        None
    } else if indexer_key(rs.last(), ix) is None {
        Some(indexer_error(rs.last(), ix))
    } else {
        last_refusal(rs.drop_last(), ix)
    }
}

/// What placing records does to a table with columns: each record whose
/// primary-key column holds a present `ULong` is appended to the first part
/// that is not full (a new part when all are full), its key to that part's
/// key range; the last write planned is that part with its final records;
/// the result reports the last refusal, if any.
pub open spec fn records_created(
    old_t: Table,
    new_t: Table,
    rs: Seq<RecordModel>,
    old_plan: Vec<StorageAction>,
    new_plan: Vec<StorageAction>,
    r: Result<String, String>,
) -> bool {
    &&& records_placed(old_t, new_t, rs, old_plan, new_plan)
    &&& match last_refusal(rs, old_t.column_definition@[0]) {
        None => r is Ok && r->Ok_0@ == "records created"@,
        Some(e) => r is Err && r->Err_0@ == e,
    }
}

/// The change to the table and the plan that placing records makes.
pub open spec fn records_placed(
    old_t: Table,
    new_t: Table,
    rs: Seq<RecordModel>,
    old_plan: Vec<StorageAction>,
    new_plan: Vec<StorageAction>,
) -> bool {
    let ix = old_t.column_definition@[0];
    let t = first_open(old_t.records@);
    let n = old_t.records@.len() as int;
    let grown = t == n && rs.len() > 0;
    &&& new_t.name == old_t.name
    &&& new_t.directory == old_t.directory
    &&& new_t.auto_increment == old_t.auto_increment
    &&& new_t.column_definition == old_t.column_definition
    &&& new_plan@.subrange(0, old_plan@.len() as int) == old_plan@
    &&& new_t.records@.len() == if grown { n + 1 } else { n }
    &&& forall|j: int| 0 <= j < n && j != t ==> #[trigger] new_t.records@[j] == old_t.records@[j]
    &&& t < n ==> {
        &&& new_t.records@[t].records_model() == old_t.records@[t].records_model() + accepted(rs, ix)
        &&& new_t.records@[t].key_range@ == old_t.records@[t].key_range@ + accepted_keys(rs, ix)
        &&& new_t.records@[t].directory == old_t.records@[t].directory
        &&& new_t.records@[t].index == old_t.records@[t].index
        &&& new_t.records@[t].full == old_t.records@[t].full
    }
    &&& grown ==> {
        &&& new_t.records@[t].records_model() == accepted(rs, ix)
        &&& new_t.records@[t].key_range@ == accepted_keys(rs, ix)
        &&& new_t.records@[t].directory@ == part_path(old_t.directory@, t as nat)
        &&& new_t.records@[t].index == t
        &&& new_t.records@[t].size == PART_SIZE
        &&& !new_t.records@[t].full
    }
    &&& accepted(rs, ix).len() > 0 ==> writes_part(
        new_plan@.last(),
        new_t.records@[t].directory@,
        new_t.records@[t].records_model(),
    )
}

/// What deleting the records that satisfy `cs` does: every part keeps the
/// records that fail some condition, and its save is planned, part after
/// part.
pub open spec fn records_deleted(
    old_t: Table,
    new_t: Table,
    cs: Seq<ConditionModel>,
    old_plan: Vec<StorageAction>,
    new_plan: Vec<StorageAction>,
) -> bool {
    &&& new_t.records@.len() == old_t.records@.len()
    &&& forall|k: int| 0 <= k < old_t.records@.len() ==> {
        &&& (#[trigger] new_t.records@[k]).records_model() == not_matching(old_t.records@[k].records_model(), cs)
        &&& new_t.records@[k].directory == old_t.records@[k].directory
        &&& new_t.records@[k].index == old_t.records@[k].index
        &&& new_t.records@[k].key_range@ == key_range_of(new_t.records@[k].records_model())
        &&& new_t.records@[k].full == old_t.records@[k].full
        &&& new_t.records@[k].size == old_t.records@[k].size
        &&& writes_part(new_plan@[old_plan@.len() + k], old_t.records@[k].directory@, new_t.records@[k].records_model())
    }
    &&& new_t.name == old_t.name
    &&& new_t.directory == old_t.directory
    &&& new_t.auto_increment == old_t.auto_increment
    &&& new_t.column_definition == old_t.column_definition
    &&& new_plan@.len() == old_plan@.len() + old_t.records@.len()
    &&& new_plan@.subrange(0, old_plan@.len() as int) == old_plan@
}

/// The report of a deletion: whether any part lost a record.
pub open spec fn delete_message(old_t: Table, new_t: Table) -> Seq<char> {
    if (forall|k: int| 0 <= k < old_t.records@.len()
        ==> (#[trigger] new_t.records@[k]).records@.len() == old_t.records@[k].records@.len()) {
        "no matching records found or deleted"@
    } else {
        "matching records found and deleted successfully"@
    }
}

/// A successful result holding that text.
pub open spec fn res_view_ok(r: Result<String, String>, text: Seq<char>) -> bool {
    r is Ok && r->Ok_0@ == text
}

/// The position of the first entry of that name.
pub fn find_entry(entries: &Vec<(String, Vec<Record>)>, name: &str) -> (r: Option<usize>)
    ensures
        match r {
            Some(i) => i < entries@.len() && entry_named(entries@, name@) == Some(records_view(entries@[i as int].1@)),
            None => entry_named(entries@, name@) is None,
        },
{
    let mut i: usize = 0;
    assert(entries@.subrange(0, entries@.len() as int) =~= entries@);
    while i < entries.len()
        invariant
            i <= entries@.len(),
            entry_named(entries@, name@) == entry_named(entries@.subrange(i as int, entries@.len() as int), name@),
        decreases entries@.len() - i,
    {
        proof {
            let rest = entries@.subrange(i as int, entries@.len() as int);
            assert(rest.drop_first() =~= entries@.subrange(i + 1, entries@.len() as int));
            assert(rest[0] == entries@[i as int]);
        }
        if same_text(entries[i].0.as_str(), name) {
            return Some(i);
        }
        i = i + 1;
    }
    None
}

/// A table: a named schema and the parts that hold its records.
pub struct Table {
    pub name: String,
    /// Path of the table's directory; empty for a table held only in memory.
    pub directory: String,
    pub auto_increment: bool,
    pub column_definition: Vec<Cell>,
    pub records: Vec<Part>,
}

impl Table {
    /// The records of each part, part by part.
    pub open spec fn parts_model(&self) -> Seq<Seq<RecordModel>> {
        self.records@.map_values(|p: Part| p.records_model())
    }

    /// A new table in `db_directory`, with one empty part. The plan gains
    /// the table's directory, its definition file and its first part file.
    pub fn new(
        db_directory: &str,
        table_name: String,
        columns: Vec<ColumnSpec>,
        ai: bool,
        plan: &mut Vec<StorageAction>,
    ) -> (r: Table)
        requires
            columns@.len() <= 65536,
        ensures
            r.name == table_name,
            r.directory@ == db_directory@ + seq!['/'] + table_name@,
            r.auto_increment == ai,
            r.column_definition@.len() == columns@.len(),
            forall|i: int| 0 <= i < columns@.len() ==> defines_column(#[trigger] r.column_definition@[i], i, column_view(columns@[i])),
            r.records@.len() == 1,
            r.records@[0].index == 0,
            !r.records@[0].full,
            r.records@[0].directory@ == part_path(r.directory@, 0),
            r.records@[0].records@.len() == 0,
            r.records@[0].key_range@.len() == 0,
            final(plan)@.len() == old(plan)@.len() + 3,
            final(plan)@.subrange(0, old(plan)@.len() as int) == old(plan)@,
            creates_dir(final(plan)@[old(plan)@.len() as int], r.directory@),
            writes_table_def(final(plan)@[old(plan)@.len() as int + 1], def_path(r.directory@), ai, r.column_definition@),
            writes_text(final(plan)@[old(plan)@.len() as int + 2], part_path(r.directory@, 0), Seq::empty()),
    {
        let column_definition = column_definitions(&columns);
        let mut directory = String::from_str(db_directory);
        proof {
            reveal_strlit("/");
            reveal_strlit("/.def");
            assert("/"@ =~= seq!['/']);
            assert("/.def"@ =~= seq!['/', '.', 'd', 'e', 'f']);
        }
        directory.append("/");
        directory.append(table_name.as_str());
        let mut def_file = directory.clone();
        def_file.append("/.def");
        let ghost old_plan = plan@;
        plan.push(StorageAction::CreateDir(directory.clone()));
        plan.push(StorageAction::WriteTableDef(def_file, ai, copy_cells(&column_definition)));
        let first = Part::new(directory.as_str(), 0, PART_SIZE, plan);
        assert(plan@.subrange(0, old_plan.len() as int) =~= old_plan);
        let mut records: Vec<Part> = Vec::new();
        records.push(first);
        Table { name: table_name, directory, auto_increment: ai, column_definition, records }
    }

    /// A table rebuilt from its directory: `definition` is what its
    /// definition file held, if it could be read, and `entries` the part
    /// files read, by file name. Parts are taken in index order from `p0`
    /// on, up to the first index without a file.
    pub fn build_from_dir(
        table_dir: String,
        definition: Option<(bool, Vec<Cell>)>,
        entries: Vec<(String, Vec<Record>)>,
    ) -> (r: Table)
        requires
            entries@.len() <= u32::MAX,
        ensures
            r.name@ == last_segment(table_dir@),
            r.directory@ == table_dir@,
            match definition {
                Some((ai, defs)) => r.auto_increment == ai && r.column_definition == defs,
                None => !r.auto_increment && r.column_definition@.len() == 0,
            },
            parts_rebuilt(r, table_dir@, entries@),
    {
        let name = path_tail(table_dir.as_str());
        let (auto_increment, column_definition) = match definition {
            Some((ai, defs)) => (ai, defs),
            None => (false, Vec::new()),
        };
        let mut records: Vec<Part> = Vec::new();
        let mut k: usize = 0;
        while k < entries.len()
            invariant
                k == records@.len(),
                k <= entries@.len(),
                entries@.len() <= u32::MAX,
                forall|j: int| 0 <= j < k ==> {
                    &&& entry_named(entries@, part_name(j as nat)) == Some((#[trigger] records@[j]).records_model())
                    &&& records@[j].index == j
                    &&& records@[j].directory@ == part_path(table_dir@, j as nat)
                    &&& records@[j].key_range@ == key_range_of(records@[j].records_model())
                },
            ensures
                k == entries@.len() || entry_named(entries@, part_name(k as nat)) is None,
            decreases entries@.len() - k,
        {
            let location = part_location(table_dir.as_str(), k);
            let file_name = part_file_name(k);
            match find_entry(&entries, file_name.as_str()) {
                Some(i) => {
                    let recs = copy_records(&entries[i].1);
                    let part = Part::load_from_dir(location, PART_SIZE, k as u32, recs);
                    records.push(part);
                    k = k + 1;
                },
                None => {
                    break;
                },
            }
        }
        Table { name, directory: table_dir, auto_increment, column_definition, records }
    }

    /// Copies of the records that satisfy every condition: part after part,
    /// and within a part in order. The parts held in memory mirror their
    /// files, each change to them being planned as a write.
    pub fn query_search_columns(&self, conditions: &Vec<Condition>) -> (r: Vec<Record>)
        ensures
            records_view(r@) == matching_in_parts(self.parts_model(), conditions_view(conditions@)),
    {
        let ghost ps = self.parts_model();
        let ghost cs = conditions_view(conditions@);
        let mut res: Vec<Record> = Vec::new();
        let mut i: usize = 0;
        while i < self.records.len()
            invariant
                i <= self.records.len(),
                ps == self.parts_model(),
                cs == conditions_view(conditions@),
                records_view(res@) == matching_in_parts(ps.subrange(0, i as int), cs),
            decreases self.records.len() - i,
        {
            proof {
                assert(ps.subrange(0, i + 1).drop_last() =~= ps.subrange(0, i as int));
                assert(ps.subrange(0, i + 1).last() == self.records@[i as int].records_model());
            }
            let mut found = self.records[i].query_search_columns(conditions);
            let ghost before = res@;
            let ghost got = found@;
            res.append(&mut found);
            proof {
                assert(res@ == before + got);
                assert(records_view(res@) =~= records_view(before) + records_view(got));
            }
            i = i + 1;
        }
        assert(ps.subrange(0, ps.len() as int) =~= ps);
        res
    }

    /// Drops, in every part, the records that satisfy every condition, and
    /// plans the save of every part. Reports whether any record was dropped.
    pub fn query_delete_records(&mut self, conditions: &Vec<Condition>, plan: &mut Vec<StorageAction>) -> (r: Result<String, String>)
        ensures
            records_deleted(*old(self), *final(self), conditions_view(conditions@), *old(plan), *final(plan)),
            res_view_ok(r, delete_message(*old(self), *final(self))),
    {
        let ghost old_parts = self.records@;
        let ghost old_plan = plan@;
        let ghost cs = conditions_view(conditions@);
        let ghost old_self = *self;
        let ghost mut witness: int = 0;
        let mut any = false;
        let mut i: usize = 0;
        while i < self.records.len()
            invariant
                i <= self.records.len(),
                self.records@.len() == old_parts.len(),
                cs == conditions_view(conditions@),
                plan@.len() == old_plan.len() + i,
                plan@.subrange(0, old_plan.len() as int) == old_plan,
                forall|k: int| i <= k < old_parts.len() ==> #[trigger] self.records@[k] == old_parts[k],
                forall|k: int| 0 <= k < i ==> {
                    &&& (#[trigger] self.records@[k]).records_model() == not_matching(old_parts[k].records_model(), cs)
                    &&& self.records@[k].directory == old_parts[k].directory
                    &&& self.records@[k].index == old_parts[k].index
                    &&& self.records@[k].key_range@ == key_range_of(self.records@[k].records_model())
                    &&& self.records@[k].full == old_parts[k].full
                    &&& self.records@[k].size == old_parts[k].size
                    &&& writes_part(plan@[old_plan.len() + k], old_parts[k].directory@, self.records@[k].records_model())
                },
                any ==> 0 <= witness < i && self.records@[witness].records@.len() != old_parts[witness].records@.len(),
                !any ==> forall|k: int| 0 <= k < i ==> (#[trigger] self.records@[k]).records@.len() == old_parts[k].records@.len(),
                self.name == old_self.name,
                self.directory == old_self.directory,
                self.auto_increment == old_self.auto_increment,
                self.column_definition == old_self.column_definition,
            decreases old_parts.len() - i,
        {
            let before = self.records[i].records.len();
            let _ = self.records[i].query_delete_records(conditions);
            if self.records[i].records.len() != before {
                any = true;
                proof {
                    witness = i as int;
                }
            }
            let ghost prev_plan = plan@;
            plan.push(self.records[i].save());
            proof {
                assert(plan@.subrange(0, old_plan.len() as int) =~= prev_plan.subrange(0, old_plan.len() as int));
            }
            i = i + 1;
        }
        if any {
            Ok(String::from_str("matching records found and deleted successfully"))
        } else {
            Ok(String::from_str("no matching records found or deleted"))
        }
    }

    /// Deletes the table's storage. A table held only in memory (with an
    /// empty directory) just drops its parts; otherwise the plan gains the
    /// removal of every part file, of the definition file and of the
    /// directory.
    pub fn query_delete_table(&mut self, plan: &mut Vec<StorageAction>) -> (r: Result<String, String>)
        ensures
            final(self).name == old(self).name,
            final(self).directory == old(self).directory,
            r is Ok,
            old(self).directory@.len() == 0 ==> {
                &&& final(self).records@.len() == 0
                &&& *final(plan) == *old(plan)
                &&& r->Ok_0@ == "table object deleted"@
            },
            old(self).directory@.len() > 0 ==> {
                let n = old(self).records@.len() as int;
                let o = old(plan)@.len() as int;
                &&& *final(self) == *old(self)
                &&& final(plan)@.len() == o + n + 2
                &&& final(plan)@.subrange(0, o as int) == old(plan)@
                &&& forall|k: int| 0 <= k < n ==> removes_file(#[trigger] final(plan)@[o + k], old(self).records@[k].directory@)
                &&& removes_file(final(plan)@[o + n], def_path(old(self).directory@))
                &&& removes_dir(final(plan)@[o + n + 1], old(self).directory@)
                &&& r->Ok_0@ == "table directory deleted"@
            },
    {
        if self.directory.unicode_len() == 0 {
            self.records = Vec::new();
            return Ok(String::from_str("table object deleted"));
        }
        let ghost old_plan = plan@;
        let mut i: usize = 0;
        while i < self.records.len()
            invariant
                i <= self.records.len(),
                plan@.len() == old_plan.len() + i,
                plan@.subrange(0, old_plan.len() as int) == old_plan,
                forall|k: int| 0 <= k < i ==> removes_file(#[trigger] plan@[old_plan.len() + k], self.records@[k].directory@),
            decreases self.records.len() - i,
        {
            let ghost prev_plan = plan@;
            plan.push(self.records[i].delete());
            proof {
                assert(plan@.subrange(0, old_plan.len() as int) =~= prev_plan.subrange(0, old_plan.len() as int));
            }
            i = i + 1;
        }
        proof {
            reveal_strlit("/.def");
            assert("/.def"@ =~= seq!['/', '.', 'd', 'e', 'f']);
        }
        let mut def_file = self.directory.clone();
        def_file.append("/.def");
        let ghost prev_plan = plan@;
        plan.push(StorageAction::RemoveFile(def_file));
        plan.push(StorageAction::RemoveDir(self.directory.clone()));
        proof {
            assert(plan@.subrange(0, old_plan.len() as int) =~= prev_plan.subrange(0, old_plan.len() as int));
        }
        Ok(String::from_str("table directory deleted"))
    }

    /// The position of the first part that is not full.
    pub fn first_open_part(&self) -> (r: usize)
        ensures
            r == first_open(self.records@),
            r <= self.records@.len(),
    {
        let mut i: usize = 0;
        assert(self.records@.subrange(0, self.records@.len() as int) =~= self.records@);
        while i < self.records.len()
            invariant
                i <= self.records@.len(),
                first_open(self.records@) == i + first_open(self.records@.subrange(i as int, self.records@.len() as int)),
            decreases self.records@.len() - i,
        {
            proof {
                let rest = self.records@.subrange(i as int, self.records@.len() as int);
                assert(rest.drop_first() =~= self.records@.subrange(i + 1, self.records@.len() as int));
            }
            if !self.records[i].full {
                return i;
            }
            i = i + 1;
        }
        i
    }

    /// Places each record in the first part that is not full, making a new
    /// part when every part is full. A record is placed when its primary-key
    /// column holds a present `ULong`; the others are refused, and the rest
    /// are still placed. Each placement plans the save of its part. The
    /// result is an error when any record was refused, or when the table has
    /// no columns (then nothing changes).
    pub fn query_create(&mut self, records: Vec<Record>, plan: &mut Vec<StorageAction>) -> (r: Result<String, String>)
        requires
            old(self).records@.len() < u32::MAX,
        ensures
            final(self).name == old(self).name,
            final(self).directory == old(self).directory,
            final(self).auto_increment == old(self).auto_increment,
            final(self).column_definition == old(self).column_definition,
            final(plan)@.subrange(0, old(plan)@.len() as int) == old(plan)@,
            old(self).column_definition@.len() == 0 ==> {
                &&& *final(self) == *old(self)
                &&& *final(plan) == *old(plan)
                &&& r is Err && r->Err_0@ == "table has no column definitions"@
            },
            old(self).column_definition@.len() > 0 ==> records_created(*old(self), *final(self), records_view(records@), *old(plan), *final(plan), r),
    {
        if self.column_definition.len() == 0 {
            return Err(String::from_str("table has no column definitions"));
        }
        let ghost old_self = *self;
        let ghost old_plan = plan@;
        let ghost ix = self.column_definition@[0];
        let ghost rs = records_view(records@);
        let ghost n = self.records@.len() as int;
        let t = self.first_open_part();
        let mut last_err: Option<String> = None;
        let mut i: usize = 0;
        while i < records.len()
            invariant
                i <= records@.len(),
                rs == records_view(records@),
                t == first_open(old_self.records@),
                t <= n,
                n == old_self.records@.len(),
                n < u32::MAX,
                self.column_definition@.len() > 0,
                ix == self.column_definition@[0],
                self.name == old_self.name,
                self.directory == old_self.directory,
                self.auto_increment == old_self.auto_increment,
                self.column_definition == old_self.column_definition,
                self.records@.len() == if t == n && i > 0 { n + 1 } else { n },
                forall|j: int| 0 <= j < n && j != t ==> #[trigger] self.records@[j] == old_self.records@[j],
                t < n ==> {
                    &&& self.records@[t as int].records_model() == old_self.records@[t as int].records_model() + accepted(rs.subrange(0, i as int), ix)
                    &&& self.records@[t as int].key_range@ == old_self.records@[t as int].key_range@ + accepted_keys(rs.subrange(0, i as int), ix)
                    &&& self.records@[t as int].directory == old_self.records@[t as int].directory
                    &&& self.records@[t as int].index == old_self.records@[t as int].index
                    &&& self.records@[t as int].full == old_self.records@[t as int].full
                },
                t == n && i > 0 ==> {
                    &&& self.records@[t as int].records_model() == accepted(rs.subrange(0, i as int), ix)
                    &&& self.records@[t as int].key_range@ == accepted_keys(rs.subrange(0, i as int), ix)
                    &&& self.records@[t as int].directory@ == part_path(old_self.directory@, t as nat)
                    &&& self.records@[t as int].index == t
                    &&& self.records@[t as int].size == PART_SIZE
                    &&& !self.records@[t as int].full
                },
                plan@.subrange(0, old_plan.len() as int) == old_plan,
                plan@.len() >= old_plan.len(),
                accepted(rs.subrange(0, i as int), ix).len() > 0 ==> writes_part(
                    plan@.last(),
                    self.records@[t as int].directory@,
                    self.records@[t as int].records_model(),
                ),
                match last_refusal(rs.subrange(0, i as int), ix) {
                    None => last_err is None,
                    Some(e) => last_err is Some && last_err->0@ == e,
                },
            decreases records@.len() - i,
        {
            proof {
                let next = rs.subrange(0, i + 1);
                assert(next.drop_last() =~= rs.subrange(0, i as int));
                assert(next.last() == records@[i as int]@);
            }
            if t == self.records.len() {
                let ghost prev_plan = plan@;
                let p = Part::new(self.directory.as_str(), t, PART_SIZE, plan);
                assert(plan@.subrange(0, old_plan.len() as int) =~= prev_plan.subrange(0, old_plan.len() as int));
                self.records.push(p);
                assert(accepted(rs.subrange(0, i as int), ix).len() == 0);
                assert(self.records@[t as int].records_model() =~= Seq::<RecordModel>::empty());
                assert(accepted(rs.subrange(0, i as int), ix) =~= Seq::<RecordModel>::empty());
                assert(accepted_keys(rs.subrange(0, i as int), ix) =~= Seq::<u128>::empty());
                assert(self.records@[t as int].key_range@ =~= Seq::<u128>::empty());
            }
            let rec = records[i].duplicate();
            let ghost prev_plan = plan@;
            let ghost prev_part = self.records@[t as int];
            match self.records[t].query_create_record(rec, &self.column_definition[0], plan) {
                Ok(_) => {},
                Err(e) => {
                    last_err = Some(e);
                },
            }
            proof {
                assert(plan@.subrange(0, old_plan.len() as int) =~= prev_plan.subrange(0, old_plan.len() as int));
            }
            i = i + 1;
        }
        assert(rs.subrange(0, rs.len() as int) =~= rs);
        match last_err {
            None => Ok(String::from_str("records created")),
            Some(e) => Err(e),
        }
    }

    /// Whether a file name is that of a part.
    pub fn is_part_file(name: &str) -> (r: bool)
        ensures
            r == (name@.len() > 0 && name@[0] == 'p'),
    {
        name.unicode_len() > 0 && name.get_char(0) == 'p'
    }
}

} // verus!

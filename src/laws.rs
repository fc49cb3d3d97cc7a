//! Properties that hold across the library's operations.

use vstd::prelude::*;
use crate::conditional::{ConditionModel, Conditional};
use crate::database::{has_table, names_distinct, table_deleted, table_position, Database};
use crate::part::{matching, not_matching, part_name, part_path};
use crate::query::{create_table_outcome, res_view};
use crate::record::{first_named, satisfies_all, Record, RecordModel};
use crate::storage::{removes_dir, removes_file, writes_table_def, writes_text, StorageAction};
use crate::table::{
    defines_column, ColumnModel, def_path, delete_message, entry_named, matching_in_parts, parts_rebuilt, records_deleted, Table,
};

verus! {

/// All records of the parts, part after part.
pub open spec fn all_records(ps: Seq<Seq<RecordModel>>) -> Seq<RecordModel>
    decreases ps.len(),
{
    if ps.len() == 0 {
        Seq::empty()
    } else {
        all_records(ps.drop_last()) + ps.last()
    }
}

/// Whether every condition of a list is the wildcard.
pub open spec fn all_wildcards(cs: Seq<ConditionModel>) -> bool {
    forall|i: int| 0 <= i < cs.len() ==> (#[trigger] cs[i]).op == Conditional::All
}

proof fn lemma_matching_wildcards(rs: Seq<RecordModel>, cs: Seq<ConditionModel>)
    requires
        all_wildcards(cs),
    ensures
        matching(rs, cs) == rs,
    decreases rs.len(),
{
    if rs.len() > 0 {
        lemma_matching_wildcards(rs.drop_last(), cs);
        assert(satisfies_all(rs.last(), cs));
        assert(rs.drop_last().push(rs.last()) =~= rs);
    }
}

/// A read whose conditions are all wildcards returns every record, part
/// after part and in order within each part.
pub proof fn law_wildcard_reads_all(ps: Seq<Seq<RecordModel>>, cs: Seq<ConditionModel>)
    requires
        all_wildcards(cs),
    ensures
        matching_in_parts(ps, cs) == all_records(ps),
    decreases ps.len(),
{
    if ps.len() > 0 {
        law_wildcard_reads_all(ps.drop_last(), cs);
        lemma_matching_wildcards(ps.last(), cs);
    }
}

proof fn lemma_matching_empty(rs: Seq<RecordModel>, cs: Seq<ConditionModel>, i: int)
    requires
        0 <= i < cs.len(),
        cs[i].op != Conditional::All,
        forall|j: int| 0 <= j < rs.len() ==> first_named(#[trigger] rs[j], cs[i].target) is None,
    ensures
        matching(rs, cs).len() == 0,
    decreases rs.len(),
{
    if rs.len() > 0 {
        lemma_matching_empty(rs.drop_last(), cs, i);
        assert(first_named(rs[rs.len() - 1], cs[i].target) is None);
        assert(!satisfies_all(rs.last(), cs));
    }
}

/// A read with a condition, other than a wildcard, on a column that no
/// record holds returns nothing.
pub proof fn law_unknown_column_reads_nothing(ps: Seq<Seq<RecordModel>>, cs: Seq<ConditionModel>, i: int)
    requires
        0 <= i < cs.len(),
        cs[i].op != Conditional::All,
        forall|p: int, j: int| 0 <= p < ps.len() && 0 <= j < ps[p].len() ==> first_named(#[trigger] ps[p][j], cs[i].target) is None,
    ensures
        matching_in_parts(ps, cs).len() == 0,
    decreases ps.len(),
{
    if ps.len() > 0 {
        let last = ps.len() - 1;
        assert forall|p: int, j: int| 0 <= p < ps.drop_last().len() && 0 <= j < ps.drop_last()[p].len() implies
            first_named(#[trigger] ps.drop_last()[p][j], cs[i].target) is None by {
            assert(ps.drop_last()[p] == ps[p]);
        }
        law_unknown_column_reads_nothing(ps.drop_last(), cs, i);
        assert forall|j: int| 0 <= j < ps.last().len() implies first_named(#[trigger] ps.last()[j], cs[i].target) is None by {
            assert(ps.last()[j] == ps[last][j]);
        }
        lemma_matching_empty(ps.last(), cs, i);
    }
}

/// Deleting by the same conditions a second time keeps every record that
/// the first deletion kept.
pub proof fn law_delete_idempotent(rs: Seq<RecordModel>, cs: Seq<ConditionModel>)
    ensures
        not_matching(not_matching(rs, cs), cs) == not_matching(rs, cs),
    decreases rs.len(),
{
    if rs.len() > 0 {
        law_delete_idempotent(rs.drop_last(), cs);
        let prev = not_matching(rs.drop_last(), cs);
        if !satisfies_all(rs.last(), cs) {
            let kept = prev.push(rs.last());
            assert(kept.drop_last() =~= prev);
        }
    }
}

/// A table deletion by conditions repeated at once finds nothing more to
/// delete, and says so.
pub proof fn law_second_delete_finds_nothing(
    t0: Table,
    t1: Table,
    t2: Table,
    cs: Seq<ConditionModel>,
    plan0: Vec<StorageAction>,
    plan1: Vec<StorageAction>,
    plan2: Vec<StorageAction>,
)
    requires
        records_deleted(t0, t1, cs, plan0, plan1),
        records_deleted(t1, t2, cs, plan1, plan2),
    ensures
        t2.parts_model() == t1.parts_model(),
        delete_message(t1, t2) == "no matching records found or deleted"@,
{
    assert forall|k: int| 0 <= k < t1.records@.len() implies
        (#[trigger] t2.records@[k]).records@.len() == t1.records@[k].records@.len() by {
        law_delete_idempotent(t0.records@[k].records_model(), cs);
        assert(t2.records@[k].records_model() == t1.records@[k].records_model());
    }
    assert forall|k: int| 0 <= k < t1.records@.len() implies
        (#[trigger] t2.records@[k]).records_model() == t1.records@[k].records_model() by {
        law_delete_idempotent(t0.records@[k].records_model(), cs);
    }
    assert(t2.parts_model() =~= t1.parts_model());
}

/// A table rebuilt from one part file per part, each holding what the
/// part's last save wrote (and no file beyond them), holds the same records part by part; so a
/// wildcard read of it returns them all in order.
pub proof fn law_round_trip(
    ps: Seq<Seq<RecordModel>>,
    entries: Seq<(String, Vec<Record>)>,
    dir: Seq<char>,
    rebuilt: Table,
    cs: Seq<ConditionModel>,
)
    requires
        entries.len() == ps.len(),
        forall|k: int| 0 <= k < ps.len() ==> entry_named(entries, part_name(k as nat)) == Some(#[trigger] ps[k]),
        entry_named(entries, part_name(ps.len())) is None,
        parts_rebuilt(rebuilt, dir, entries),
        all_wildcards(cs),
    ensures
        rebuilt.parts_model() == ps,
        matching_in_parts(rebuilt.parts_model(), cs) == all_records(ps),
{
    let n = rebuilt.records@.len();
    if n < ps.len() {
        assert(entry_named(entries, part_name(n as nat)) == Some(ps[n as int]));
    }
    if n > ps.len() {
        let k = ps.len() as int;
        assert(entry_named(entries, part_name(k as nat)) == Some(rebuilt.records@[k].records_model()));
    }
    assert(rebuilt.parts_model() =~= ps) by {
        assert forall|k: int| 0 <= k < ps.len() implies rebuilt.parts_model()[k] == ps[k] by {
            assert(entry_named(entries, part_name(k as nat)) == Some(ps[k]));
            assert(entry_named(entries, part_name(k as nat)) == Some(rebuilt.records@[k].records_model()));
        }
    }
    law_wildcard_reads_all(ps, cs);
}

proof fn lemma_position_names(ts: Seq<Table>, name: Seq<char>)
    requires
        table_position(ts, name) is Some,
    ensures
        0 <= table_position(ts, name)->0 < ts.len(),
        ts[table_position(ts, name)->0].name@ == name,
    decreases ts.len(),
{
    if ts.len() > 0 && ts[0].name@ != name {
        lemma_position_names(ts.drop_first(), name);
    }
}

/// Deleting a table plans the removal of its part files, its definition
/// file and its directory, and leaves no table of that name, so a table of
/// that name can then be created again, with its columns, its definition
/// file and an empty first part file.
pub proof fn law_delete_then_create(
    admin: Seq<char>,
    db1: Database,
    db2: Database,
    db3: Database,
    name: Seq<char>,
    columns: Seq<ColumnModel>,
    plan1: Vec<StorageAction>,
    plan2: Vec<StorageAction>,
    plan3: Vec<StorageAction>,
    r: Result<String, String>,
    result: Result<String, String>,
)
    requires
        names_distinct(db1.tables@),
        table_deleted(db1, db2, name, plan1, plan2, r),
        r is Ok,
        create_table_outcome(admin, db2, db3, name, columns, plan2, plan3, result),
        columns.len() <= 65536,
    ensures
        !has_table(db2.tables@, name),
        res_view(result) == Ok::<Seq<char>, Seq<char>>("table successfully created"@),
        has_table(db3.tables@, name),
        ({
            let t = db3.tables@.last();
            let o = plan2@.len() as int;
            &&& t.name@ == name
            &&& t.auto_increment
            &&& t.column_definition@.len() == columns.len()
            &&& forall|i: int| 0 <= i < columns.len() ==> defines_column(#[trigger] t.column_definition@[i], i, columns[i])
            &&& writes_table_def(plan3@[o + 1], def_path(t.directory@), true, t.column_definition@)
            &&& writes_text(plan3@[o + 2], part_path(t.directory@, 0), Seq::empty())
            &&& t.records@.len() == 1 && t.records@[0].records@.len() == 0
        }),
        ({
            let t = db1.tables@[table_position(db1.tables@, name)->0];
            let n = t.records@.len() as int;
            let o = plan1@.len() as int;
            t.directory@.len() > 0 ==> {
                &&& forall|k: int| 0 <= k < n ==> removes_file(#[trigger] plan2@[o + k], t.records@[k].directory@)
                &&& removes_file(plan2@[o + n], def_path(t.directory@))
                &&& removes_dir(plan2@[o + n + 1], t.directory@)
            }
        }),
{
    lemma_position_names(db1.tables@, name);
    let i = table_position(db1.tables@, name)->0;
    assert(db2.tables@ == db1.tables@.remove(i));
    if has_table(db2.tables@, name) {
        let j = choose|j: int| 0 <= j < db2.tables@.len() && (#[trigger] db2.tables@[j]).name@ == name;
        if j < i {
            assert(db2.tables@[j] == db1.tables@[j]);
        } else {
            assert(db2.tables@[j] == db1.tables@[j + 1]);
        }
    }
    let last = db3.tables@.len() - 1;
    assert(db3.tables@[last].name@ == name);
}

/// Creating a table keeps the names of a database's tables distinct.
pub proof fn law_create_keeps_names_distinct(
    admin: Seq<char>,
    db1: Database,
    db2: Database,
    name: Seq<char>,
    columns: Seq<ColumnModel>,
    plan1: Vec<StorageAction>,
    plan2: Vec<StorageAction>,
    result: Result<String, String>,
)
    requires
        names_distinct(db1.tables@),
        create_table_outcome(admin, db1, db2, name, columns, plan1, plan2, result),
    ensures
        names_distinct(db2.tables@),
{
    if !has_table(db1.tables@, name) && columns.len() <= 65536 {
        let n = db1.tables@.len() as int;
        assert forall|i: int, j: int| 0 <= i < db2.tables@.len() && 0 <= j < db2.tables@.len() && i != j
            implies (#[trigger] db2.tables@[i]).name@ != (#[trigger] db2.tables@[j]).name@ by {
            if i < n {
                assert(db2.tables@[i] == db1.tables@.subrange(0, n)[i]);
            }
            if j < n {
                assert(db2.tables@[j] == db1.tables@.subrange(0, n)[j]);
            }
        }
    }
}

/// Deleting a table keeps the names of a database's tables distinct.
pub proof fn law_delete_keeps_names_distinct(
    db1: Database,
    db2: Database,
    name: Seq<char>,
    plan1: Vec<StorageAction>,
    plan2: Vec<StorageAction>,
    r: Result<String, String>,
)
    requires
        names_distinct(db1.tables@),
        table_deleted(db1, db2, name, plan1, plan2, r),
    ensures
        names_distinct(db2.tables@),
{
    if table_position(db1.tables@, name) is Some {
        lemma_position_names(db1.tables@, name);
        let k = table_position(db1.tables@, name)->0;
        assert forall|i: int, j: int| 0 <= i < db2.tables@.len() && 0 <= j < db2.tables@.len() && i != j
            implies (#[trigger] db2.tables@[i]).name@ != (#[trigger] db2.tables@[j]).name@ by {
            let oi = if i < k { i } else { i + 1 };
            let oj = if j < k { j } else { j + 1 };
            assert(db2.tables@[i] == db1.tables@[oi]);
            assert(db2.tables@[j] == db1.tables@[oj]);
        }
    }
}

} // verus!

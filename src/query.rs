//! Queries: the concrete operations that endpoints run, each keeping the
//! textual result of its last run.

use vstd::prelude::*;
use crate::cell::Cell;
use crate::conditional::{conditions_view, Condition, ConditionModel, Conditional};
use crate::database::{
    database_template_for, find_table, has_table, role_definition, storage_root, table_built,
    table_deleted, table_position, Database,
};
use crate::json::{field, opt_str_of, JsonValue};
use crate::parse::{
    column_kind, columns_model, conditions_from_items, conditions_model,
    find_column_def, records_from_items, records_model,
};
use crate::record::{first_named, records_text, records_view, render_records, Record, RecordModel};
use crate::storage::{creates_dir, writes_text, StorageAction};
use crate::table::{def_path, columns_view, ColumnModel, last_refusal, matching_in_parts, records_created, records_placed, ColumnSpec, Table};

verus! {

/// A stored result as text.
pub open spec fn res_view(r: Result<String, String>) -> Result<Seq<char>, Seq<char>> {
    match r {
        Ok(s) => Ok(s@),
        Err(e) => Err(e@),
    }
}

/// A copy of a stored result.
pub fn copy_result(r: &Result<String, String>) -> (c: Result<String, String>)
    ensures
        res_view(c) == res_view(*r),
{
    match r {
        Ok(s) => Ok(s.clone()),
        Err(e) => Err(e.clone()),
    }
}

pub enum Query {
    QueryNewDatabase(QueryNewDatabase),
    QueryDatabase(QueryDatabase),
    QueryTable(QueryTable),
}

/// Creates databases; it runs at server level.
pub struct QueryNewDatabase {
    pub name: String,
    pub result: Result<String, String>,
}

/// Queries on the records of one table.
pub enum QueryTable {
    TableQueryCreate(TableQueryCreate),
    TableQueryRead(TableQueryRead),
    TableQueryUpdate(TableQueryUpdate),
    TableQueryDelete(TableQueryDelete),
}

/// Inserts records.
pub struct TableQueryCreate {
    /// Name of the table the query is bound to.
    pub table: String,
    pub name: String,
    pub result: Result<String, String>,
}

/// Reads the records that satisfy conditions.
pub struct TableQueryRead {
    pub table: String,
    pub name: String,
    pub result: Result<String, String>,
}

/// Updates records; not implemented.
pub struct TableQueryUpdate {
    pub table: String,
    pub name: String,
    pub result: Result<String, String>,
}

/// Deletes the records that satisfy conditions.
pub struct TableQueryDelete {
    pub table: String,
    pub name: String,
    pub result: Result<String, String>,
}

/// Queries on the tables of one database.
pub enum QueryDatabase {
    QueryDatabaseCreateTable(QueryDatabaseCreateTable),
    QueryDatabaseUpdateTable(QueryDatabaseUpdateTable),
    QueryDatabaseDeleteTable(QueryDatabaseDeleteTable),
    QueryDatabaseInDevToggle(QueryDatabaseInDevToggle),
}

pub struct QueryDatabaseCreateTable {
    pub name: String,
    pub result: Result<String, String>,
}

/// Updates a table; a stub that only records that it ran.
pub struct QueryDatabaseUpdateTable {
    pub name: String,
    pub result: Result<String, String>,
}

pub struct QueryDatabaseDeleteTable {
    pub name: String,
    pub result: Result<String, String>,
}

pub struct QueryDatabaseInDevToggle {
    pub name: String,
    pub result: Result<String, String>,
}

pub open spec fn table_query_result(q: QueryTable) -> Result<Seq<char>, Seq<char>> {
    match q {
        QueryTable::TableQueryCreate(x) => res_view(x.result),
        QueryTable::TableQueryRead(x) => res_view(x.result),
        QueryTable::TableQueryUpdate(x) => res_view(x.result),
        QueryTable::TableQueryDelete(x) => res_view(x.result),
    }
}

pub open spec fn table_query_table(q: QueryTable) -> Seq<char> {
    match q {
        QueryTable::TableQueryCreate(x) => x.table@,
        QueryTable::TableQueryRead(x) => x.table@,
        QueryTable::TableQueryUpdate(x) => x.table@,
        QueryTable::TableQueryDelete(x) => x.table@,
    }
}

pub open spec fn database_query_result(q: QueryDatabase) -> Result<Seq<char>, Seq<char>> {
    match q {
        QueryDatabase::QueryDatabaseCreateTable(x) => res_view(x.result),
        QueryDatabase::QueryDatabaseUpdateTable(x) => res_view(x.result),
        QueryDatabase::QueryDatabaseDeleteTable(x) => res_view(x.result),
        QueryDatabase::QueryDatabaseInDevToggle(x) => res_view(x.result),
    }
}

/// The result a query reports: a successful database creation reads
/// `database creation successful`.
pub open spec fn query_result(q: Query) -> Result<Seq<char>, Seq<char>> {
    match q {
        Query::QueryNewDatabase(x) => match x.result {
            Ok(_) => Ok("database creation successful"@),
            Err(e) => Err(e@),
        },
        Query::QueryDatabase(x) => database_query_result(x),
        Query::QueryTable(x) => table_query_result(x),
    }
}

/// The table a query is bound to.
pub open spec fn query_table(q: Query) -> Result<Seq<char>, Seq<char>> {
    match q {
        Query::QueryTable(x) => Ok(table_query_table(x)),
        _ => Err("not a table query"@),
    }
}

impl Query {
    pub fn result(&self) -> (r: Result<String, String>)
        ensures
            res_view(r) == query_result(*self),
    {
        match self {
            Query::QueryNewDatabase(q) => match &q.result {
                Ok(_) => Ok(String::from_str("database creation successful")),
                Err(e) => Err(e.clone()),
            },
            Query::QueryDatabase(q) => q.result(),
            Query::QueryTable(q) => q.result(),
        }
    }

    pub fn table(&self) -> (r: Result<String, String>)
        ensures
            res_view(r) == query_table(*self),
    {
        match self {
            Query::QueryTable(q) => q.table(),
            _ => Err(String::from_str("not a table query")),
        }
    }
}

impl QueryNewDatabase {
    pub fn new(qname: String) -> (r: QueryNewDatabase)
        ensures
            r.name == qname,
            res_view(r.result) == Err::<Seq<char>, Seq<char>>("Query has not yet been run"@),
    {
        QueryNewDatabase { name: qname, result: Err(String::from_str("Query has not yet been run")) }
    }
}

impl QueryTable {
    pub fn result(&self) -> (r: Result<String, String>)
        ensures
            res_view(r) == table_query_result(*self),
    {
        match self {
            QueryTable::TableQueryCreate(q) => copy_result(&q.result),
            QueryTable::TableQueryRead(q) => copy_result(&q.result),
            QueryTable::TableQueryUpdate(q) => copy_result(&q.result),
            QueryTable::TableQueryDelete(q) => copy_result(&q.result),
        }
    }

    /// The name of the table the query is bound to.
    pub fn table(&self) -> (r: Result<String, String>)
        ensures
            res_view(r) == Ok::<Seq<char>, Seq<char>>(table_query_table(*self)),
    {
        match self {
            QueryTable::TableQueryCreate(q) => Ok(q.table.clone()),
            QueryTable::TableQueryRead(q) => Ok(q.table.clone()),
            QueryTable::TableQueryUpdate(q) => Ok(q.table.clone()),
            QueryTable::TableQueryDelete(q) => Ok(q.table.clone()),
        }
    }
}

impl TableQueryCreate {
    pub fn new(qname: String, table: String) -> (r: TableQueryCreate)
        ensures
            r.name == qname,
            r.table == table,
            res_view(r.result) == Err::<Seq<char>, Seq<char>>("Query has not yet been run"@),
    {
        TableQueryCreate { table, name: qname, result: Err(String::from_str("Query has not yet been run")) }
    }
}

impl TableQueryRead {
    pub fn new(qname: String, table: String) -> (r: TableQueryRead)
        ensures
            r.name == qname,
            r.table == table,
            res_view(r.result) == Err::<Seq<char>, Seq<char>>("Query has not yet been run"@),
    {
        TableQueryRead { table, name: qname, result: Err(String::from_str("Query has not yet been run")) }
    }
}

impl TableQueryUpdate {
    pub fn new(qname: String, table: String) -> (r: TableQueryUpdate)
        ensures
            r.name == qname,
            r.table == table,
            res_view(r.result) == Err::<Seq<char>, Seq<char>>("Query has not yet been run or implemented"@),
    {
        TableQueryUpdate {
            table,
            name: qname,
            result: Err(String::from_str("Query has not yet been run or implemented")),
        }
    }

    /// Updating records is not implemented: the body is not read.
    pub fn parse(&mut self, body: &JsonValue)
        ensures
            final(self).name == old(self).name,
            final(self).table == old(self).table,
            res_view(final(self).result) == Err::<Seq<char>, Seq<char>>("updating records is not implemented"@),
    {
        self.run();
    }

    /// Updating records is not implemented: the result says so.
    pub fn run(&mut self)
        ensures
            final(self).name == old(self).name,
            final(self).table == old(self).table,
            res_view(final(self).result) == Err::<Seq<char>, Seq<char>>("updating records is not implemented"@),
    {
        self.result = Err(String::from_str("updating records is not implemented"));
    }
}

impl TableQueryDelete {
    pub fn new(qname: String, table: String) -> (r: TableQueryDelete)
        ensures
            r.name == qname,
            r.table == table,
            res_view(r.result) == Err::<Seq<char>, Seq<char>>("Query has not yet been run or implemented"@),
    {
        TableQueryDelete {
            table,
            name: qname,
            result: Err(String::from_str("Query has not yet been run or implemented")),
        }
    }
}

impl QueryDatabase {
    pub fn result(&self) -> (r: Result<String, String>)
        ensures
            res_view(r) == database_query_result(*self),
    {
        match self {
            QueryDatabase::QueryDatabaseCreateTable(q) => copy_result(&q.result),
            QueryDatabase::QueryDatabaseUpdateTable(q) => copy_result(&q.result),
            QueryDatabase::QueryDatabaseDeleteTable(q) => copy_result(&q.result),
            QueryDatabase::QueryDatabaseInDevToggle(q) => copy_result(&q.result),
        }
    }

    pub fn set_result(&mut self, result: Result<String, String>)
        ensures
            database_query_result(*final(self)) == res_view(result),
            crate::runnable::op_of(crate::runnable::Runnable::Query(Query::QueryDatabase(*final(self))))
                == crate::runnable::op_of(crate::runnable::Runnable::Query(Query::QueryDatabase(*old(self)))),
    {
        match self {
            QueryDatabase::QueryDatabaseCreateTable(q) => q.result = result,
            QueryDatabase::QueryDatabaseUpdateTable(q) => q.result = result,
            QueryDatabase::QueryDatabaseDeleteTable(q) => q.result = result,
            QueryDatabase::QueryDatabaseInDevToggle(q) => q.result = result,
        }
    }
}

impl QueryDatabaseCreateTable {
    pub fn new(name: String) -> (r: QueryDatabaseCreateTable)
        ensures
            r.name == name,
            res_view(r.result) == Err::<Seq<char>, Seq<char>>("query has not yet been run"@),
    {
        QueryDatabaseCreateTable { name, result: Err(String::from_str("query has not yet been run")) }
    }
}

impl QueryDatabaseUpdateTable {
    pub fn new(name: String) -> (r: QueryDatabaseUpdateTable)
        ensures
            r.name == name,
            res_view(r.result) == Err::<Seq<char>, Seq<char>>("query has not yet been run"@),
    {
        QueryDatabaseUpdateTable { name, result: Err(String::from_str("query has not yet been run")) }
    }

    /// The stub does not read the body.
    pub fn parse(&mut self, body: &JsonValue)
        ensures
            final(self).name == old(self).name,
            res_view(final(self).result) == Ok::<Seq<char>, Seq<char>>("update query has been run"@),
    {
        self.run();
    }

    /// The stub records that it ran.
    pub fn run(&mut self)
        ensures
            final(self).name == old(self).name,
            res_view(final(self).result) == Ok::<Seq<char>, Seq<char>>("update query has been run"@),
    {
        self.result = Ok(String::from_str("update query has been run"));
    }
}

impl QueryDatabaseDeleteTable {
    pub fn new(name: String) -> (r: QueryDatabaseDeleteTable)
        ensures
            r.name == name,
            res_view(r.result) == Err::<Seq<char>, Seq<char>>("query has not yet been run"@),
    {
        QueryDatabaseDeleteTable { name, result: Err(String::from_str("query has not yet been run")) }
    }
}

impl QueryDatabaseInDevToggle {
    pub fn new(name: String) -> (r: QueryDatabaseInDevToggle)
        ensures
            r.name == name,
            res_view(r.result) == Err::<Seq<char>, Seq<char>>("query has not yet been run"@),
    {
        QueryDatabaseInDevToggle { name, result: Err(String::from_str("query has not yet been run")) }
    }
}

/// A record with its cells in the order of the column definitions: each
/// column takes the record's cell of that name, else its default where it
/// has one; a column with neither is an error.
pub open spec fn completed(rec: RecordModel, defs: Seq<Cell>) -> Result<RecordModel, Seq<char>>
    decreases defs.len(),
{
    if defs.len() == 0 {
        Ok(Seq::empty())
    } else {
        match completed(rec, defs.drop_last()) {
            Err(e) => Err(e),
            Ok(prev) => match defs.last() {
                Cell::CellDef { name, ctype, default, .. } => match first_named(rec, name@) {
                    Some(c) => Ok(prev.push(c)),
                    None => if default {
                        Ok(prev.push(ctype@))
                    } else {
                        Err("no default value specified for column "@ + name@)
                    },
                },
                _ => Ok(prev),
            },
        }
    }
}

/// Every record completed, or the first error.
pub open spec fn all_completed(rs: Seq<RecordModel>, defs: Seq<Cell>) -> Result<Seq<RecordModel>, Seq<char>>
    decreases rs.len(),
{
    if rs.len() == 0 {
        Ok(Seq::empty())
    } else {
        match all_completed(rs.drop_last(), defs) {
            Err(e) => Err(e),
            Ok(prev) => match completed(rs.last(), defs) {
                Ok(c) => Ok(prev.push(c)),
                Err(e) => Err(e),
            },
        }
    }
}

proof fn lemma_completed_error(rec: RecordModel, defs: Seq<Cell>, k: int)
    requires
        0 <= k <= defs.len(),
        completed(rec, defs.subrange(0, k)) is Err,
    ensures
        completed(rec, defs) == completed(rec, defs.subrange(0, k)),
    decreases defs.len(),
{
    if k == defs.len() {
        assert(defs.subrange(0, k) =~= defs);
    } else {
        assert(defs.drop_last().subrange(0, k) =~= defs.subrange(0, k));
        lemma_completed_error(rec, defs.drop_last(), k);
    }
}

proof fn lemma_all_completed_error(rs: Seq<RecordModel>, defs: Seq<Cell>, k: int)
    requires
        0 <= k <= rs.len(),
        all_completed(rs.subrange(0, k), defs) is Err,
    ensures
        all_completed(rs, defs) == all_completed(rs.subrange(0, k), defs),
    decreases rs.len(),
{
    if k == rs.len() {
        assert(rs.subrange(0, k) =~= rs);
    } else {
        assert(rs.drop_last().subrange(0, k) =~= rs.subrange(0, k));
        lemma_all_completed_error(rs.drop_last(), defs, k);
    }
}

/// A record completed against the column definitions.
pub fn complete_record(rec: &Record, defs: &Vec<Cell>) -> (r: Result<Record, String>)
    ensures
        match r {
            Ok(c) => completed(rec@, defs@) == Ok::<RecordModel, Seq<char>>(c@),
            Err(e) => completed(rec@, defs@) == Err::<RecordModel, Seq<char>>(e@),
        },
{
    let mut columns: Vec<crate::cell::CellValue> = Vec::new();
    let mut i: usize = 0;
    assert(columns@.map_values(|c: crate::cell::CellValue| c@) =~= Seq::<crate::cell::CellModel>::empty());
    while i < defs.len()
        invariant
            i <= defs@.len(),
            completed(rec@, defs@.subrange(0, i as int))
                == Ok::<RecordModel, Seq<char>>(columns@.map_values(|c: crate::cell::CellValue| c@)),
        decreases defs@.len() - i,
    {
        proof {
            assert(defs@.subrange(0, i + 1).drop_last() =~= defs@.subrange(0, i as int));
            assert(defs@.subrange(0, i + 1).last() == defs@[i as int]);
        }
        match &defs[i] {
            Cell::CellDef { name, ctype, default, .. } => {
                let ghost before = columns@;
                match rec.find_column(name.as_str()) {
                    Some(j) => {
                        let c = rec.columns[j].duplicate();
                        columns.push(c);
                        assert(columns@.map_values(|c: crate::cell::CellValue| c@)
                            =~= before.map_values(|c: crate::cell::CellValue| c@).push(c@));
                    },
                    None => {
                        if *default {
                            let c = ctype.duplicate();
                            columns.push(c);
                            assert(columns@.map_values(|c: crate::cell::CellValue| c@)
                                =~= before.map_values(|c: crate::cell::CellValue| c@).push(c@));
                        } else {
                            let mut e = String::from_str("no default value specified for column ");
                            e.append(name.as_str());
                            proof {
                                lemma_completed_error(rec@, defs@, i + 1);
                            }
                            return Err(e);
                        }
                    },
                }
            },
            _ => {},
        }
        i = i + 1;
    }
    assert(defs@.subrange(0, defs@.len() as int) =~= defs@);
    Ok(Record { columns })
}

/// Every record completed, or the first error.
pub fn complete_records(recs: &Vec<Record>, defs: &Vec<Cell>) -> (r: Result<Vec<Record>, String>)
    ensures
        match r {
            Ok(cs) => all_completed(records_view(recs@), defs@) == Ok::<Seq<RecordModel>, Seq<char>>(records_view(cs@)),
            Err(e) => all_completed(records_view(recs@), defs@) == Err::<Seq<RecordModel>, Seq<char>>(e@),
        },
{
    let ghost rs = records_view(recs@);
    let mut out: Vec<Record> = Vec::new();
    let mut i: usize = 0;
    assert(records_view(out@) =~= Seq::<RecordModel>::empty());
    while i < recs.len()
        invariant
            i <= recs@.len(),
            rs == records_view(recs@),
            all_completed(rs.subrange(0, i as int), defs@) == Ok::<Seq<RecordModel>, Seq<char>>(records_view(out@)),
        decreases recs@.len() - i,
    {
        proof {
            assert(rs.subrange(0, i + 1).drop_last() =~= rs.subrange(0, i as int));
            assert(rs.subrange(0, i + 1).last() == recs@[i as int]@);
        }
        match complete_record(&recs[i], defs) {
            Ok(c) => {
                let ghost before = out@;
                out.push(c);
                assert(records_view(out@) =~= records_view(before).push(c@));
            },
            Err(e) => {
                proof {
                    lemma_all_completed_error(rs, defs@, i + 1);
                }
                return Err(e);
            },
        }
        i = i + 1;
    }
    assert(rs.subrange(0, rs.len() as int) =~= rs);
    Ok(out)
}

/// What a create-record run reports and does, given the records read.
pub open spec fn create_outcome(
    old_t: Table,
    new_t: Table,
    rs: Seq<RecordModel>,
    old_plan: Vec<StorageAction>,
    new_plan: Vec<StorageAction>,
    result: Result<String, String>,
) -> bool {
    match all_completed(rs, old_t.column_definition@) {
        Err(e) => {
            &&& new_t == old_t
            &&& new_plan == old_plan
            &&& res_view(result) == Err::<Seq<char>, Seq<char>>(e)
        },
        Ok(full) => if old_t.column_definition@.len() == 0 {
            &&& new_t == old_t
            &&& new_plan == old_plan
            &&& res_view(result) == Err::<Seq<char>, Seq<char>>(
                "error creating records "@ + "table has no column definitions"@)
        } else {
            &&& records_placed(old_t, new_t, full, old_plan, new_plan)
            &&& res_view(result) == match last_refusal(full, old_t.column_definition@[0]) {
                None => Ok::<Seq<char>, Seq<char>>("records created successfully"@),
                Some(e) => Err("error creating records "@ + e),
            }
        },
    }
}

/// What a create-record request does to a database and reports.
pub open spec fn create_request_outcome(
    old_db: Database,
    new_db: Database,
    table: Seq<char>,
    body: JsonValue,
    old_plan: Vec<StorageAction>,
    new_plan: Vec<StorageAction>,
    result: Result<String, String>,
) -> bool {
    &&& new_db.name == old_db.name
    &&& new_db.indev == old_db.indev
    &&& new_db.role == old_db.role
    &&& new_db.directory == old_db.directory
    &&& new_db.endpoints == old_db.endpoints
    &&& new_db.tables@.len() == old_db.tables@.len()
    &&& match table_position(old_db.tables@, table) {
        None => {
            &&& new_db == old_db
            &&& new_plan == old_plan
            &&& res_view(result) == Err::<Seq<char>, Seq<char>>("table does not exist in database"@)
        },
        Some(i) => {
            &&& forall|j: int| 0 <= j < old_db.tables@.len() && j != i
                ==> #[trigger] new_db.tables@[j] == old_db.tables@[j]
            &&& match field(body, "records"@) {
                Some(JsonValue::Array(items)) => {
                    if old_db.tables@[i].records@.len() >= u32::MAX {
                        &&& new_db == old_db
                        &&& new_plan == old_plan
                        &&& res_view(result) == Err::<Seq<char>, Seq<char>>("table holds too many parts"@)
                    } else {
                        create_outcome(
                            old_db.tables@[i],
                            new_db.tables@[i],
                            records_model(items@, old_db.tables@[i].column_definition@),
                            old_plan,
                            new_plan,
                            result,
                        )
                    }
                },
                _ => {
                    &&& new_db == old_db
                    &&& new_plan == old_plan
                    &&& res_view(result) == Err::<Seq<char>, Seq<char>>("no records submitted"@)
                },
            }
        },
    }
}

impl TableQueryCreate {
    /// Completes each record against the table's columns, then places them
    /// all; a record lacking a column without default stops the run before
    /// anything is placed.
    pub fn run(&mut self, table: &mut Table, records: Vec<Record>, plan: &mut Vec<StorageAction>)
        requires
            old(table).records@.len() < u32::MAX,
        ensures
            final(self).name == old(self).name,
            final(self).table == old(self).table,
            create_outcome(*old(table), *final(table), records_view(records@), *old(plan), *final(plan), final(self).result),
    {
        match complete_records(&records, &table.column_definition) {
            Err(e) => {
                self.result = Err(e);
            },
            Ok(full) => {
                let ghost full_view = records_view(full@);
                let ghost old_t = *table;
                let ghost old_plan = *plan;
                let r = table.query_create(full, plan);
                let ghost rr = r;
                proof {
                    if old_t.column_definition@.len() > 0 {
                        assert(records_created(old_t, *table, full_view, old_plan, *plan, rr));
                    }
                }
                match r {
                    Ok(_) => {
                        self.result = Ok(String::from_str("records created successfully"));
                    },
                    Err(e) => {
                        let mut m = String::from_str("error creating records ");
                        m.append(e.as_str());
                        self.result = Err(m);
                    },
                }
                assert(create_outcome(old_t, *table, records_view(records@), old_plan, *plan, self.result));
            },
        }
    }

    /// Reads the records of the body's `records` array against the bound
    /// table's columns and runs the insertion.
    pub fn parse(&mut self, database: &mut Database, body: &JsonValue, plan: &mut Vec<StorageAction>)
        ensures
            final(self).name == old(self).name,
            final(self).table == old(self).table,
            create_request_outcome(*old(database), *final(database), old(self).table@, *body, *old(plan), *final(plan), final(self).result),
    {
        let i = match find_table(&database.tables, self.table.as_str()) {
            Some(i) => i,
            None => {
                self.result = Err(String::from_str("table does not exist in database"));
                return;
            },
        };
        let items = match body.get("records") {
            Some(v) => match v.as_array() {
                Some(a) => a,
                None => {
                    self.result = Err(String::from_str("no records submitted"));
                    return;
                },
            },
            None => {
                self.result = Err(String::from_str("no records submitted"));
                return;
            },
        };
        let records = records_from_items(items, &database.tables[i].column_definition);
        if database.tables[i].records.len() >= 0xFFFF_FFFF {
            self.result = Err(String::from_str("table holds too many parts"));
            return;
        }
        self.run(&mut database.tables[i], records, plan);
    }
}

/// What a read reports for a table and conditions.
pub open spec fn read_outcome(t: Table, cs: Seq<ConditionModel>) -> Result<Seq<char>, Seq<char>> {
    if cs.len() == 0 {
        Err("length of conditional list < 1"@)
    } else {
        Ok(records_text(matching_in_parts(t.parts_model(), cs)))
    }
}

/// The conditions of a body's `conditions` array, or why there are none.
pub open spec fn body_conditions(body: JsonValue, defs: Seq<Cell>) -> Result<Seq<ConditionModel>, Seq<char>> {
    match field(body, "conditions"@) {
        Some(JsonValue::Array(items)) => conditions_model(items@, defs),
        _ => Err("conditions could not be formatted"@),
    }
}

/// What a read request reports.
pub open spec fn read_request_outcome(db: Database, table: Seq<char>, body: JsonValue) -> Result<Seq<char>, Seq<char>> {
    match table_position(db.tables@, table) {
        None => Err("table does not exist in database"@),
        Some(i) => match body_conditions(body, db.tables@[i].column_definition@) {
            Err(e) => Err(e),
            Ok(cs) => read_outcome(db.tables@[i], cs),
        },
    }
}

fn conditions_of_body(body: &JsonValue, defs: &Vec<Cell>) -> (r: Result<Vec<Condition>, String>)
    ensures
        match r {
            Ok(cs) => body_conditions(*body, defs@) == Ok::<Seq<ConditionModel>, Seq<char>>(conditions_view(cs@)),
            Err(e) => body_conditions(*body, defs@) == Err::<Seq<ConditionModel>, Seq<char>>(e@),
        },
{
    match body.get("conditions") {
        Some(v) => match v.as_array() {
            Some(items) => conditions_from_items(items, defs),
            None => Err(String::from_str("conditions could not be formatted")),
        },
        None => Err(String::from_str("conditions could not be formatted")),
    }
}

impl TableQueryRead {
    /// Reads the records of the table that satisfy every condition.
    pub fn run(&mut self, table: &Table, conditions: Vec<Condition>)
        ensures
            final(self).name == old(self).name,
            final(self).table == old(self).table,
            res_view(final(self).result) == read_outcome(*table, conditions_view(conditions@)),
    {
        if conditions.len() == 0 {
            self.result = Err(String::from_str("length of conditional list < 1"));
        } else {
            let found = table.query_search_columns(&conditions);
            self.result = Ok(render_records(&found));
        }
    }

    /// Reads the body's conditions against the bound table and runs the read.
    pub fn parse(&mut self, database: &Database, body: &JsonValue)
        ensures
            final(self).name == old(self).name,
            final(self).table == old(self).table,
            res_view(final(self).result) == read_request_outcome(*database, old(self).table@, *body),
    {
        let i = match find_table(&database.tables, self.table.as_str()) {
            Some(i) => i,
            None => {
                self.result = Err(String::from_str("table does not exist in database"));
                return;
            },
        };
        match conditions_of_body(body, &database.tables[i].column_definition) {
            Err(e) => {
                self.result = Err(e);
            },
            Ok(cs) => {
                self.run(&database.tables[i], cs);
            },
        }
    }
}

/// The target of the first condition, other than a wildcard, that names no
/// column of the table.
pub open spec fn unknown_target(defs: Seq<Cell>, cs: Seq<ConditionModel>) -> Option<Seq<char>>
    decreases cs.len(),
{
    if cs.len() == 0 {
        None
    } else if cs[0].op != Conditional::All && column_kind(defs, cs[0].target) is None {
        Some(cs[0].target)
    } else {
        unknown_target(defs, cs.drop_first())
    }
}

/// What deleting by conditions does to a table and reports.
pub open spec fn delete_outcome(
    old_t: Table,
    new_t: Table,
    cs: Seq<ConditionModel>,
    old_plan: Vec<StorageAction>,
    new_plan: Vec<StorageAction>,
    result: Result<String, String>,
) -> bool {
    if cs.len() == 0 {
        &&& new_t == old_t
        &&& new_plan == old_plan
        &&& res_view(result) == Err::<Seq<char>, Seq<char>>("negative length of conditional list"@)
    } else {
        match unknown_target(old_t.column_definition@, cs) {
            Some(x) => {
                &&& new_t == old_t
                &&& new_plan == old_plan
                &&& res_view(result) == Err::<Seq<char>, Seq<char>>(
                    "target column \""@ + x + "\" does not exist on target table"@)
            },
            None => {
                &&& crate::table::records_deleted(old_t, new_t, cs, old_plan, new_plan)
                &&& res_view(result) == Ok::<Seq<char>, Seq<char>>(crate::table::delete_message(old_t, new_t))
            },
        }
    }
}

/// What a delete-record request does to a database and reports.
pub open spec fn delete_request_outcome(
    old_db: Database,
    new_db: Database,
    table: Seq<char>,
    body: JsonValue,
    old_plan: Vec<StorageAction>,
    new_plan: Vec<StorageAction>,
    result: Result<String, String>,
) -> bool {
    &&& new_db.name == old_db.name
    &&& new_db.indev == old_db.indev
    &&& new_db.role == old_db.role
    &&& new_db.directory == old_db.directory
    &&& new_db.endpoints == old_db.endpoints
    &&& new_db.tables@.len() == old_db.tables@.len()
    &&& match table_position(old_db.tables@, table) {
        None => {
            &&& new_db == old_db
            &&& new_plan == old_plan
            &&& res_view(result) == Err::<Seq<char>, Seq<char>>("table does not exist in database"@)
        },
        Some(i) => {
            &&& forall|j: int| 0 <= j < old_db.tables@.len() && j != i
                ==> #[trigger] new_db.tables@[j] == old_db.tables@[j]
            &&& match body_conditions(body, old_db.tables@[i].column_definition@) {
                Err(e) => {
                    &&& new_db == old_db
                    &&& new_plan == old_plan
                    &&& res_view(result) == Err::<Seq<char>, Seq<char>>(e)
                },
                Ok(cs) => delete_outcome(old_db.tables@[i], new_db.tables@[i], cs, old_plan, new_plan, result),
            }
        },
    }
}

impl TableQueryDelete {
    /// Deletes the records of the table that satisfy every condition, once
    /// every condition other than a wildcard names a column of the table.
    pub fn run(&mut self, table: &mut Table, conditions: Vec<Condition>, plan: &mut Vec<StorageAction>)
        ensures
            final(self).name == old(self).name,
            final(self).table == old(self).table,
            delete_outcome(*old(table), *final(table), conditions_view(conditions@), *old(plan), *final(plan), final(self).result),
    {
        if conditions.len() == 0 {
            self.result = Err(String::from_str("negative length of conditional list"));
            return;
        }
        let ghost cs = conditions_view(conditions@);
        let mut i: usize = 0;
        assert(cs.subrange(0, cs.len() as int) =~= cs);
        while i < conditions.len()
            invariant
                i <= conditions@.len(),
                cs == conditions_view(conditions@),
                self.name == old(self).name,
                self.table == old(self).table,
                *table == *old(table),
                *plan == *old(plan),
                unknown_target(table.column_definition@, cs)
                    == unknown_target(table.column_definition@, cs.subrange(i as int, cs.len() as int)),
            decreases conditions@.len() - i,
        {
            proof {
                let rest = cs.subrange(i as int, cs.len() as int);
                assert(rest.drop_first() =~= cs.subrange(i + 1, cs.len() as int));
                assert(rest[0] == conditions@[i as int]@);
            }
            let c = &conditions[i];
            if c.conditional != Conditional::All {
                if find_column_def(&table.column_definition, c.target_column.as_str()).is_none() {
                    let mut m = String::from_str("target column \"");
                    m.append(c.target_column.as_str());
                    m.append("\" does not exist on target table");
                    self.result = Err(m);
                    return;
                }
            }
            i = i + 1;
        }
        let r = table.query_delete_records(&conditions, plan);
        self.result = r;
    }

    /// Reads the body's conditions against the bound table and runs the
    /// deletion.
    pub fn parse(&mut self, database: &mut Database, body: &JsonValue, plan: &mut Vec<StorageAction>)
        ensures
            final(self).name == old(self).name,
            final(self).table == old(self).table,
            delete_request_outcome(*old(database), *final(database), old(self).table@, *body, *old(plan), *final(plan), final(self).result),
    {
        let i = match find_table(&database.tables, self.table.as_str()) {
            Some(i) => i,
            None => {
                self.result = Err(String::from_str("table does not exist in database"));
                return;
            },
        };
        match conditions_of_body(body, &database.tables[i].column_definition) {
            Err(e) => {
                self.result = Err(e);
            },
            Ok(cs) => {
                self.run(&mut database.tables[i], cs, plan);
            },
        }
    }
}

/// What a create-table run does to a database and reports: a taken name or
/// too many columns change nothing; otherwise the table is made.
pub open spec fn create_table_outcome(
    admin: Seq<char>,
    old_db: Database,
    new_db: Database,
    name: Seq<char>,
    columns: Seq<ColumnModel>,
    old_plan: Vec<StorageAction>,
    new_plan: Vec<StorageAction>,
    result: Result<String, String>,
) -> bool {
    if has_table(old_db.tables@, name) {
        &&& new_db == old_db
        &&& new_plan == old_plan
        &&& res_view(result) == Err::<Seq<char>, Seq<char>>("table with requested name already exists"@)
    } else if columns.len() > 65536 {
        &&& new_db == old_db
        &&& new_plan == old_plan
        &&& res_view(result) == Err::<Seq<char>, Seq<char>>("too many columns"@)
    } else {
        &&& table_built(old_db, new_db, admin, name, columns, old_plan, new_plan)
        &&& res_view(result) == Ok::<Seq<char>, Seq<char>>("table successfully created"@)
    }
}

/// What a create-table request does and reports.
pub open spec fn create_table_request_outcome(
    admin: Seq<char>,
    old_db: Database,
    new_db: Database,
    body: JsonValue,
    old_plan: Vec<StorageAction>,
    new_plan: Vec<StorageAction>,
    result: Result<String, String>,
) -> bool {
    match opt_str_of(field(body, "table_name"@)) {
        None => {
            &&& new_db == old_db
            &&& new_plan == old_plan
            &&& res_view(result) == Err::<Seq<char>, Seq<char>>("table name could not be parsed"@)
        },
        Some(name) => match field(body, "columns"@) {
            Some(JsonValue::Array(cols)) => create_table_outcome(admin, old_db, new_db,
                name, columns_model(cols@), old_plan, new_plan, result),
            _ => {
                &&& new_db == old_db
                &&& new_plan == old_plan
                &&& res_view(result) == Err::<Seq<char>, Seq<char>>("column definitions could not be parsed"@)
            },
        },
    }
}

/// What a delete-table request does and reports.
pub open spec fn delete_table_request_outcome(
    old_db: Database,
    new_db: Database,
    body: JsonValue,
    old_plan: Vec<StorageAction>,
    new_plan: Vec<StorageAction>,
    result: Result<String, String>,
) -> bool {
    match opt_str_of(field(body, "table_name"@)) {
        None => {
            &&& new_db == old_db
            &&& new_plan == old_plan
            &&& res_view(result) == Err::<Seq<char>, Seq<char>>("table name could not be parsed"@)
        },
        Some(name) => table_deleted(old_db, new_db, name, old_plan, new_plan, result),
    }
}

/// What a create-database request makes and reports.
pub open spec fn new_database_outcome(
    admin_db: Option<String>,
    body: JsonValue,
    dir_override: Option<String>,
    old_plan: Vec<StorageAction>,
    new_plan: Vec<StorageAction>,
    result: Result<String, String>,
    r: Option<Database>,
) -> bool {
    match opt_str_of(field(body, "database_name"@)) {
        None => {
            &&& r is None
            &&& new_plan == old_plan
            &&& res_view(result) == Err::<Seq<char>, Seq<char>>("could not parse database_name"@)
        },
        Some(name) => {
            let role = match opt_str_of(field(body, "role"@)) {
                Some(x) => x,
                None => "ADMIN"@,
            };
            &&& r is Some
            &&& r->0.name@ == name
            &&& r->0.role@ == role
            &&& r->0.indev
            &&& r->0.tables@.len() == 0
            &&& r->0.directory@ == storage_root(dir_override) + seq!['/'] + name
            &&& database_template_for(r->0.endpoints@, role, admin_db, name)
            &&& new_plan@.len() == old_plan@.len() + 3
            &&& new_plan@.subrange(0, old_plan@.len() as int) == old_plan@
            &&& creates_dir(new_plan@[old_plan@.len() as int], r->0.directory@)
            &&& writes_text(new_plan@[old_plan@.len() as int + 1], def_path(r->0.directory@), role_definition(role))
            &&& writes_text(new_plan@[old_plan@.len() as int + 2], r->0.directory@ + "/.log"@, Seq::empty())
            &&& result is Ok && result->Ok_0@ == name
        },
    }
}

impl QueryDatabaseCreateTable {
    /// Makes the table unless a table of that name exists.
    pub fn run(
        &mut self,
        admin_db: &String,
        database: &mut Database,
        table_name: String,
        columns: Vec<ColumnSpec>,
        plan: &mut Vec<StorageAction>,
    )
        ensures
            final(self).name == old(self).name,
            create_table_outcome(admin_db@, *old(database), *final(database), table_name@,
                columns_view(columns@), *old(plan), *final(plan), final(self).result),
    {
        match find_table(&database.tables, table_name.as_str()) {
            Some(_) => {
                self.result = Err(String::from_str("table with requested name already exists"));
            },
            None => {
                if columns.len() > 65536 {
                    self.result = Err(String::from_str("too many columns"));
                } else {
                    database.build_table(admin_db, table_name, columns, plan);
                    self.result = Ok(String::from_str("table successfully created"));
                }
            },
        }
    }

    /// Reads the table name and the column arrays of the body, and runs.
    pub fn parse(&mut self, admin_db: &String, database: &mut Database, body: &JsonValue, plan: &mut Vec<StorageAction>)
        ensures
            final(self).name == old(self).name,
            create_table_request_outcome(admin_db@, *old(database), *final(database), *body, *old(plan), *final(plan), final(self).result),
    {
        let name = match body.get("table_name") {
            Some(v) => match v.as_str() {
                Some(s) => String::from_str(s),
                None => {
                    self.result = Err(String::from_str("table name could not be parsed"));
                    return;
                },
            },
            None => {
                self.result = Err(String::from_str("table name could not be parsed"));
                return;
            },
        };
        let cols = match body.get("columns") {
            Some(v) => match v.as_array() {
                Some(a) => a,
                None => {
                    self.result = Err(String::from_str("column definitions could not be parsed"));
                    return;
                },
            },
            None => {
                self.result = Err(String::from_str("column definitions could not be parsed"));
                return;
            },
        };
        let columns = crate::parse::column_specs(cols);
        self.run(admin_db, database, name, columns, plan);
    }
}

impl QueryDatabaseDeleteTable {
    /// Deletes the named table.
    pub fn run(&mut self, database: &mut Database, table_name: String, plan: &mut Vec<StorageAction>)
        ensures
            final(self).name == old(self).name,
            table_deleted(*old(database), *final(database), table_name@, *old(plan), *final(plan), final(self).result),
    {
        self.result = database.delete_table(table_name, plan);
    }

    /// Reads the table name of the body, and runs.
    pub fn parse(&mut self, database: &mut Database, body: &JsonValue, plan: &mut Vec<StorageAction>)
        ensures
            final(self).name == old(self).name,
            delete_table_request_outcome(*old(database), *final(database), *body, *old(plan), *final(plan), final(self).result),
    {
        match body.get("table_name") {
            Some(v) => match v.as_str() {
                Some(s) => {
                    self.run(database, String::from_str(s), plan);
                },
                None => {
                    self.result = Err(String::from_str("table name could not be parsed"));
                },
            },
            None => {
                self.result = Err(String::from_str("table name could not be parsed"));
            },
        }
    }
}

impl QueryDatabaseInDevToggle {
    /// Flips the database between development and production.
    pub fn run(&mut self, database: &mut Database)
        ensures
            final(self).name == old(self).name,
            final(database).indev == !old(database).indev,
            final(database).name == old(database).name,
            final(database).role == old(database).role,
            final(database).directory == old(database).directory,
            final(database).tables == old(database).tables,
            final(database).endpoints == old(database).endpoints,
            res_view(final(self).result) == Ok::<Seq<char>, Seq<char>>("databse indev status successfuly toggled"@),
    {
        database.indev = !database.indev;
        self.result = Ok(String::from_str("databse indev status successfuly toggled"));
    }
}

impl QueryNewDatabase {
    /// Creates the database that the body names (`database_name`, with an
    /// optional `role`, `ADMIN` by default) under the admin database, and
    /// hands it back.
    pub fn run(
        &mut self,
        admin_db: Option<String>,
        body: &JsonValue,
        dir_override: Option<String>,
        plan: &mut Vec<StorageAction>,
    ) -> (r: Option<Database>)
        ensures
            final(self).name == old(self).name,
            new_database_outcome(admin_db, *body, dir_override, *old(plan), *final(plan), final(self).result, r),
    {
        let name = match body.get("database_name") {
            Some(v) => match v.as_str() {
                Some(s) => String::from_str(s),
                None => {
                    self.result = Err(String::from_str("could not parse database_name"));
                    return None;
                },
            },
            None => {
                self.result = Err(String::from_str("could not parse database_name"));
                return None;
            },
        };
        let role = match body.get("role") {
            Some(v) => match v.as_str() {
                Some(s) => String::from_str(s),
                None => String::from_str("ADMIN"),
            },
            None => String::from_str("ADMIN"),
        };
        let db = Database::new(name.clone(), admin_db, role, dir_override, plan);
        self.result = Ok(name);
        Some(db)
    }
}

/// What running a table query does and stores.
pub open spec fn table_query_outcome(
    old_q: QueryTable,
    new_q: QueryTable,
    old_db: Database,
    new_db: Database,
    body: JsonValue,
    old_plan: Vec<StorageAction>,
    new_plan: Vec<StorageAction>,
) -> bool {
    let table = table_query_table(old_q);
    &&& table_query_table(new_q) == table
    &&& match (old_q, new_q) {
        (QueryTable::TableQueryCreate(_), QueryTable::TableQueryCreate(n)) =>
            create_request_outcome(old_db, new_db, table, body, old_plan, new_plan, n.result),
        (QueryTable::TableQueryRead(_), QueryTable::TableQueryRead(n)) => {
            &&& new_db == old_db
            &&& new_plan == old_plan
            &&& res_view(n.result) == read_request_outcome(old_db, table, body)
        },
        (QueryTable::TableQueryUpdate(_), QueryTable::TableQueryUpdate(n)) => {
            &&& new_db == old_db
            &&& new_plan == old_plan
            &&& res_view(n.result) == Err::<Seq<char>, Seq<char>>("updating records is not implemented"@)
        },
        (QueryTable::TableQueryDelete(_), QueryTable::TableQueryDelete(n)) =>
            delete_request_outcome(old_db, new_db, table, body, old_plan, new_plan, n.result),
        _ => false,
    }
}

/// What running a database query does and stores.
pub open spec fn database_query_outcome(
    admin: Seq<char>,
    old_q: QueryDatabase,
    new_q: QueryDatabase,
    old_db: Database,
    new_db: Database,
    body: JsonValue,
    old_plan: Vec<StorageAction>,
    new_plan: Vec<StorageAction>,
) -> bool {
    match (old_q, new_q) {
        (QueryDatabase::QueryDatabaseCreateTable(_), QueryDatabase::QueryDatabaseCreateTable(n)) =>
            create_table_request_outcome(admin, old_db, new_db, body, old_plan, new_plan, n.result),
        (QueryDatabase::QueryDatabaseUpdateTable(_), QueryDatabase::QueryDatabaseUpdateTable(n)) => {
            &&& new_db == old_db
            &&& new_plan == old_plan
            &&& res_view(n.result) == Ok::<Seq<char>, Seq<char>>("update query has been run"@)
        },
        (QueryDatabase::QueryDatabaseDeleteTable(_), QueryDatabase::QueryDatabaseDeleteTable(n)) =>
            delete_table_request_outcome(old_db, new_db, body, old_plan, new_plan, n.result),
        (QueryDatabase::QueryDatabaseInDevToggle(_), QueryDatabase::QueryDatabaseInDevToggle(n)) => {
            &&& new_db.indev == !old_db.indev
            &&& new_db.name == old_db.name
            &&& new_db.role == old_db.role
            &&& new_db.directory == old_db.directory
            &&& new_db.tables == old_db.tables
            &&& new_db.endpoints == old_db.endpoints
            &&& new_plan == old_plan
            &&& res_view(n.result) == Ok::<Seq<char>, Seq<char>>("databse indev status successfuly toggled"@)
        },
        _ => false,
    }
}

/// What running a query does, stores, and hands back.
pub open spec fn query_outcome(
    admin: Seq<char>,
    old_q: Query,
    new_q: Query,
    old_db: Database,
    new_db: Database,
    body: JsonValue,
    dir_override: Option<String>,
    old_plan: Vec<StorageAction>,
    new_plan: Vec<StorageAction>,
    created: Option<Database>,
) -> bool {
    match (old_q, new_q) {
        (Query::QueryNewDatabase(_), Query::QueryNewDatabase(n)) => {
            &&& new_db == old_db
            &&& exists|a: String| a@ == admin
                && #[trigger] new_database_outcome(Some(a), body, dir_override, old_plan, new_plan, n.result, created)
        },
        (Query::QueryDatabase(o), Query::QueryDatabase(n)) => {
            &&& created is None
            &&& database_query_outcome(admin, o, n, old_db, new_db, body, old_plan, new_plan)
        },
        (Query::QueryTable(o), Query::QueryTable(n)) => {
            &&& created is None
            &&& table_query_outcome(o, n, old_db, new_db, body, old_plan, new_plan)
        },
        _ => false,
    }
}

impl QueryTable {
    /// Runs the query on its table in `database`.
    pub fn run(&mut self, database: &mut Database, body: &JsonValue, plan: &mut Vec<StorageAction>)
        ensures
            table_query_outcome(*old(self), *final(self), *old(database), *final(database), *body, *old(plan), *final(plan)),
    {
        match self {
            QueryTable::TableQueryCreate(q) => q.parse(database, body, plan),
            QueryTable::TableQueryRead(q) => q.parse(database, body),
            QueryTable::TableQueryUpdate(q) => q.parse(body),
            QueryTable::TableQueryDelete(q) => q.parse(database, body, plan),
        }
    }
}

impl QueryDatabase {
    /// Runs the query on `database`; new tables' endpoints refer to
    /// `admin_db`.
    pub fn run(&mut self, admin_db: &String, database: &mut Database, body: &JsonValue, plan: &mut Vec<StorageAction>)
        ensures
            database_query_outcome(admin_db@, *old(self), *final(self), *old(database), *final(database), *body, *old(plan), *final(plan)),
    {
        match self {
            QueryDatabase::QueryDatabaseCreateTable(q) => q.parse(admin_db, database, body, plan),
            QueryDatabase::QueryDatabaseUpdateTable(q) => q.parse(body),
            QueryDatabase::QueryDatabaseDeleteTable(q) => q.parse(database, body, plan),
            QueryDatabase::QueryDatabaseInDevToggle(q) => q.run(database),
        }
    }
}

impl Query {
    /// Runs the query; a database creation hands back the new database.
    pub fn run(
        &mut self,
        admin_db: &String,
        database: &mut Database,
        body: &JsonValue,
        dir_override: Option<String>,
        plan: &mut Vec<StorageAction>,
    ) -> (r: Option<Database>)
        ensures
            query_outcome(admin_db@, *old(self), *final(self), *old(database), *final(database), *body, dir_override, *old(plan), *final(plan), r),
    {
        match self {
            Query::QueryNewDatabase(q) => {
                let a = admin_db.clone();
                let r = q.run(Some(a), body, dir_override, plan);
                r
            },
            Query::QueryDatabase(q) => {
                q.run(admin_db, database, body, plan);
                None
            },
            Query::QueryTable(q) => {
                q.run(database, body, plan);
                None
            },
        }
    }
}

} // verus!

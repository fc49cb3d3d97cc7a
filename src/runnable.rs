//! What an endpoint runs: a query, or a script.

use vstd::prelude::*;
use crate::database::Database;
use crate::json::JsonValue;
use crate::query::{query_outcome, res_view, Query, QueryDatabase, QueryTable};
use crate::storage::StorageAction;

verus! {

/// A script. Scripts are not implemented; running one does nothing.
#[derive(Debug)]
pub struct Script {
    pub name: String,
}

/// The operation that a runnable performs.
#[derive(Clone, Copy, Debug, PartialEq, Eq, Structural)]
pub enum Op {
    CreateDatabase,
    CreateTable,
    UpdateTable,
    DeleteTable,
    InDevToggle,
    CreateRecord,
    ReadRecord,
    UpdateRecord,
    DeleteRecord,
    Script,
}

pub enum Runnable {
    Query(Query),
    Script(Script),
}

/// The operation of a runnable.
pub open spec fn op_of(r: Runnable) -> Op {
    match r {
        Runnable::Query(Query::QueryNewDatabase(_)) => Op::CreateDatabase,
        Runnable::Query(Query::QueryDatabase(QueryDatabase::QueryDatabaseCreateTable(_))) => Op::CreateTable,
        Runnable::Query(Query::QueryDatabase(QueryDatabase::QueryDatabaseUpdateTable(_))) => Op::UpdateTable,
        Runnable::Query(Query::QueryDatabase(QueryDatabase::QueryDatabaseDeleteTable(_))) => Op::DeleteTable,
        Runnable::Query(Query::QueryDatabase(QueryDatabase::QueryDatabaseInDevToggle(_))) => Op::InDevToggle,
        Runnable::Query(Query::QueryTable(QueryTable::TableQueryCreate(_))) => Op::CreateRecord,
        Runnable::Query(Query::QueryTable(QueryTable::TableQueryRead(_))) => Op::ReadRecord,
        Runnable::Query(Query::QueryTable(QueryTable::TableQueryUpdate(_))) => Op::UpdateRecord,
        Runnable::Query(Query::QueryTable(QueryTable::TableQueryDelete(_))) => Op::DeleteRecord,
        Runnable::Script(_) => Op::Script,
    }
}

/// The stored result of a runnable.
pub open spec fn runnable_result(r: Runnable) -> Result<Seq<char>, Seq<char>> {
    match r {
        Runnable::Query(q) => crate::query::query_result(q),
        Runnable::Script(_) => Err("scripts not implemented"@),
    }
}

/// The table a runnable is bound to.
pub open spec fn runnable_table(r: Runnable) -> Result<Seq<char>, Seq<char>> {
    match r {
        Runnable::Query(q) => crate::query::query_table(q),
        Runnable::Script(_) => Err("not a query"@),
    }
}

/// What running a runnable does, stores, and hands back; a script does
/// nothing.
pub open spec fn runnable_outcome(
    admin: Seq<char>,
    old_r: Runnable,
    new_r: Runnable,
    old_db: Database,
    new_db: Database,
    body: JsonValue,
    dir_override: Option<String>,
    old_plan: Vec<StorageAction>,
    new_plan: Vec<StorageAction>,
    created: Option<Database>,
) -> bool {
    match (old_r, new_r) {
        (Runnable::Query(o), Runnable::Query(n)) =>
            query_outcome(admin, o, n, old_db, new_db, body, dir_override, old_plan, new_plan, created),
        (Runnable::Script(_), Runnable::Script(_)) => {
            &&& new_r == old_r
            &&& new_db == old_db
            &&& new_plan == old_plan
            &&& created is None
        },
        _ => false,
    }
}

impl Runnable {
    /// Runs the runnable against `database`.
    pub fn run(
        &mut self,
        admin_db: &String,
        database: &mut Database,
        body: &JsonValue,
        dir_override: Option<String>,
        plan: &mut Vec<StorageAction>,
    ) -> (r: Option<Database>)
        ensures
            runnable_outcome(admin_db@, *old(self), *final(self), *old(database), *final(database), *body,
                dir_override, *old(plan), *final(plan), r),
    {
        match self {
            Runnable::Query(q) => q.run(admin_db, database, body, dir_override, plan),
            Runnable::Script(_) => None,
        }
    }

    pub fn op(&self) -> (r: Op)
        ensures
            r == op_of(*self),
    {
        match self {
            Runnable::Query(Query::QueryNewDatabase(_)) => Op::CreateDatabase,
            Runnable::Query(Query::QueryDatabase(QueryDatabase::QueryDatabaseCreateTable(_))) => Op::CreateTable,
            Runnable::Query(Query::QueryDatabase(QueryDatabase::QueryDatabaseUpdateTable(_))) => Op::UpdateTable,
            Runnable::Query(Query::QueryDatabase(QueryDatabase::QueryDatabaseDeleteTable(_))) => Op::DeleteTable,
            Runnable::Query(Query::QueryDatabase(QueryDatabase::QueryDatabaseInDevToggle(_))) => Op::InDevToggle,
            Runnable::Query(Query::QueryTable(QueryTable::TableQueryCreate(_))) => Op::CreateRecord,
            Runnable::Query(Query::QueryTable(QueryTable::TableQueryRead(_))) => Op::ReadRecord,
            Runnable::Query(Query::QueryTable(QueryTable::TableQueryUpdate(_))) => Op::UpdateRecord,
            Runnable::Query(Query::QueryTable(QueryTable::TableQueryDelete(_))) => Op::DeleteRecord,
            Runnable::Script(_) => Op::Script,
        }
    }

    /// The stored result.
    pub fn result(&self) -> (r: Result<String, String>)
        ensures
            res_view(r) == runnable_result(*self),
    {
        match self {
            Runnable::Query(q) => q.result(),
            Runnable::Script(_) => Err(String::from_str("scripts not implemented")),
        }
    }

    /// The name of the table the runnable is bound to.
    pub fn table(&self) -> (r: Result<String, String>)
        ensures
            res_view(r) == runnable_table(*self),
    {
        match self {
            Runnable::Query(q) => q.table(),
            Runnable::Script(_) => Err(String::from_str("not a query")),
        }
    }
}

} // verus!

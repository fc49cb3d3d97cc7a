//! Endpoints: named, scoped command handlers, and the templates that say
//! which endpoints exist at each scope.

use vstd::prelude::*;
use crate::query::{
    res_view, Query, QueryDatabase, QueryDatabaseCreateTable, QueryDatabaseDeleteTable,
    QueryDatabaseInDevToggle, QueryDatabaseUpdateTable, QueryNewDatabase, QueryTable,
    TableQueryCreate, TableQueryDelete, TableQueryRead, TableQueryUpdate,
};
use crate::database::Database;
use crate::json::JsonValue;
use crate::runnable::{op_of, runnable_outcome, runnable_result, runnable_table, Op, Runnable};
use crate::storage::StorageAction;

verus! {

pub struct Endpoint {
    pub name: String,
    /// Informational; not enforced.
    pub role: String,
    /// Name of the admin database, the context of database creation.
    pub admin_db: String,
    pub runnable: Runnable,
}

/// Whether an endpoint has this name, role, admin database and operation.
pub open spec fn endpoint_is(e: Endpoint, name: Seq<char>, role: Seq<char>, admin: Seq<char>, op: Op) -> bool {
    e.name@ == name && e.role@ == role && e.admin_db@ == admin && op_of(e.runnable) == op
}

/// Whether the endpoints are the four that every database has, none run
/// yet.
pub open spec fn database_template(v: Seq<Endpoint>, role: Seq<char>, admin: Seq<char>) -> bool {
    &&& v.len() == 4
    &&& endpoint_is(v[0], "create_table"@, role, admin, Op::CreateTable)
    &&& endpoint_is(v[1], "update_table"@, role, admin, Op::UpdateTable)
    &&& endpoint_is(v[2], "delete_table"@, role, admin, Op::DeleteTable)
    &&& endpoint_is(v[3], "indev_toggle"@, role, admin, Op::InDevToggle)
    &&& forall|i: int| 0 <= i < 4 ==> runnable_result(#[trigger] v[i].runnable)
        == Err::<Seq<char>, Seq<char>>("query has not yet been run"@)
}

/// Whether the endpoints are the four that every table has, none run yet.
pub open spec fn table_template(v: Seq<Endpoint>, table: Seq<char>, role: Seq<char>, admin: Seq<char>) -> bool {
    &&& v.len() == 4
    &&& endpoint_is(v[0], "create_record"@, role, admin, Op::CreateRecord)
    &&& endpoint_is(v[1], "read_record"@, role, admin, Op::ReadRecord)
    &&& endpoint_is(v[2], "update_record"@, role, admin, Op::UpdateRecord)
    &&& endpoint_is(v[3], "delete_record"@, role, admin, Op::DeleteRecord)
    &&& forall|i: int| 0 <= i < 4 ==> runnable_table(#[trigger] v[i].runnable) == Ok::<Seq<char>, Seq<char>>(table)
    &&& runnable_result(v[0].runnable) == Err::<Seq<char>, Seq<char>>("Query has not yet been run"@)
    &&& runnable_result(v[1].runnable) == Err::<Seq<char>, Seq<char>>("Query has not yet been run"@)
    &&& runnable_result(v[2].runnable) == Err::<Seq<char>, Seq<char>>("Query has not yet been run or implemented"@)
    &&& runnable_result(v[3].runnable) == Err::<Seq<char>, Seq<char>>("Query has not yet been run or implemented"@)
}

fn database_endpoints(role: &String, admin: &String) -> (r: Vec<Endpoint>)
    ensures
        database_template(r@, role@, admin@),
{
    let mut v: Vec<Endpoint> = Vec::new();
    v.push(Endpoint {
        name: String::from_str("create_table"),
        role: role.clone(),
        admin_db: admin.clone(),
        runnable: Runnable::Query(Query::QueryDatabase(QueryDatabase::QueryDatabaseCreateTable(
            QueryDatabaseCreateTable::new(String::from_str("create_table")),
        ))),
    });
    v.push(Endpoint {
        name: String::from_str("update_table"),
        role: role.clone(),
        admin_db: admin.clone(),
        runnable: Runnable::Query(Query::QueryDatabase(QueryDatabase::QueryDatabaseUpdateTable(
            QueryDatabaseUpdateTable::new(String::from_str("update_table")),
        ))),
    });
    v.push(Endpoint {
        name: String::from_str("delete_table"),
        role: role.clone(),
        admin_db: admin.clone(),
        runnable: Runnable::Query(Query::QueryDatabase(QueryDatabase::QueryDatabaseDeleteTable(
            QueryDatabaseDeleteTable::new(String::from_str("delete_table")),
        ))),
    });
    v.push(Endpoint {
        name: String::from_str("indev_toggle"),
        role: role.clone(),
        admin_db: admin.clone(),
        runnable: Runnable::Query(Query::QueryDatabase(QueryDatabase::QueryDatabaseInDevToggle(
            QueryDatabaseInDevToggle::new(String::from_str("indev_toggle")),
        ))),
    });
    v
}

impl Endpoint {
    /// Runs the endpoint's runnable against `database`; a database creation
    /// hands back the new database.
    pub fn run(
        &mut self,
        database: &mut Database,
        body: &JsonValue,
        dir_override: Option<String>,
        plan: &mut Vec<StorageAction>,
    ) -> (r: Option<Database>)
        ensures
            final(self).name == old(self).name,
            final(self).role == old(self).role,
            final(self).admin_db == old(self).admin_db,
            runnable_outcome(old(self).admin_db@, old(self).runnable, final(self).runnable, *old(database),
                *final(database), *body, dir_override, *old(plan), *final(plan), r),
    {
        self.runnable.run(&self.admin_db, database, body, dir_override, plan)
    }

    /// The stored result of the endpoint's runnable.
    pub fn result(&self) -> (r: Result<String, String>)
        ensures
            res_view(r) == runnable_result(self.runnable),
    {
        self.runnable.result()
    }

    /// The name of the table the endpoint is bound to.
    pub fn table(&self) -> (r: Result<String, String>)
        ensures
            res_view(r) == runnable_table(self.runnable),
    {
        self.runnable.table()
    }

    /// Roles are informational: every role may run every endpoint.
    pub fn check_role(&self) -> (r: bool)
        ensures
            r,
    {
        true
    }

    /// The endpoints of the server itself.
    pub fn new_server(admin_db: String, role: String) -> (r: Vec<Endpoint>)
        ensures
            r@.len() == 1,
            endpoint_is(r@[0], "create_database"@, role@, admin_db@, Op::CreateDatabase),
            runnable_result(r@[0].runnable) == Err::<Seq<char>, Seq<char>>("Query has not yet been run"@),
    {
        let mut v: Vec<Endpoint> = Vec::new();
        v.push(Endpoint {
            name: String::from_str("create_database"),
            role,
            admin_db,
            runnable: Runnable::Query(Query::QueryNewDatabase(QueryNewDatabase::new(String::from_str("create_database")))),
        });
        v
    }

    /// The endpoints of a new database still in development.
    pub fn new_db(admin_db: &String, role: &String) -> (r: Vec<Endpoint>)
        ensures
            database_template(r@, role@, admin_db@),
    {
        database_endpoints(role, admin_db)
    }

    /// The endpoints of a database rebuilt from storage.
    pub fn prod_db(admin_db: &String, role: &String) -> (r: Vec<Endpoint>)
        ensures
            database_template(r@, role@, admin_db@),
    {
        database_endpoints(role, admin_db)
    }

    /// The endpoints of the admin database, which is its own admin.
    pub fn admin_db(database: &String, role: &String) -> (r: Vec<Endpoint>)
        ensures
            database_template(r@, role@, database@),
    {
        database_endpoints(role, database)
    }

    /// The endpoints of a table.
    pub fn new_table(table: &String, admin_db: &String, role: &String) -> (r: Vec<Endpoint>)
        ensures
            table_template(r@, table@, role@, admin_db@),
    {
        let mut v: Vec<Endpoint> = Vec::new();
        v.push(Endpoint {
            name: String::from_str("create_record"),
            role: role.clone(),
            admin_db: admin_db.clone(),
            runnable: Runnable::Query(Query::QueryTable(QueryTable::TableQueryCreate(
                TableQueryCreate::new(String::from_str("create_record"), table.clone()),
            ))),
        });
        v.push(Endpoint {
            name: String::from_str("read_record"),
            role: role.clone(),
            admin_db: admin_db.clone(),
            runnable: Runnable::Query(Query::QueryTable(QueryTable::TableQueryRead(
                TableQueryRead::new(String::from_str("read_record"), table.clone()),
            ))),
        });
        v.push(Endpoint {
            name: String::from_str("update_record"),
            role: role.clone(),
            admin_db: admin_db.clone(),
            runnable: Runnable::Query(Query::QueryTable(QueryTable::TableQueryUpdate(
                TableQueryUpdate::new(String::from_str("update_record"), table.clone()),
            ))),
        });
        v.push(Endpoint {
            name: String::from_str("delete_record"),
            role: role.clone(),
            admin_db: admin_db.clone(),
            runnable: Runnable::Query(Query::QueryTable(QueryTable::TableQueryDelete(
                TableQueryDelete::new(String::from_str("delete_record"), table.clone()),
            ))),
        });
        v
    }
}

} // verus!

//! Databases: named collections of tables, with their endpoints.

use vstd::prelude::*;
use crate::endpoint::{database_template, table_template, Endpoint};
use crate::json::{field, opt_str_of, JsonValue};
use crate::runnable::runnable_table;
use crate::storage::{creates_dir, removes_dir, removes_file, writes_table_def, writes_text, StorageAction};
use crate::part::part_path;
use crate::table::{columns_view, def_path, defines_column, ColumnModel, ColumnSpec, Table};
use crate::text::same_text;

verus! {

pub struct Database {
    pub name: String,
    pub indev: bool,
    /// The role written in the definition file; informational.
    pub role: String,
    /// Path of the database's directory.
    pub directory: String,
    pub tables: Vec<Table>,
    pub endpoints: Vec<Endpoint>,
}

/// The directory that holds databases: the override if given, else
/// `databases`.
pub open spec fn storage_root(dir_override: Option<String>) -> Seq<char> {
    match dir_override {
        Some(d) => d@,
        None => "databases"@,
    }
}

/// The text of a database's definition file.
pub open spec fn role_definition(role: Seq<char>) -> Seq<char> {
    "{\"role\":\""@ + role + "\"}"@
}

/// The role that a definition file gives: its `role` member when that is a
/// string, else `admin`.
pub open spec fn role_of_definition(def: Option<JsonValue>) -> Seq<char> {
    match def {
        Some(v) => match opt_str_of(field(v, "role"@)) {
            Some(s) => s,
            None => "admin"@,
        },
        None => "admin"@,
    }
}

/// The position of the first table of that name.
pub open spec fn table_position(ts: Seq<Table>, name: Seq<char>) -> Option<int>
    decreases ts.len(),
{
    if ts.len() == 0 {
        None
    } else if ts[0].name@ == name {
        Some(0)
    } else {
        match table_position(ts.drop_first(), name) {
            Some(i) => Some(i + 1),
            None => None,
        }
    }
}

pub open spec fn has_table(ts: Seq<Table>, name: Seq<char>) -> bool {
    exists|i: int| 0 <= i < ts.len() && (#[trigger] ts[i]).name@ == name
}

/// Whether no two tables share a name.
pub open spec fn names_distinct(ts: Seq<Table>) -> bool {
    forall|i: int, j: int| 0 <= i < ts.len() && 0 <= j < ts.len() && i != j ==> (#[trigger] ts[i]).name@ != (#[trigger] ts[j]).name@
}

/// The endpoints that are not bound to the named table, in order.
pub open spec fn endpoints_without(es: Seq<Endpoint>, table: Seq<char>) -> Seq<Endpoint>
    decreases es.len(),
{
    if es.len() == 0 {
        Seq::empty()
    } else if runnable_table(es[0].runnable) == Ok::<Seq<char>, Seq<char>>(table) {
        endpoints_without(es.drop_first(), table)
    } else {
        seq![es[0]] + endpoints_without(es.drop_first(), table)
    }
}

/// What making a table does to a database: the table is appended, with the
/// given columns, auto-increment, and one empty part in a directory of its
/// own, and the four table endpoints after the others; the plan gains its
/// directory, its definition file, and its first part file, empty.
pub open spec fn table_built(
    old_db: Database,
    new_db: Database,
    admin: Seq<char>,
    name: Seq<char>,
    columns: Seq<ColumnModel>,
    old_plan: Vec<StorageAction>,
    new_plan: Vec<StorageAction>,
) -> bool {
    let t = new_db.tables@.last();
    let o = old_plan@.len() as int;
    &&& new_db.name == old_db.name
    &&& new_db.indev == old_db.indev
    &&& new_db.role == old_db.role
    &&& new_db.directory == old_db.directory
    &&& new_db.tables@.len() == old_db.tables@.len() + 1
    &&& new_db.tables@.subrange(0, old_db.tables@.len() as int) == old_db.tables@
    &&& new_db.tables@.last().name@ == name
    &&& new_db.tables@.last().directory@ == old_db.directory@ + seq!['/'] + name
    &&& new_db.tables@.last().records@.len() == 1
    &&& new_db.tables@.last().records@[0].records@.len() == 0
    &&& t.auto_increment
    &&& t.column_definition@.len() == columns.len()
    &&& forall|i: int| 0 <= i < columns.len() ==> defines_column(#[trigger] t.column_definition@[i], i, columns[i])
    &&& new_db.endpoints@.len() == old_db.endpoints@.len() + 4
    &&& new_db.endpoints@.subrange(0, old_db.endpoints@.len() as int) == old_db.endpoints@
    &&& table_template(
        new_db.endpoints@.subrange(old_db.endpoints@.len() as int, new_db.endpoints@.len() as int),
        name,
        old_db.role@,
        admin,
    )
    &&& new_plan@.len() == old_plan@.len() + 3
    &&& new_plan@.subrange(0, old_plan@.len() as int) == old_plan@
    &&& creates_dir(new_plan@[o], t.directory@)
    &&& writes_table_def(new_plan@[o + 1], def_path(t.directory@), true, t.column_definition@)
    &&& writes_text(new_plan@[o + 2], part_path(t.directory@, 0), Seq::empty())
}

/// What deleting the named table does: without such a table nothing changes
/// and the result is an error; otherwise the table and the endpoints bound
/// to it are dropped and, for a table with a directory, the plan gains the
/// removal of its part files, its definition file and its directory.
pub open spec fn table_deleted(
    old_db: Database,
    new_db: Database,
    name: Seq<char>,
    old_plan: Vec<StorageAction>,
    new_plan: Vec<StorageAction>,
    r: Result<String, String>,
) -> bool {
    &&& new_db.name == old_db.name
    &&& new_db.indev == old_db.indev
    &&& new_db.role == old_db.role
    &&& new_db.directory == old_db.directory
    &&& new_plan@.subrange(0, old_plan@.len() as int) == old_plan@
    &&& match table_position(old_db.tables@, name) {
        None => {
            &&& new_db == old_db
            &&& new_plan == old_plan
            &&& r is Err && r->Err_0@ == "table does not exist in database"@
        },
        Some(i) => {
            let t = old_db.tables@[i];
            let n = t.records@.len() as int;
            let o = old_plan@.len() as int;
            &&& new_db.tables@ == old_db.tables@.remove(i)
            &&& new_db.endpoints@ == endpoints_without(old_db.endpoints@, name)
            &&& r is Ok && r->Ok_0@ == "table files deleted and removed from database memory"@
            &&& t.directory@.len() > 0 ==> {
                &&& new_plan@.len() == o + n + 2
                &&& forall|k: int| 0 <= k < n ==> removes_file(#[trigger] new_plan@[o + k], t.records@[k].directory@)
                &&& removes_file(new_plan@[o + n], def_path(t.directory@))
                &&& removes_dir(new_plan@[o + n + 1], t.directory@)
            }
        },
    }
}

/// Whether the endpoints are those of a database made under `admin`, or of
/// the admin database itself when there is none.
pub open spec fn database_template_for(v: Seq<Endpoint>, role: Seq<char>, admin: Option<String>, name: Seq<char>) -> bool {
    match admin {
        Some(a) => database_template(v, role, a@),
        None => database_template(v, role, name),
    }
}

/// The text of a database's definition file.
pub fn definition_text(role: &String) -> (r: String)
    ensures
        r@ == role_definition(role@),
{
    let mut s = String::from_str("{\"role\":\"");
    s.append(role.as_str());
    s.append("\"}");
    s
}

/// The role that a definition file gives.
pub fn role_from_definition(def: &Option<JsonValue>) -> (r: String)
    ensures
        r@ == role_of_definition(*def),
{
    match def {
        Some(v) => match v.get("role") {
            Some(x) => match x.as_str() {
                Some(s) => String::from_str(s),
                None => String::from_str("admin"),
            },
            None => String::from_str("admin"),
        },
        None => String::from_str("admin"),
    }
}

fn database_directory(name: &String, dir_override: &Option<String>) -> (r: String)
    ensures
        r@ == storage_root(*dir_override) + seq!['/'] + name@,
{
    let mut d = match dir_override {
        Some(o) => o.clone(),
        None => String::from_str("databases"),
    };
    proof {
        reveal_strlit("/");
        assert("/"@ =~= seq!['/']);
    }
    d.append("/");
    d.append(name.as_str());
    d
}

/// The position of the first table of that name.
pub fn find_table(tables: &Vec<Table>, name: &str) -> (r: Option<usize>)
    ensures
        match r {
            Some(i) => table_position(tables@, name@) == Some(i as int) && i < tables@.len(),
            None => table_position(tables@, name@) is None,
        },
        r is None <==> !has_table(tables@, name@),
{
    let mut i: usize = 0;
    while i < tables.len()
        invariant
            i <= tables@.len(),
            forall|k: int| 0 <= k < i ==> (#[trigger] tables@[k]).name@ != name@,
        decreases tables@.len() - i,
    {
        if same_text(tables[i].name.as_str(), name) {
            proof {
                Database::lemma_position_at(tables@, name@, i as int);
            }
            return Some(i);
        }
        i = i + 1;
    }
    proof {
        Database::lemma_position_none(tables@, name@);
    }
    None
}

impl Database {
    proof fn lemma_position_at(ts: Seq<Table>, name: Seq<char>, i: int)
        requires
            0 <= i < ts.len(),
            ts[i].name@ == name,
            forall|k: int| 0 <= k < i ==> (#[trigger] ts[k]).name@ != name,
        ensures
            table_position(ts, name) == Some(i),
        decreases i,
    {
        if i > 0 {
            let rest = ts.drop_first();
            assert forall|k: int| 0 <= k < i - 1 implies (#[trigger] rest[k]).name@ != name by {
                assert(rest[k] == ts[k + 1]);
            }
            Self::lemma_position_at(rest, name, i - 1);
        }
    }

    proof fn lemma_position_none(ts: Seq<Table>, name: Seq<char>)
        requires
            forall|k: int| 0 <= k < ts.len() ==> (#[trigger] ts[k]).name@ != name,
        ensures
            table_position(ts, name) is None,
        decreases ts.len(),
    {
        if ts.len() > 0 {
            let rest = ts.drop_first();
            assert forall|k: int| 0 <= k < rest.len() implies (#[trigger] rest[k]).name@ != name by {
                assert(rest[k] == ts[k + 1]);
            }
            Self::lemma_position_none(rest, name);
        }
    }

    /// A new database, still in development, with no tables. The plan gains
    /// its directory, its definition file and its empty log file. A database
    /// made under an admin database gets the endpoints of a new database;
    /// one made without is the admin database, its own admin.
    pub fn new(
        name: String,
        admin_db: Option<String>,
        role: String,
        dir_override: Option<String>,
        plan: &mut Vec<StorageAction>,
    ) -> (r: Database)
        ensures
            r.name == name,
            r.indev,
            r.role == role,
            r.directory@ == storage_root(dir_override) + seq!['/'] + name@,
            r.tables@.len() == 0,
            match admin_db {
                Some(a) => database_template(r.endpoints@, role@, a@),
                None => database_template(r.endpoints@, role@, name@),
            },
            final(plan)@.len() == old(plan)@.len() + 3,
            final(plan)@.subrange(0, old(plan)@.len() as int) == old(plan)@,
            creates_dir(final(plan)@[old(plan)@.len() as int], r.directory@),
            writes_text(final(plan)@[old(plan)@.len() as int + 1], def_path(r.directory@), role_definition(role@)),
            writes_text(final(plan)@[old(plan)@.len() as int + 2], r.directory@ + "/.log"@, Seq::empty()),
    {
        let directory = database_directory(&name, &dir_override);
        let mut def_file = directory.clone();
        proof {
            reveal_strlit("/.def");
            assert("/.def"@ =~= seq!['/', '.', 'd', 'e', 'f']);
        }
        def_file.append("/.def");
        let mut log_file = directory.clone();
        log_file.append("/.log");
        let ghost old_plan = plan@;
        plan.push(StorageAction::CreateDir(directory.clone()));
        plan.push(StorageAction::WriteText(def_file, definition_text(&role)));
        plan.push(StorageAction::WriteText(log_file, String::new()));
        assert(plan@.subrange(0, old_plan.len() as int) =~= old_plan);
        let endpoints = match &admin_db {
            Some(a) => Endpoint::new_db(a, &role),
            None => Endpoint::admin_db(&name, &role),
        };
        Database { name, indev: true, role, directory, tables: Vec::new(), endpoints }
    }

    /// A database rebuilt from its directory: `definition` is what its
    /// definition file held, if it could be read, and `tables` the tables
    /// rebuilt from its subdirectories. Under an admin database it gets the
    /// endpoints of a database and of each table; without one it is the
    /// admin database.
    pub fn build_from_dir(
        db_name: String,
        admin_db: Option<String>,
        dir_override: Option<String>,
        definition: Option<JsonValue>,
        tables: Vec<Table>,
    ) -> (r: Database)
        ensures
            r.name == db_name,
            !r.indev,
            r.role@ == role_of_definition(definition),
            r.directory@ == storage_root(dir_override) + seq!['/'] + db_name@,
            r.tables == tables,
            match admin_db {
                Some(a) => {
                    &&& r.endpoints@.len() == 4 + 4 * tables@.len()
                    &&& database_template(r.endpoints@.subrange(0, 4), r.role@, a@)
                    &&& forall|k: int| 0 <= k < tables@.len() ==> table_template(
                        #[trigger] r.endpoints@.subrange(4 + 4 * k, 8 + 4 * k),
                        tables@[k].name@,
                        r.role@,
                        a@,
                    )
                },
                None => database_template(r.endpoints@, r.role@, db_name@),
            },
    {
        let role = role_from_definition(&definition);
        let directory = database_directory(&db_name, &dir_override);
        let mut endpoints: Vec<Endpoint>;
        match &admin_db {
            Some(a) => {
                endpoints = Endpoint::prod_db(a, &role);
                let mut k: usize = 0;
                while k < tables.len()
                    invariant
                        k <= tables@.len(),
                        endpoints@.len() == 4 + 4 * k,
                        database_template(endpoints@.subrange(0, 4), role@, a@),
                        forall|j: int| 0 <= j < k ==> table_template(
                            #[trigger] endpoints@.subrange(4 + 4 * j, 8 + 4 * j),
                            tables@[j].name@,
                            role@,
                            a@,
                        ),
                    decreases tables@.len() - k,
                {
                    let ghost before = endpoints@;
                    let mut more = Endpoint::new_table(&tables[k].name, a, &role);
                    let ghost added = more@;
                    endpoints.append(&mut more);
                    proof {
                        assert(endpoints@.subrange(0, 4) =~= before.subrange(0, 4));
                        assert forall|j: int| 0 <= j < k + 1 implies table_template(
                            #[trigger] endpoints@.subrange(4 + 4 * j, 8 + 4 * j),
                            tables@[j].name@,
                            role@,
                            a@,
                        ) by {
                            if j < k {
                                assert(endpoints@.subrange(4 + 4 * j, 8 + 4 * j) =~= before.subrange(4 + 4 * j, 8 + 4 * j));
                            } else {
                                assert(endpoints@.subrange(4 + 4 * j, 8 + 4 * j) =~= added);
                            }
                        }
                    }
                    k = k + 1;
                }
            },
            None => {
                endpoints = Endpoint::admin_db(&db_name, &role);
            },
        }
        Database { name: db_name, indev: false, role, directory, tables, endpoints }
    }

    /// Makes a table and its endpoints; whether the name is free is for the
    /// caller to check.
    pub fn build_table(
        &mut self,
        admin_db: &String,
        table_name: String,
        table_columns: Vec<ColumnSpec>,
        plan: &mut Vec<StorageAction>,
    )
        requires
            table_columns@.len() <= 65536,
        ensures
            table_built(*old(self), *final(self), admin_db@, table_name@, columns_view(table_columns@), *old(plan), *final(plan)),
    {
        let mut more = Endpoint::new_table(&table_name, admin_db, &self.role);
        let table = Table::new(self.directory.as_str(), table_name, table_columns, true, plan);
        let ghost before = self.tables@;
        self.tables.push(table);
        assert(self.tables@.subrange(0, before.len() as int) =~= before);
        let ghost eps = self.endpoints@;
        let ghost added = more@;
        self.endpoints.append(&mut more);
        assert(self.endpoints@.subrange(0, eps.len() as int) =~= eps);
        assert(self.endpoints@.subrange(eps.len() as int, self.endpoints@.len() as int) =~= added);
    }

    /// Deletes the named table: plans the removal of its files, drops it
    /// from the database, and drops the endpoints bound to it.
    pub fn delete_table(&mut self, table_name: String, plan: &mut Vec<StorageAction>) -> (r: Result<String, String>)
        ensures
            table_deleted(*old(self), *final(self), table_name@, *old(plan), *final(plan), r),
    {
        let ghost old_self = *self;
        let ghost start_plan = *plan;
        match find_table(&self.tables, table_name.as_str()) {
            None => {
                assert(plan@.subrange(0, plan@.len() as int) =~= plan@);
                Err(String::from_str("table does not exist in database"))
            },
            Some(i) => {
                let ghost old_plan = plan@;
                let _ = self.tables[i].query_delete_table(plan);
                let _ = self.tables.remove(i);
                let mut old_endpoints: Vec<Endpoint> = Vec::new();
                std::mem::swap(&mut self.endpoints, &mut old_endpoints);
                let ghost all = old_endpoints@;
                let mut kept: Vec<Endpoint> = Vec::new();
                while old_endpoints.len() > 0
                    invariant
                        endpoints_without(all, table_name@) == kept@ + endpoints_without(old_endpoints@, table_name@),
                    decreases old_endpoints@.len(),
                {
                    let ghost rest = old_endpoints@;
                    let e = old_endpoints.remove(0);
                    assert(rest.drop_first() =~= old_endpoints@);
                    let bound = match e.table() {
                        Ok(t) => same_text(t.as_str(), table_name.as_str()),
                        Err(_) => false,
                    };
                    if !bound {
                        kept.push(e);
                        assert(kept@ + endpoints_without(old_endpoints@, table_name@) =~= kept@.drop_last() + endpoints_without(rest, table_name@));
                    }
                }
                assert(kept@ =~= kept@ + endpoints_without(old_endpoints@, table_name@));
                self.endpoints = kept;
                let r = Ok(String::from_str("table files deleted and removed from database memory"));
                proof {
                    let t = old_self.tables@[i as int];
                    let n = t.records@.len() as int;
                    let o = start_plan@.len() as int;
                    assert(self.tables@ == old_self.tables@.remove(i as int));
                    assert(self.endpoints@ == endpoints_without(old_self.endpoints@, table_name@));
                    assert(plan@.subrange(0, o) == start_plan@);
                    if t.directory@.len() > 0 {
                        assert(plan@.len() == o + n + 2);
                        assert(removes_file(plan@[o + n], def_path(t.directory@)));
                        assert(removes_dir(plan@[o + n + 1], t.directory@));
                    }
                }
                r
            },
        }
    }
}

} // verus!

//! The server: the registry of databases and the dispatch of requests to
//! endpoints.

use vstd::prelude::*;
use crate::database::Database;
use crate::endpoint::Endpoint;
use crate::json::JsonValue;
use crate::runnable::{runnable_outcome, runnable_result, runnable_table};
use crate::storage::StorageAction;
use crate::text::same_text;

verus! {

/// The registry of databases, the first being the admin database, and the
/// server's own endpoints.
pub struct Server {
    pub databases: Vec<Database>,
    pub endpoints: Vec<Endpoint>,
}

/// A path without its leading slashes.
pub open spec fn strip_front(s: Seq<char>) -> Seq<char>
    decreases s.len(),
{
    if s.len() > 0 && s[0] == '/' {
        strip_front(s.drop_first())
    } else {
        s
    }
}

/// A path without its trailing slashes.
pub open spec fn strip_back(s: Seq<char>) -> Seq<char>
    decreases s.len(),
{
    if s.len() > 0 && s.last() == '/' {
        strip_back(s.drop_last())
    } else {
        s
    }
}

/// The runs of a text between occurrences of `sep`, empty runs included.
pub open spec fn split_on(s: Seq<char>, sep: char) -> Seq<Seq<char>>
    decreases s.len(),
{
    if s.len() == 0 {
        seq![Seq::empty()]
    } else {
        let p = split_on(s.drop_last(), sep);
        if s.last() == sep {
            p.push(Seq::empty())
        } else {
            p.update(p.len() - 1, p.last().push(s.last()))
        }
    }
}

/// The segments of a path: leading and trailing slashes are stripped, and
/// the rest is split at every `/`; a path of slashes only has no segment.
pub open spec fn path_segments(s: Seq<char>) -> Seq<Seq<char>> {
    let t = strip_back(strip_front(s));
    if t.len() == 0 {
        Seq::empty()
    } else {
        split_on(t, '/')
    }
}

pub open spec fn strings_view(v: Seq<String>) -> Seq<Seq<char>> {
    v.map_values(|x: String| x@)
}

/// Splits a text at every occurrence of `sep`.
pub fn split_text(s: &str, sep: char) -> (r: Vec<String>)
    ensures
        strings_view(r@) == split_on(s@, sep),
{
    let n = s.unicode_len();
    let mut r: Vec<String> = Vec::new();
    let mut start: usize = 0;
    let mut i: usize = 0;
    assert(strings_view(r@) =~= Seq::<Seq<char>>::empty());
    assert(s@.subrange(0, 0) =~= Seq::<char>::empty());
    assert(split_on(s@.subrange(0, 0), sep) =~= strings_view(r@).push(s@.subrange(0, 0)));
    while i < n
        invariant
            n == s@.len(),
            start <= i <= n,
            split_on(s@.subrange(0, i as int), sep) == strings_view(r@).push(s@.subrange(start as int, i as int)),
        decreases n - i,
    {
        let c = s.get_char(i);
        let ghost prev = strings_view(r@);
        let ghost cur = s@.subrange(start as int, i as int);
        proof {
            assert(s@.subrange(0, i + 1).drop_last() =~= s@.subrange(0, i as int));
            assert(s@.subrange(0, i + 1).last() == c);
        }
        if c == sep {
            let seg = String::from_str(s.substring_char(start, i));
            r.push(seg);
            start = i + 1;
            assert(strings_view(r@) =~= prev.push(cur));
            assert(s@.subrange(start as int, i + 1) =~= Seq::<char>::empty());
        } else {
            assert(s@.subrange(start as int, i + 1) =~= cur.push(c));
            assert(prev.push(cur).update(prev.len() as int, cur.push(c)) =~= prev.push(cur.push(c)));
        }
        i = i + 1;
    }
    assert(s@.subrange(0, n as int) =~= s@);
    let seg = String::from_str(s.substring_char(start, n));
    let ghost prev = strings_view(r@);
    r.push(seg);
    assert(strings_view(r@) =~= prev.push(seg@));
    r
}

/// Splits a request path into its segments.
pub fn split_path(path: &str) -> (r: Vec<String>)
    ensures
        strings_view(r@) == path_segments(path@),
{
    let n = path.unicode_len();
    let mut a: usize = 0;
    assert(path@.subrange(0, n as int) =~= path@);
    while a < n && path.get_char(a) == '/'
        invariant
            n == path@.len(),
            a <= n,
            strip_front(path@) == strip_front(path@.subrange(a as int, n as int)),
        decreases n - a,
    {
        assert(path@.subrange(a as int, n as int).drop_first() =~= path@.subrange(a + 1, n as int));
        a = a + 1;
    }
    let ghost front = path@.subrange(a as int, n as int);
    assert(strip_front(path@) == front);
    let mut b: usize = n;
    while b > a && path.get_char(b - 1) == '/'
        invariant
            n == path@.len(),
            a <= b <= n,
            front == path@.subrange(a as int, n as int),
            strip_back(front) == strip_back(path@.subrange(a as int, b as int)),
        decreases b - a,
    {
        assert(path@.subrange(a as int, b as int).drop_last() =~= path@.subrange(a as int, b - 1));
        b = b - 1;
    }
    assert(strip_back(front) == path@.subrange(a as int, b as int));
    if a == b {
        let r: Vec<String> = Vec::new();
        assert(strings_view(r@) =~= Seq::<Seq<char>>::empty());
        return r;
    }
    split_text(path.substring_char(a, b), '/')
}

/// The text of a stored result, success or error.
pub open spec fn result_text(r: Result<Seq<char>, Seq<char>>) -> Seq<char> {
    match r {
        Ok(s) => s,
        Err(e) => e,
    }
}

/// The first database of that name.
pub open spec fn database_position(dbs: Seq<Database>, name: Seq<char>) -> Option<int>
    decreases dbs.len(),
{
    if dbs.len() == 0 {
        None
    } else if dbs[0].name@ == name {
        Some(0)
    } else {
        match database_position(dbs.drop_first(), name) {
            Some(i) => Some(i + 1),
            None => None,
        }
    }
}

/// Whether an endpoint has that name and, where a table is given, is bound
/// to it.
pub open spec fn endpoint_fits(e: Endpoint, name: Seq<char>, table: Option<Seq<char>>) -> bool {
    e.name@ == name && match table {
        Some(t) => runnable_table(e.runnable) == Ok::<Seq<char>, Seq<char>>(t),
        None => true,
    }
}

/// The first endpoint that fits.
pub open spec fn endpoint_position(es: Seq<Endpoint>, name: Seq<char>, table: Option<Seq<char>>) -> Option<int>
    decreases es.len(),
{
    if es.len() == 0 {
        None
    } else if endpoint_fits(es[0], name, table) {
        Some(0)
    } else {
        match endpoint_position(es.drop_first(), name, table) {
            Some(i) => Some(i + 1),
            None => None,
        }
    }
}

/// The endpoint that a database-scoped method names, and the reply when the
/// database has none.
pub open spec fn database_method(method: Seq<char>) -> Option<(Seq<char>, Seq<char>)> {
    if method == "CREATE_TABLE"@ {
        Some(("create_table"@, "table creation endpoint not found"@))
    } else if method == "UPDATE_TABLE"@ {
        Some(("update_table"@, "table update endpoint not found"@))
    } else if method == "DELETE_TABLE"@ {
        Some(("delete_table"@, "table delete endpoint not found"@))
    } else if method == "INDEV_TOGGLE"@ {
        Some(("indev_toggle"@, "table indev toggle endpoint not found"@))
    } else {
        None
    }
}

/// The endpoint that a record-scoped method names, and the reply when the
/// table has none.
pub open spec fn record_method(method: Seq<char>) -> Option<(Seq<char>, Seq<char>)> {
    if method == "CREATE_RECORD"@ {
        Some(("create_record"@, "record creation endpoint not found"@))
    } else if method == "READ_RECORD"@ {
        Some(("read_record"@, "record read endpoint not found"@))
    } else if method == "UPDATE_RECORD"@ {
        Some(("update_record"@, "record update endpoint not found"@))
    } else if method == "DELETE_RECORD"@ {
        Some(("delete_record"@, "record deletion endpoint not found"@))
    } else {
        None
    }
}

/// Whether `new_db` is `old_db` after running its endpoint `k`: the
/// endpoint is taken out, run against the database, and put back at its
/// place (at the end, should the list have grown shorter than that).
pub open spec fn endpoint_ran(
    old_db: Database,
    new_db: Database,
    k: int,
    body: JsonValue,
    old_plan: Vec<StorageAction>,
    new_plan: Vec<StorageAction>,
    e: Endpoint,
) -> bool {
    let o = old_db.endpoints@[k];
    &&& e.name == o.name
    &&& e.role == o.role
    &&& e.admin_db == o.admin_db
    &&& exists|mid: Database, after: Database, created: Option<Database>| {
        &&& mid.name == old_db.name
        &&& mid.indev == old_db.indev
        &&& mid.role == old_db.role
        &&& mid.directory == old_db.directory
        &&& mid.tables == old_db.tables
        &&& mid.endpoints@ == old_db.endpoints@.remove(k)
        &&& #[trigger] runnable_outcome(o.admin_db@, o.runnable, e.runnable, mid, after, body, None, old_plan, new_plan, created)
        &&& new_db.name == after.name
        &&& new_db.indev == after.indev
        &&& new_db.role == after.role
        &&& new_db.directory == after.directory
        &&& new_db.tables == after.tables
        &&& new_db.endpoints@ == if k <= after.endpoints@.len() {
            after.endpoints@.insert(k, e)
        } else {
            after.endpoints@.push(e)
        }
    }
}

proof fn lemma_database_at(dbs: Seq<Database>, name: Seq<char>, i: int)
    requires
        0 <= i < dbs.len(),
        dbs[i].name@ == name,
        forall|k: int| 0 <= k < i ==> (#[trigger] dbs[k]).name@ != name,
    ensures
        database_position(dbs, name) == Some(i),
    decreases i,
{
    if i > 0 {
        let rest = dbs.drop_first();
        assert forall|k: int| 0 <= k < i - 1 implies (#[trigger] rest[k]).name@ != name by {
            assert(rest[k] == dbs[k + 1]);
        }
        lemma_database_at(rest, name, i - 1);
    }
}

proof fn lemma_database_none(dbs: Seq<Database>, name: Seq<char>)
    requires
        forall|k: int| 0 <= k < dbs.len() ==> (#[trigger] dbs[k]).name@ != name,
    ensures
        database_position(dbs, name) is None,
    decreases dbs.len(),
{
    if dbs.len() > 0 {
        let rest = dbs.drop_first();
        assert forall|k: int| 0 <= k < rest.len() implies (#[trigger] rest[k]).name@ != name by {
            assert(rest[k] == dbs[k + 1]);
        }
        lemma_database_none(rest, name);
    }
}

proof fn lemma_endpoint_at(es: Seq<Endpoint>, name: Seq<char>, table: Option<Seq<char>>, i: int)
    requires
        0 <= i < es.len(),
        endpoint_fits(es[i], name, table),
        forall|k: int| 0 <= k < i ==> !endpoint_fits(#[trigger] es[k], name, table),
    ensures
        endpoint_position(es, name, table) == Some(i),
    decreases i,
{
    if i > 0 {
        let rest = es.drop_first();
        assert forall|k: int| 0 <= k < i - 1 implies !endpoint_fits(#[trigger] rest[k], name, table) by {
            assert(rest[k] == es[k + 1]);
        }
        lemma_endpoint_at(rest, name, table, i - 1);
    }
}

proof fn lemma_endpoint_none(es: Seq<Endpoint>, name: Seq<char>, table: Option<Seq<char>>)
    requires
        forall|k: int| 0 <= k < es.len() ==> !endpoint_fits(#[trigger] es[k], name, table),
    ensures
        endpoint_position(es, name, table) is None,
    decreases es.len(),
{
    if es.len() > 0 {
        let rest = es.drop_first();
        assert forall|k: int| 0 <= k < rest.len() implies !endpoint_fits(#[trigger] rest[k], name, table) by {
            assert(rest[k] == es[k + 1]);
        }
        lemma_endpoint_none(rest, name, table);
    }
}

/// The position of the first database of that name.
pub fn find_database(dbs: &Vec<Database>, name: &str) -> (r: Option<usize>)
    ensures
        match r {
            Some(i) => i < dbs@.len() && database_position(dbs@, name@) == Some(i as int),
            None => database_position(dbs@, name@) is None,
        },
{
    let mut i: usize = 0;
    while i < dbs.len()
        invariant
            i <= dbs@.len(),
            forall|k: int| 0 <= k < i ==> (#[trigger] dbs@[k]).name@ != name@,
        decreases dbs@.len() - i,
    {
        if same_text(dbs[i].name.as_str(), name) {
            proof {
                lemma_database_at(dbs@, name@, i as int);
            }
            return Some(i);
        }
        i = i + 1;
    }
    proof {
        lemma_database_none(dbs@, name@);
    }
    None
}

/// The position of the first endpoint that fits.
pub fn find_endpoint(es: &Vec<Endpoint>, name: &str, table: Option<&str>) -> (r: Option<usize>)
    ensures
        match r {
            Some(i) => i < es@.len() && endpoint_position(es@, name@, match table { Some(t) => Some(t@), None => None }) == Some(i as int),
            None => endpoint_position(es@, name@, match table { Some(t) => Some(t@), None => None }) is None,
        },
{
    let ghost tv = match table { Some(t) => Some(t@), None => None::<Seq<char>> };
    let mut i: usize = 0;
    while i < es.len()
        invariant
            i <= es@.len(),
            tv == match table { Some(t) => Some(t@), None => None::<Seq<char>> },
            forall|k: int| 0 <= k < i ==> !endpoint_fits(#[trigger] es@[k], name@, tv),
        decreases es@.len() - i,
    {
        let e = &es[i];
        let fits = if same_text(e.name.as_str(), name) {
            match table {
                Some(t) => match e.table() {
                    Ok(bound) => same_text(bound.as_str(), t),
                    Err(_) => false,
                },
                None => true,
            }
        } else {
            false
        };
        if fits {
            proof {
                lemma_endpoint_at(es@, name@, tv, i as int);
            }
            return Some(i);
        }
        i = i + 1;
    }
    proof {
        lemma_endpoint_none(es@, name@, tv);
    }
    None
}

fn text_of(r: Result<String, String>) -> (t: String)
    ensures
        t@ == result_text(crate::query::res_view(r)),
{
    match r {
        Ok(s) => s,
        Err(e) => e,
    }
}

/// What running database endpoint `k` does and replies.
fn run_database_endpoint(db: &mut Database, k: usize, body: &JsonValue, plan: &mut Vec<StorageAction>) -> (r: String)
    requires
        k < old(db).endpoints@.len(),
    ensures
        exists|e: Endpoint| {
            &&& #[trigger] endpoint_ran(*old(db), *final(db), k as int, *body, *old(plan), *final(plan), e)
            &&& r@ == result_text(runnable_result(e.runnable))
        },
{
    let ghost old_db = *db;
    let ghost old_plan = *plan;
    let mut ep = db.endpoints.remove(k);
    let _ = ep.run(db, body, None, plan);
    let text = text_of(ep.result());
    let ghost e = ep;
    if k <= db.endpoints.len() {
        db.endpoints.insert(k, ep);
    } else {
        db.endpoints.push(ep);
    }
    assert(endpoint_ran(old_db, *db, k as int, *body, old_plan, *plan, e));
    text
}

/// The endpoint that a method names at the scope of a path of `n` segments.
pub open spec fn scoped_method(method: Seq<char>, n: nat) -> Option<(Seq<char>, Seq<char>)> {
    if n == 1 {
        database_method(method)
    } else {
        record_method(method)
    }
}

/// The table that a path names, if it has two segments.
pub open spec fn scoped_table(path: Seq<String>) -> Option<Seq<char>> {
    if path.len() == 2 {
        Some(path[1]@)
    } else {
        None
    }
}

/// What the server does with a request addressed to a database or a table.
pub open spec fn scoped_outcome(
    old_s: Server,
    new_s: Server,
    method: Seq<char>,
    path: Seq<String>,
    body: JsonValue,
    old_plan: Vec<StorageAction>,
    new_plan: Vec<StorageAction>,
    r: Seq<char>,
) -> bool {
    let unchanged = new_s == old_s && new_plan == old_plan;
        match database_position(old_s.databases@, path[0]@) {
        None => unchanged && r == "database not found"@,
        Some(d) => {
            match scoped_method(method, path.len()) {
                None => unchanged && r == "request method not recognised"@,
                Some((name, missing)) => match endpoint_position(old_s.databases@[d].endpoints@, name, scoped_table(path)) {
                    None => unchanged && r == missing,
                    Some(k) => {
                        &&& new_s.endpoints == old_s.endpoints
                        &&& new_s.databases@ == old_s.databases@.update(d, new_s.databases@[d])
                        &&& exists|e: Endpoint| {
                            &&& #[trigger] endpoint_ran(old_s.databases@[d], new_s.databases@[d], k, body, old_plan, new_plan, e)
                            &&& r == result_text(runnable_result(e.runnable))
                        }
                    },
                },
            }
        },
    }
}

/// What the server does with a request and replies.
pub open spec fn request_outcome(
    old_s: Server,
    new_s: Server,
    method: Seq<char>,
    path: Seq<String>,
    body: JsonValue,
    dir_override: Option<String>,
    old_plan: Vec<StorageAction>,
    new_plan: Vec<StorageAction>,
    r: Seq<char>,
) -> bool {
    let unchanged = new_s == old_s && new_plan == old_plan;
    if method == "CREATE_DATABASE"@ {
        match endpoint_position(old_s.endpoints@, "create_database"@, None) {
            None => unchanged && r == "new database endpoint not found"@,
            Some(k) => if old_s.databases@.len() == 0 {
                unchanged && r == "admin database not initialised or not attached"@
            } else {
                let o = old_s.endpoints@[k];
                let e = new_s.endpoints@[k];
                &&& new_s.endpoints@ == old_s.endpoints@.update(k, e)
                &&& e.name == o.name
                &&& e.role == o.role
                &&& e.admin_db == o.admin_db
                &&& r == result_text(runnable_result(e.runnable))
                &&& exists|created: Option<Database>, admin_after: Database| {
                    &&& #[trigger] runnable_outcome(o.admin_db@, o.runnable, e.runnable, old_s.databases@[0],
                        admin_after, body, dir_override, old_plan, new_plan, created)
                    &&& new_s.databases@ == match created {
                        Some(d) => old_s.databases@.update(0, admin_after).push(d),
                        None => old_s.databases@.update(0, admin_after),
                    }
                }
            },
        }
    } else if path.len() == 1 || path.len() == 2 {
        scoped_outcome(old_s, new_s, method, path, body, old_plan, new_plan, r)
    } else {
        unchanged && r == "requires path to database"@
    }
}

fn method_endpoint(method: &str, record_scope: bool) -> (r: Option<(&'static str, &'static str)>)
    ensures
        match (r, if record_scope { record_method(method@) } else { database_method(method@) }) {
            (Some((a, b)), Some((x, y))) => a@ == x && b@ == y,
            (None, None) => true,
            _ => false,
        },
{
    if !record_scope {
        if same_text(method, "CREATE_TABLE") {
            Some(("create_table", "table creation endpoint not found"))
        } else if same_text(method, "UPDATE_TABLE") {
            Some(("update_table", "table update endpoint not found"))
        } else if same_text(method, "DELETE_TABLE") {
            Some(("delete_table", "table delete endpoint not found"))
        } else if same_text(method, "INDEV_TOGGLE") {
            Some(("indev_toggle", "table indev toggle endpoint not found"))
        } else {
            None
        }
    } else {
        if same_text(method, "CREATE_RECORD") {
            Some(("create_record", "record creation endpoint not found"))
        } else if same_text(method, "READ_RECORD") {
            Some(("read_record", "record read endpoint not found"))
        } else if same_text(method, "UPDATE_RECORD") {
            Some(("update_record", "record update endpoint not found"))
        } else if same_text(method, "DELETE_RECORD") {
            Some(("delete_record", "record deletion endpoint not found"))
        } else {
            None
        }
    }
}

impl Server {
    /// A server whose registry holds the admin database, with the server's
    /// own endpoints.
    pub fn new(admin: Database, role: String) -> (r: Server)
        ensures
            r.databases@ == seq![admin],
            r.endpoints@.len() == 1,
            crate::endpoint::endpoint_is(r.endpoints@[0], "create_database"@, role@, admin.name@,
                crate::runnable::Op::CreateDatabase),
            runnable_result(r.endpoints@[0].runnable) == Err::<Seq<char>, Seq<char>>("Query has not yet been run"@),
    {
        let endpoints = Endpoint::new_server(admin.name.clone(), role);
        let mut databases: Vec<Database> = Vec::new();
        databases.push(admin);
        Server { databases, endpoints }
    }

    /// Dispatches a request: `CREATE_DATABASE` to the server's
    /// `create_database` endpoint, registering the new database; otherwise
    /// the first path segment names a database and, with one segment, the
    /// method a database endpoint, with two, a record endpoint bound to the
    /// table that the second segment names. The reply is the endpoint's
    /// result, or why no endpoint ran.
    pub fn match_endpoint(
        &mut self,
        method: &str,
        path: &Vec<String>,
        body: &JsonValue,
        dir_override: Option<String>,
        plan: &mut Vec<StorageAction>,
    ) -> (r: String)
        ensures
            request_outcome(*old(self), *final(self), method@, path@, *body, dir_override, *old(plan), *final(plan), r@),
    {
        if same_text(method, "CREATE_DATABASE") {
            let k = match find_endpoint(&self.endpoints, "create_database", None) {
                Some(k) => k,
                None => return String::from_str("new database endpoint not found"),
            };
            if self.databases.len() == 0 {
                return String::from_str("admin database not initialised or not attached");
            }
            let ghost old_s = *self;
            let ghost old_plan = *plan;
            let created = self.endpoints[k].run(&mut self.databases[0], body, dir_override, plan);
            let text = text_of(self.endpoints[k].result());
            let ghost admin_after = self.databases@[0];
            let ghost cr = created;
            match created {
                Some(db) => {
                    self.databases.push(db);
                },
                None => {},
            }
            proof {
                let o = old_s.endpoints@[k as int];
                let e = self.endpoints@[k as int];
                assert(self.endpoints@ =~= old_s.endpoints@.update(k as int, e));
                assert(runnable_outcome(o.admin_db@, o.runnable, e.runnable, old_s.databases@[0],
                    admin_after, *body, dir_override, old_plan, *plan, cr));
                assert(self.databases@ =~= match cr {
                    Some(d) => old_s.databases@.update(0, admin_after).push(d),
                    None => old_s.databases@.update(0, admin_after),
                });
            }
            return text;
        }
        let n = path.len();
        if n != 1 && n != 2 {
            return String::from_str("requires path to database");
        }
        let d = match find_database(&self.databases, path[0].as_str()) {
            Some(d) => d,
            None => return String::from_str("database not found"),
        };
        let (name, missing) = match method_endpoint(method, n == 2) {
            Some(p) => p,
            None => return String::from_str("request method not recognised"),
        };
        let table = if n == 2 { Some(path[1].as_str()) } else { None };
        let k = match find_endpoint(&self.databases[d].endpoints, name, table) {
            Some(k) => k,
            None => return String::from_str(missing),
        };
        let ghost old_s = *self;
        let ghost old_plan = *plan;
        assert(scoped_method(method@, path@.len()) == Some((name@, missing@)));
        let r = run_database_endpoint(&mut self.databases[d], k, body, plan);
        assert(self.databases@ =~= old_s.databases@.update(d as int, self.databases@[d as int]));
        proof {
            let e = choose|e: Endpoint| {
                &&& #[trigger] endpoint_ran(old_s.databases@[d as int], self.databases@[d as int], k as int, *body, old_plan, *plan, e)
                &&& r@ == result_text(runnable_result(e.runnable))
            };
            assert(endpoint_ran(old_s.databases@[d as int], self.databases@[d as int], k as int, *body, old_plan, *plan, e));
            match database_position(old_s.databases@, path@[0]@) {
                Some(d2) => match scoped_method(method@, path@.len()) {
                    Some((nm, ms)) => match endpoint_position(old_s.databases@[d2].endpoints@, nm, scoped_table(path@)) {
                        Some(k2) => assert(d2 == d && k2 == k),
                        None => {},
                    },
                    None => {},
                },
                None => {},
            }
        }
        assert(scoped_outcome(old_s, *self, method@, path@, *body, old_plan, *plan, r@));
        r
    }
}

} // verus!

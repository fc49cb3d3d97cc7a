use obj_db::cell::{Cell, CellValue, Comparison};
use obj_db::conditional::{Condition, Conditional, Relation};
use obj_db::database::Database;
use obj_db::json::JsonValue;
use obj_db::part::Part;
use obj_db::record::{render_records, Record};
use obj_db::request::Request;
use obj_db::server::split_path;
use obj_db::server::Server;
use obj_db::storage::StorageAction;
use obj_db::table::Table;

fn s(x: &str) -> String {
    x.to_string()
}

fn text(x: &str) -> JsonValue {
    JsonValue::Str(s(x))
}

fn obj(members: Vec<(&str, JsonValue)>) -> JsonValue {
    JsonValue::Object(members.into_iter().map(|(k, v)| (s(k), v)).collect())
}

fn arr(items: Vec<JsonValue>) -> JsonValue {
    JsonValue::Array(items)
}

fn path(p: &[&str]) -> Vec<String> {
    p.iter().map(|x| s(x)).collect()
}

fn ulong(name: &str, v: u128) -> CellValue {
    CellValue::ULong { name: s(name), data: Some(v) }
}

fn string(name: &str, v: &str) -> CellValue {
    CellValue::String { name: s(name), data: Some(s(v)) }
}

fn columns() -> Vec<(String, String, Option<String>, bool, bool, Option<(String, String)>)> {
    vec![
        (s("id"), s("ULong"), None, true, true, None),
        (s("name"), s("String"), Some(s("unnamed")), false, false, None),
    ]
}

fn item(id: u128, name: &str) -> Record {
    Record { columns: vec![ulong("id", id), string("name", name)] }
}

fn wildcard() -> Condition {
    Condition {
        target_column: String::new(),
        conditional: Conditional::All,
        value: CellValue::Bool { name: String::new(), data: None },
        relational: None,
    }
}

fn id_equals(v: u128) -> Condition {
    Condition { target_column: s("id"), conditional: Conditional::Equal, value: ulong("id", v), relational: None }
}

fn shop(plan: &mut Vec<StorageAction>) -> Server {
    let admin = Database::new(s("admin"), None, s("ADMIN"), Some(s("admin_database")), plan);
    let mut server = Server::new(admin, s("ADMIN"));
    let body = obj(vec![("database_name", text("shop"))]);
    server.match_endpoint("CREATE_DATABASE", &vec![], &body, None, plan);
    server
}

fn create_items(server: &mut Server, plan: &mut Vec<StorageAction>) -> String {
    let cols = arr(vec![
        arr(vec![text("id"), text("ULong"), text(""), text("true"), text("1"), JsonValue::Null]),
        arr(vec![text("name"), text("String"), text("unnamed"), text("no"), JsonValue::Bool(false), text("orders.name")]),
    ]);
    let body = obj(vec![("table_name", text("items")), ("columns", cols)]);
    server.match_endpoint("CREATE_TABLE", &path(&["shop"]), &body, None, plan)
}

#[test]
fn round_trip_through_part_files() {
    let mut plan = Vec::new();
    let mut table = Table::new("databases/shop", s("items"), columns(), true, &mut plan);
    let r = table.query_create(vec![item(1, "a"), item(2, "b"), item(3, "c")], &mut plan);
    assert_eq!(r, Ok(s("records created")));
    let mut entries: Vec<(String, Vec<Record>)> = Vec::new();
    for a in &plan {
        if let StorageAction::WritePart(p, recs) = a {
            let name = p.rsplit('/').next().unwrap().to_string();
            entries.retain(|(n, _)| *n != name);
            entries.push((name, recs.clone()));
        }
    }
    let rebuilt = Table::build_from_dir(s("databases/shop/items"), Some((true, Vec::new())), entries);
    assert_eq!(rebuilt.name, "items");
    assert_eq!(rebuilt.records.len(), 1);
    assert_eq!(rebuilt.records[0].key_range, vec![1u128, 2, 3]);
    let before = render_records(&table.query_search_columns(&vec![wildcard()]));
    let after = render_records(&rebuilt.query_search_columns(&vec![wildcard()]));
    assert_eq!(before, after);
    assert_eq!(after, "{ {{id, 1}}, {{name, a}} }, { {{id, 2}}, {{name, b}} }, { {{id, 3}}, {{name, c}} }");
}

#[test]
fn parts_are_rebuilt_in_index_order() {
    let entries = vec![
        (s("p1"), vec![item(2, "second")]),
        (s("p0"), vec![item(1, "first")]),
        (s("p3"), vec![item(4, "orphan")]),
    ];
    let t = Table::build_from_dir(s("databases/shop/items"), None, entries);
    assert_eq!(t.records.len(), 2);
    assert_eq!(t.records[0].directory, "databases/shop/items/p0");
    assert_eq!(t.records[1].index, 1);
    assert!(t.column_definition.is_empty());
    assert!(!t.auto_increment);
}

#[test]
fn insert_without_key_fails_and_leaves_part() {
    let mut plan = Vec::new();
    let mut part = Part::new("dir", 0, 4096, &mut plan);
    assert!(matches!(&plan[0], StorageAction::WriteText(p, t) if p == "dir/p0" && t.is_empty()));
    plan.clear();
    let indexer = Cell::CellDef {
        name: s("id"),
        index: 0,
        ctype: CellValue::ULong { name: s("id"), data: None },
        default: false,
        not_null: true,
        unique: true,
        primary_key: true,
        foreign_key: None,
    };
    let missing = Record { columns: vec![string("name", "x")] };
    assert_eq!(part.query_create_record(missing, &indexer, &mut plan), Err(s("table indexer could not find matching name on record")));
    let wrong = Record { columns: vec![string("id", "1")] };
    assert_eq!(part.query_create_record(wrong, &indexer, &mut plan), Err(s("table indexer was not correct type of ULong")));
    let empty = Record { columns: vec![CellValue::ULong { name: s("id"), data: None }] };
    assert_eq!(part.query_create_record(empty, &indexer, &mut plan), Err(s("submitted table index is None")));
    assert!(part.records.is_empty());
    assert!(part.key_range.is_empty());
    assert!(plan.is_empty());
    assert_eq!(part.query_create_record(item(7, "ok"), &indexer, &mut plan), Ok(s("record created")));
    assert_eq!(part.key_range, vec![7u128]);
    assert_eq!(plan.len(), 1);
}

#[test]
fn second_delete_finds_nothing() {
    let mut plan = Vec::new();
    let mut table = Table::new("db", s("t"), columns(), true, &mut plan);
    table.query_create(vec![item(1, "a"), item(2, "b")], &mut plan).unwrap();
    let first = table.query_delete_records(&vec![id_equals(1)], &mut plan);
    assert_eq!(first, Ok(s("matching records found and deleted successfully")));
    let second = table.query_delete_records(&vec![id_equals(1)], &mut plan);
    assert_eq!(second, Ok(s("no matching records found or deleted")));
    assert_eq!(table.records[0].records.len(), 1);
    assert_eq!(table.records[0].key_range, vec![2u128]);
}

#[test]
fn key_range_follows_the_records() {
    let mut part = Part::load_from_dir(s("d/p0"), 4096, 0, vec![item(1, "a"), item(2, "b")]);
    assert_eq!(part.key_range, vec![1u128, 2]);
    let _ = part.query_delete_records(&vec![wildcard()]);
    assert!(part.records.is_empty());
    assert!(part.key_range.is_empty());
    let mut part = Part::load_from_dir(s("d/p0"), 4096, 0, vec![item(3, "c")]);
    assert_eq!(part.empty(), Ok(s("records successully cleared from in memory part")));
    assert!(part.key_range.is_empty());
}

#[test]
fn wildcard_reads_everything_and_unknown_column_nothing() {
    let mut plan = Vec::new();
    let mut table = Table::new("db", s("t"), columns(), true, &mut plan);
    table.query_create(vec![item(1, "a"), item(2, "b")], &mut plan).unwrap();
    assert_eq!(table.query_search_columns(&vec![wildcard()]).len(), 2);
    let unknown = Condition {
        target_column: s("colour"),
        conditional: Conditional::Equal,
        value: string("colour", "red"),
        relational: None,
    };
    assert!(table.query_search_columns(&vec![unknown]).is_empty());
    let not_equal = Condition {
        target_column: s("colour"),
        conditional: Conditional::NotEqual,
        value: string("colour", "red"),
        relational: None,
    };
    assert!(table.query_search_columns(&vec![wildcard(), not_equal]).is_empty());
}

#[test]
fn delete_table_then_create_again() {
    let mut plan = Vec::new();
    let mut server = shop(&mut plan);
    assert_eq!(create_items(&mut server, &mut plan), "table successfully created");
    let body = obj(vec![("table_name", text("items"))]);
    assert_eq!(
        server.match_endpoint("DELETE_TABLE", &path(&["shop"]), &body, None, &mut plan),
        "table files deleted and removed from database memory"
    );
    assert_eq!(server.databases[1].endpoints.len(), 4);
    assert_eq!(create_items(&mut server, &mut plan), "table successfully created");
    assert_eq!(server.databases[1].tables.len(), 1);
    assert_eq!(server.databases[1].endpoints.len(), 8);
}

#[test]
fn duplicate_table_is_refused() {
    let mut plan = Vec::new();
    let mut server = shop(&mut plan);
    create_items(&mut server, &mut plan);
    let before = plan.len();
    assert_eq!(create_items(&mut server, &mut plan), "table with requested name already exists");
    assert_eq!(server.databases[1].tables.len(), 1);
    assert_eq!(server.databases[1].endpoints.len(), 8);
    assert_eq!(plan.len(), before);
}

#[test]
fn column_flags_and_foreign_key_are_read() {
    let mut plan = Vec::new();
    let mut server = shop(&mut plan);
    create_items(&mut server, &mut plan);
    let defs = &server.databases[1].tables[0].column_definition;
    match &defs[0] {
        Cell::CellDef { name, index, default, not_null, unique, primary_key, foreign_key, .. } => {
            assert_eq!(name, "id");
            assert_eq!(*index, 0);
            assert!(!*default);
            assert!(*not_null);
            assert!(*unique);
            assert!(*primary_key);
            assert!(foreign_key.is_none());
        },
        _ => panic!("not a definition"),
    }
    match &defs[1] {
        Cell::CellDef { index, ctype, default, not_null, unique, primary_key, foreign_key, .. } => {
            assert_eq!(*index, 1);
            assert!(*default);
            assert_eq!(ctype.data_str(), "unnamed");
            assert!(!*not_null);
            assert!(!*unique);
            assert!(!*primary_key);
            assert_eq!(foreign_key.clone(), Some((s("orders"), s("name"))));
        },
        _ => panic!("not a definition"),
    }
}

#[test]
fn missing_required_column_stops_insert() {
    let mut plan = Vec::new();
    let mut server = shop(&mut plan);
    create_items(&mut server, &mut plan);
    let body = obj(vec![("records", arr(vec![obj(vec![("id", text("5"))]), obj(vec![("name", text("no id"))])]))]);
    let reply = server.match_endpoint("CREATE_RECORD", &path(&["shop", "items"]), &body, None, &mut plan);
    assert_eq!(reply, "no default value specified for column id");
    assert!(server.databases[1].tables[0].records[0].records.is_empty());
    let body = obj(vec![("records", arr(vec![obj(vec![("id", text("5"))])]))]);
    let reply = server.match_endpoint("CREATE_RECORD", &path(&["shop", "items"]), &body, None, &mut plan);
    assert_eq!(reply, "records created successfully");
    let body = obj(vec![("conditions", arr(vec![arr(vec![text("id"), text(">="), text("5")])]))]);
    let reply = server.match_endpoint("READ_RECORD", &path(&["shop", "items"]), &body, None, &mut plan);
    assert_eq!(reply, "{ {{id, 5}}, {{name, unnamed}} }");
}

#[test]
fn dispatch_errors() {
    let mut plan = Vec::new();
    let mut server = shop(&mut plan);
    let empty = obj(vec![]);
    assert_eq!(server.match_endpoint("CREATE_TABLE", &path(&["nowhere"]), &empty, None, &mut plan), "database not found");
    assert_eq!(server.match_endpoint("FLY", &path(&["shop"]), &empty, None, &mut plan), "request method not recognised");
    assert_eq!(server.match_endpoint("READ_RECORD", &vec![], &empty, None, &mut plan), "requires path to database");
    assert_eq!(server.match_endpoint("CREATE_TABLE", &path(&["shop"]), &empty, None, &mut plan), "table name could not be parsed");
    let body = obj(vec![("table_name", text("t"))]);
    assert_eq!(server.match_endpoint("CREATE_TABLE", &path(&["shop"]), &body, None, &mut plan), "column definitions could not be parsed");
    assert_eq!(server.match_endpoint("CREATE_DATABASE", &vec![], &empty, None, &mut plan), "could not parse database_name");
    assert_eq!(server.match_endpoint("UPDATE_TABLE", &path(&["shop"]), &empty, None, &mut plan), "update query has been run");
    assert_eq!(server.match_endpoint("INDEV_TOGGLE", &path(&["shop"]), &empty, None, &mut plan), "databse indev status successfuly toggled");
    assert!(!server.databases[1].indev);
    create_items(&mut server, &mut plan);
    let p = path(&["shop", "items"]);
    assert_eq!(server.match_endpoint("CREATE_RECORD", &p, &empty, None, &mut plan), "no records submitted");
    assert_eq!(server.match_endpoint("READ_RECORD", &p, &empty, None, &mut plan), "conditions could not be formatted");
    assert_eq!(server.match_endpoint("UPDATE_RECORD", &p, &empty, None, &mut plan), "updating records is not implemented");
    let bad_op = obj(vec![("conditions", arr(vec![arr(vec![text("id"), text("=~"), text("1")])]))]);
    assert_eq!(server.match_endpoint("READ_RECORD", &p, &bad_op, None, &mut plan), "condition pattern not recognised");
    let bad_rel = obj(vec![("conditions", arr(vec![arr(vec![text("id"), text("=="), text("1"), text("XOR")])]))]);
    assert_eq!(server.match_endpoint("READ_RECORD", &p, &bad_rel, None, &mut plan), "relation pattern not recognised");
    let none = obj(vec![("conditions", arr(vec![arr(vec![text("colour"), text("=="), text("1")])]))]);
    assert_eq!(server.match_endpoint("READ_RECORD", &p, &none, None, &mut plan), "length of conditional list < 1");
    assert_eq!(server.match_endpoint("DELETE_RECORD", &p, &none, None, &mut plan), "negative length of conditional list");
    let gone = obj(vec![("table_name", text("ghost"))]);
    assert_eq!(server.match_endpoint("DELETE_TABLE", &path(&["shop"]), &gone, None, &mut plan), "table does not exist in database");
}

#[test]
fn operators_and_connectors_parse() {
    assert_eq!(Conditional::parse(s("!=")), Ok(Conditional::NotEqual));
    assert_eq!(Conditional::parse(s("==")), Ok(Conditional::Equal));
    assert_eq!(Conditional::parse(s(">")), Ok(Conditional::Greater));
    assert_eq!(Conditional::parse(s("<")), Ok(Conditional::Smaller));
    assert_eq!(Conditional::parse(s(">=")), Ok(Conditional::EqualGreater));
    assert_eq!(Conditional::parse(s("<=")), Ok(Conditional::EqualSmaller));
    assert_eq!(Conditional::parse(s("*")), Ok(Conditional::All));
    assert_eq!(Conditional::parse(s("=")), Err(s("condition pattern not recognised")));
    assert_eq!(Relation::parse(s("&&")), Ok(Relation::AND));
    assert_eq!(Relation::parse(s("OR")), Ok(Relation::OR));
    assert_eq!(Relation::parse(s("!!")), Ok(Relation::NOT));
    assert_eq!(Relation::parse(s("and")), Err(s("relation pattern not recognised")));
}

#[test]
fn comparisons_follow_the_payloads() {
    let a = CellValue::IInt { name: s("n"), data: Some(-3) };
    let b = CellValue::IInt { name: s("n"), data: Some(2) };
    assert_eq!(a.compare(&b), Some(Comparison::Less));
    let x = string("t", "apple");
    let y = string("t", "apples");
    assert_eq!(y.compare(&x), Some(Comparison::Greater));
    assert_eq!(x.compare(&ulong("t", 1)), None);
    let absent = CellValue::ULong { name: s("t"), data: None };
    assert_eq!(absent.compare(&ulong("t", 1)), None);
    let neg_zero = CellValue::Float { name: s("f"), data: Some((-0.0f64).to_bits()) };
    let pos_zero = CellValue::Float { name: s("f"), data: Some(0.0f64.to_bits()) };
    assert_eq!(neg_zero.compare(&pos_zero), Some(Comparison::Equal));
    let nan = CellValue::Float { name: s("f"), data: Some(f64::NAN.to_bits()) };
    assert_eq!(nan.compare(&nan), None);
    let small = CellValue::Float { name: s("f"), data: Some((-2.5f64).to_bits()) };
    let big = CellValue::Float { name: s("f"), data: Some(1.5f64.to_bits()) };
    assert_eq!(small.compare(&big), Some(Comparison::Less));
    let b1 = CellValue::Bytes { name: s("b"), data: Some(vec![1, 2]) };
    let b2 = CellValue::Bytes { name: s("b"), data: Some(vec![1, 3]) };
    assert_eq!(b1.compare(&b2), Some(Comparison::Less));
}

#[test]
fn payloads_render_as_text() {
    assert_eq!(ulong("n", 340282366920938463463374607431768211455).data_str(), "340282366920938463463374607431768211455");
    assert_eq!(CellValue::ILong { name: s("n"), data: Some(i128::MIN) }.data_str(), "-170141183460469231731687303715884105728");
    assert_eq!(CellValue::IInt { name: s("n"), data: Some(-42) }.data_str(), "-42");
    assert_eq!(CellValue::UInt { name: s("n"), data: Some(0) }.data_str(), "0");
    assert_eq!(CellValue::Bool { name: s("n"), data: Some(false) }.data_str(), "false");
    assert_eq!(CellValue::String { name: s("n"), data: None }.data_str(), "null");
    assert_eq!(CellValue::Bytes { name: s("n"), data: Some(vec![10, 255, 0]) }.data_str(), "AFF0");
    assert_eq!(CellValue::Float { name: s("n"), data: Some(1.5f64.to_bits()) }.data_str(), "3FF8000000000000");
    assert_eq!(string("n", "x").name(), "n");
    assert!(string("n", "x").comp_name(&s("n")));
    assert!(!string("n", "x").comp_name(&s("m")));
    assert_eq!(Record { columns: vec![] }.render(), "{  }");
}

#[test]
fn defaults_are_read_by_kind() {
    let mut plan = Vec::new();
    let cols = vec![
        (s("k"), s("ULong"), Some(s("+12")), false, false, None),
        (s("u"), s("UInt"), Some(s("4294967296")), false, false, None),
        (s("i"), s("IInt"), Some(s("-2147483648")), false, false, None),
        (s("b"), s("Bool"), Some(s("true")), false, false, None),
        (s("y"), s("Bytes"), Some(s("0FA1")), false, false, None),
        (s("z"), s("Mystery"), Some(s("as is")), false, false, None),
    ];
    let t = Table::new("db", s("kinds"), cols, false, &mut plan);
    let shown: Vec<String> = t
        .column_definition
        .iter()
        .map(|c| match c {
            Cell::CellDef { ctype, .. } => ctype.data_str(),
            _ => s("?"),
        })
        .collect();
    assert_eq!(shown, vec![s("12"), s("null"), s("-2147483648"), s("true"), s("FB1"), s("as is")]);
    assert_eq!(t.directory, "db/kinds");
    assert_eq!(t.records[0].directory, "db/kinds/p0");
}

#[test]
fn parts_are_named_in_hex() {
    let mut plan = Vec::new();
    let part = Part::new("d", 10, 4096, &mut plan);
    assert_eq!(part.directory, "d/pA");
    assert_eq!(part.size, 4096);
    assert!(part.records.is_empty() && part.key_range.is_empty() && !part.full);
    assert!(matches!(&plan[0], StorageAction::WriteText(p, t) if p == "d/pA" && t.is_empty()));
    assert_eq!(Part::new("d", 255, 4096, &mut plan).directory, "d/pFF");
    assert!(Table::is_part_file("p0"));
    assert!(!Table::is_part_file(".def"));
}

#[test]
fn a_new_part_is_made_when_all_are_full() {
    let mut plan = Vec::new();
    let mut table = Table::new("db", s("t"), columns(), true, &mut plan);
    table.records[0].full = true;
    let r = table.query_create(vec![item(1, "a"), Record { columns: vec![string("name", "keyless")] }], &mut plan);
    assert_eq!(r, Err(s("table indexer could not find matching name on record")));
    assert_eq!(table.records.len(), 2);
    assert_eq!(table.records[1].directory, "db/t/p1");
    assert_eq!(table.records[1].records.len(), 1);
    assert!(table.records[0].records.is_empty());
}

#[test]
fn request_text_is_framed() {
    let req = Request::parse("READ_RECORD /shop/items/ HTTP/1.1\r\nHost: x\r\nA: b\r\n\r\n{\"conditions\":[[\"*\"]]}").unwrap();
    assert_eq!(req.method, "READ_RECORD");
    assert_eq!(req.path, vec![s("shop"), s("items")]);
    assert_eq!(req.version, "HTTP/1.1");
    assert_eq!(req.headers, vec![(s("Host"), s("x")), (s("A"), s("b"))]);
    assert_eq!(req.body, "{\"conditions\":[[\"*\"]]}");
    let req = Request::parse("CREATE_DATABASE / HTTP/1.1").unwrap();
    assert!(req.path.is_empty());
    assert!(req.body.is_empty());
    assert_eq!(Request::parse("GARBAGE").err(), Some(s("malformed request line")));
    assert_eq!(split_path("//a//b/"), vec![s("a"), s(""), s("b")]);
    assert_eq!(split_path("/shop"), vec![s("shop")]);
    assert!(split_path("/").is_empty());
    let req = Request::parse("GET /x HTTP/1.1\r\n  Key :  padded value \r\nno separator\r\n\r\n").unwrap();
    assert_eq!(req.headers, vec![(s("Key"), s("padded value"))]);
}

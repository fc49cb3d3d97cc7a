use obj_db::database::Database;
use obj_db::json::JsonValue;
use obj_db::server::Server;
use obj_db::storage::StorageAction;

fn s(x: &str) -> String {
    x.to_string()
}

fn text(x: &str) -> JsonValue {
    JsonValue::Str(s(x))
}

fn obj(members: Vec<(&str, JsonValue)>) -> JsonValue {
    JsonValue::Object(members.into_iter().map(|(k, v)| (s(k), v)).collect())
}

fn arr(items: Vec<JsonValue>) -> JsonValue {
    JsonValue::Array(items)
}

fn path(p: &[&str]) -> Vec<String> {
    p.iter().map(|x| s(x)).collect()
}

fn new_server(plan: &mut Vec<StorageAction>) -> Server {
    let admin = Database::new(s("admin"), None, s("ADMIN"), Some(s("admin_database")), plan);
    Server::new(admin, s("ADMIN"))
}

fn items_columns() -> JsonValue {
    arr(vec![
        arr(vec![text("id"), text("ULong"), text(""), JsonValue::Bool(true), JsonValue::Bool(true), JsonValue::Null]),
        arr(vec![text("name"), text("String"), text("unnamed"), JsonValue::Bool(false), JsonValue::Bool(false), JsonValue::Null]),
    ])
}

fn shop_with_items(plan: &mut Vec<StorageAction>) -> Server {
    let mut server = new_server(plan);
    let body = obj(vec![("database_name", text("shop")), ("role", text("ADMIN"))]);
    server.match_endpoint("CREATE_DATABASE", &vec![], &body, None, plan);
    let body = obj(vec![("table_name", text("items")), ("columns", items_columns())]);
    server.match_endpoint("CREATE_TABLE", &path(&["shop"]), &body, None, plan);
    server
}

fn insert_widget_and_gizmo(server: &mut Server, plan: &mut Vec<StorageAction>) -> String {
    let body = obj(vec![(
        "records",
        arr(vec![
            obj(vec![("id", text("1")), ("name", text("widget"))]),
            obj(vec![("id", text("2")), ("name", text("gizmo"))]),
        ]),
    )]);
    server.match_endpoint("CREATE_RECORD", &path(&["shop", "items"]), &body, None, plan)
}

fn last_part_write(plan: &Vec<StorageAction>, target: &str) -> Option<Vec<String>> {
    let mut found = None;
    for a in plan {
        if let StorageAction::WritePart(p, recs) = a {
            if p == target {
                found = Some(recs.iter().map(|r| r.render()).collect());
            }
        }
    }
    found
}

#[test]
fn create_database_scenario() {
    let mut plan = Vec::new();
    let mut server = new_server(&mut plan);
    let body = obj(vec![("database_name", text("shop")), ("role", text("ADMIN"))]);
    let reply = server.match_endpoint("CREATE_DATABASE", &vec![], &body, None, &mut plan);
    assert!(reply.contains("database creation successful"));
    assert_eq!(server.databases.len(), 2);
    assert_eq!(server.databases[1].name, "shop");
    assert!(plan.iter().any(|a| matches!(a, StorageAction::CreateDir(p) if p == "databases/shop")));
    assert!(plan.iter().any(|a| matches!(a, StorageAction::WriteText(p, t)
        if p == "databases/shop/.def" && t == "{\"role\":\"ADMIN\"}")));
    assert!(plan.iter().any(|a| matches!(a, StorageAction::WriteText(p, t) if p == "databases/shop/.log" && t.is_empty())));
}

#[test]
fn create_table_scenario() {
    let mut plan = Vec::new();
    let server = shop_with_items(&mut plan);
    let shop = &server.databases[1];
    assert_eq!(shop.tables.len(), 1);
    assert_eq!(shop.tables[0].name, "items");
    assert!(plan.iter().any(|a| matches!(a, StorageAction::WriteTableDef(p, true, cols)
        if p == "databases/shop/items/.def" && cols.len() == 2)));
    assert!(plan.iter().any(|a| matches!(a, StorageAction::WriteText(p, t) if p == "databases/shop/items/p0" && t.is_empty())));
    assert_eq!(shop.tables[0].records.len(), 1);
    assert!(shop.tables[0].records[0].records.is_empty());
}

#[test]
fn create_records_scenario() {
    let mut plan = Vec::new();
    let mut server = shop_with_items(&mut plan);
    let reply = insert_widget_and_gizmo(&mut server, &mut plan);
    assert_eq!(reply, "records created successfully");
    let part = &server.databases[1].tables[0].records[0];
    assert_eq!(part.records.len(), 2);
    assert_eq!(part.key_range, vec![1u128, 2u128]);
    let written = last_part_write(&plan, "databases/shop/items/p0").unwrap();
    assert_eq!(written.len(), 2);
    assert!(written[0].contains("widget"));
    assert!(written[1].contains("gizmo"));
}

#[test]
fn read_all_scenario() {
    let mut plan = Vec::new();
    let mut server = shop_with_items(&mut plan);
    insert_widget_and_gizmo(&mut server, &mut plan);
    let body = obj(vec![("conditions", arr(vec![arr(vec![text("*")])]))]);
    let reply = server.match_endpoint("READ_RECORD", &path(&["shop", "items"]), &body, None, &mut plan);
    assert!(reply.contains("widget"));
    assert!(reply.contains("gizmo"));
    assert_eq!(
        reply,
        "{ {{id, 1}}, {{name, widget}} }, { {{id, 2}}, {{name, gizmo}} }"
    );
}

#[test]
fn delete_one_scenario() {
    let mut plan = Vec::new();
    let mut server = shop_with_items(&mut plan);
    insert_widget_and_gizmo(&mut server, &mut plan);
    let body = obj(vec![("conditions", arr(vec![arr(vec![text("id"), text("=="), text("1")])]))]);
    let reply = server.match_endpoint("DELETE_RECORD", &path(&["shop", "items"]), &body, None, &mut plan);
    assert_eq!(reply, "matching records found and deleted successfully");
    let part = &server.databases[1].tables[0].records[0];
    assert_eq!(part.records.len(), 1);
    let written = last_part_write(&plan, "databases/shop/items/p0").unwrap();
    assert_eq!(written.len(), 1);
    assert!(written[0].contains("gizmo"));
}

#[test]
fn delete_table_scenario() {
    let mut plan = Vec::new();
    let mut server = shop_with_items(&mut plan);
    insert_widget_and_gizmo(&mut server, &mut plan);
    let before = plan.len();
    let body = obj(vec![("table_name", text("items"))]);
    let reply = server.match_endpoint("DELETE_TABLE", &path(&["shop"]), &body, None, &mut plan);
    assert_eq!(reply, "table files deleted and removed from database memory");
    let tail = &plan[before..];
    assert!(matches!(&tail[0], StorageAction::RemoveFile(p) if p == "databases/shop/items/p0"));
    assert!(matches!(&tail[1], StorageAction::RemoveFile(p) if p == "databases/shop/items/.def"));
    assert!(matches!(&tail[2], StorageAction::RemoveDir(p) if p == "databases/shop/items"));
    assert!(server.databases[1].tables.is_empty());
    let body = obj(vec![("conditions", arr(vec![arr(vec![text("*")])]))]);
    let reply = server.match_endpoint("READ_RECORD", &path(&["shop", "items"]), &body, None, &mut plan);
    assert_eq!(reply, "record read endpoint not found");
}

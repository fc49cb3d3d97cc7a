//! Reading request bodies: column definitions, records and conditions.

use vstd::prelude::*;
use vstd::string::*;
use crate::cell::{fk_view, opt_str_view, Cell, CellModel, CellValue, Payload};
use crate::conditional::{
    conditional_of, conditions_view, relation_of, Condition, ConditionModel, Conditional, Relation,
};
use crate::json::{str_of, opt_str_of, JsonValue};
use crate::record::{records_view, Record, RecordModel};
use crate::table::{column_view, columns_view, ColumnModel, ColumnSpec};
use crate::text::{decode_hex_pairs, decode_pairs, parse_int, parse_signed, parse_unsigned, same_text};

verus! {

/// What the foreign-key pattern `(?P<table_name>[\w]*).(?P<column_name>[\w]*)`
/// captures in a text: the table and column groups of its first match.
pub uninterp spec fn foreign_key_of(s: Seq<char>) -> Option<(Seq<char>, Seq<char>)>;

/// Relies on `regex::Regex::new` and `Regex::captures`: the two named groups
/// of the first match of the foreign-key pattern in `s`, if it matches. The
/// pattern is a constant that compiles.
#[verifier::external_body]
fn foreign_key_captures(s: &str) -> (r: Option<(String, String)>)
    ensures
        match r {
            Some((t, c)) => foreign_key_of(s@) == Some((t@, c@)),
            None => foreign_key_of(s@) is None,
        },
{
    let pattern = regex::Regex::new(r"(?P<table_name>[\w]*).(?P<column_name>[\w]*)").unwrap();
    match pattern.captures(s) {
        Some(a) => Some((a["table_name"].to_owned(), a["column_name"].to_owned())),
        None => None,
    }
}

/// Element `i` of an array, if there is one.
pub open spec fn elem(a: Seq<JsonValue>, i: int) -> Option<JsonValue> {
    if 0 <= i < a.len() {
        Some(a[i])
    } else {
        None
    }
}

/// A flag: `true`, or one of the strings `true`, `True`, `TRUE`, `1`.
pub open spec fn flag_of(v: Option<JsonValue>) -> bool {
    match v {
        Some(JsonValue::Bool(b)) => b,
        Some(JsonValue::Str(s)) => s@ == "true"@ || s@ == "True"@ || s@ == "TRUE"@ || s@ == "1"@,
        _ => false,
    }
}

/// The column that an array `[name, type, default, not_null, unique,
/// foreign_key]` describes, given the captures of its foreign key. Name
/// and type must be strings and the name not empty; an empty default is
/// none.
pub open spec fn column_model(a: Seq<JsonValue>, fk: Option<(Seq<char>, Seq<char>)>) -> Option<ColumnModel> {
    match (opt_str_of(elem(a, 0)), opt_str_of(elem(a, 1))) {
        (Some(name), Some(kind)) => if name.len() == 0 {
            None
        } else {
            let default = match opt_str_of(elem(a, 2)) {
                Some(d) => if d.len() > 0 { Some(d) } else { None },
                None => None,
            };
            Some((name, kind, default, flag_of(elem(a, 3)), flag_of(elem(a, 4)), fk))
        },
        _ => None,
    }
}

/// The captures of an array's foreign-key element.
pub open spec fn fk_of_array(a: Seq<JsonValue>) -> Option<(Seq<char>, Seq<char>)> {
    match opt_str_of(elem(a, 5)) {
        Some(s) => foreign_key_of(s),
        None => None,
    }
}

/// The columns that a list of arrays describes; anything else is dropped.
pub open spec fn columns_model(cols: Seq<JsonValue>) -> Seq<ColumnModel>
    decreases cols.len(),
{
    if cols.len() == 0 {
        Seq::empty()
    } else {
        let prev = columns_model(cols.drop_last());
        match cols.last() {
            JsonValue::Array(a) => match column_model(a@, fk_of_array(a@)) {
                Some(m) => prev.push(m),
                None => prev,
            },
            _ => prev,
        }
    }
}

fn read_flag(v: Option<&JsonValue>) -> (r: bool)
    ensures
        r == flag_of(match v { Some(x) => Some(*x), None => None }),
{
    match v {
        Some(JsonValue::Bool(b)) => *b,
        Some(JsonValue::Str(s)) => {
            let t = s.as_str();
            same_text(t, "true") || same_text(t, "True") || same_text(t, "TRUE") || same_text(t, "1")
        },
        _ => false,
    }
}

fn element(a: &Vec<JsonValue>, i: usize) -> (r: Option<&JsonValue>)
    ensures
        match r {
            Some(x) => elem(a@, i as int) == Some(*x),
            None => elem(a@, i as int) is None,
        },
{
    if i < a.len() {
        Some(&a[i])
    } else {
        None
    }
}

fn element_str(a: &Vec<JsonValue>, i: usize) -> (r: Option<&str>)
    ensures
        match r {
            Some(s) => opt_str_of(elem(a@, i as int)) == Some(s@),
            None => opt_str_of(elem(a@, i as int)) is None,
        },
{
    match element(a, i) {
        Some(x) => x.as_str(),
        None => None,
    }
}

/// The column an array describes, given the captures of its foreign key.
pub fn column_spec(a: &Vec<JsonValue>, fk: Option<(String, String)>) -> (r: Option<ColumnSpec>)
    ensures
        match r {
            Some(c) => column_model(a@, fk_view(fk)) == Some(column_view(c)),
            None => column_model(a@, fk_view(fk)) is None,
        },
{
    let name = match element_str(a, 0) {
        Some(s) => s,
        None => return None,
    };
    let kind = match element_str(a, 1) {
        Some(s) => s,
        None => return None,
    };
    if name.unicode_len() == 0 {
        return None;
    }
    let default = match element_str(a, 2) {
        Some(d) => if d.unicode_len() > 0 { Some(String::from_str(d)) } else { None },
        None => None,
    };
    let not_null = read_flag(element(a, 3));
    let unique = read_flag(element(a, 4));
    Some((String::from_str(name), String::from_str(kind), default, not_null, unique, fk))
}

/// The columns that the arrays of a create-table body describe.
pub fn column_specs(cols: &Vec<JsonValue>) -> (r: Vec<ColumnSpec>)
    ensures
        columns_view(r@) == columns_model(cols@),
{
    let mut r: Vec<ColumnSpec> = Vec::new();
    let mut i: usize = 0;
    while i < cols.len()
        invariant
            i <= cols@.len(),
            columns_view(r@) == columns_model(cols@.subrange(0, i as int)),
        decreases cols@.len() - i,
    {
        proof {
            assert(cols@.subrange(0, i + 1).drop_last() =~= cols@.subrange(0, i as int));
            assert(cols@.subrange(0, i + 1).last() == cols@[i as int]);
        }
        match &cols[i] {
            JsonValue::Array(a) => {
                let fk = match element_str(a, 5) {
                    Some(s) => foreign_key_captures(s),
                    None => None,
                };
                match column_spec(a, fk) {
                    Some(c) => {
                        let ghost before = r@;
                        r.push(c);
                        assert(columns_view(r@) =~= columns_view(before).push(column_view(c)));
                    },
                    None => {},
                }
            },
            _ => {},
        }
        i = i + 1;
    }
    assert(cols@.subrange(0, cols@.len() as int) =~= cols@);
    r
}

/// The payload of the kind of `kind` that a JSON value gives: text and
/// integers come as strings, booleans as booleans, floats as numbers, bytes
/// as strings of hex pairs.
pub open spec fn json_payload(kind: Payload, v: JsonValue) -> Payload {
    match kind {
        Payload::Text(_) => Payload::Text(str_of(v)),
        Payload::Bool(_) => Payload::Bool(match v { JsonValue::Bool(b) => Some(b), _ => None }),
        Payload::UInt(_) => Payload::UInt(match str_of(v) {
            Some(t) => match parse_int(t, 0, u32::MAX as int) { Some(x) => Some(x as u32), None => None },
            None => None,
        }),
        Payload::ULong(_) => Payload::ULong(match str_of(v) {
            Some(t) => match parse_int(t, 0, u128::MAX as int) { Some(x) => Some(x as u128), None => None },
            None => None,
        }),
        Payload::IInt(_) => Payload::IInt(match str_of(v) {
            Some(t) => match parse_int(t, i32::MIN as int, i32::MAX as int) { Some(x) => Some(x as i32), None => None },
            None => None,
        }),
        Payload::ILong(_) => Payload::ILong(match str_of(v) {
            Some(t) => match parse_int(t, i128::MIN as int, i128::MAX as int) { Some(x) => Some(x as i128), None => None },
            None => None,
        }),
        Payload::Float(_) => Payload::Float(match v { JsonValue::Number(n) => Some(n), _ => None }),
        Payload::Bytes(_) => Payload::Bytes(match str_of(v) {
            Some(t) => Some(decode_pairs(vstd::utf8::encode_utf8(t))),
            None => None,
        }),
    }
}

/// A cell of column `name` whose kind is that of `kind`, read from a JSON
/// value.
pub fn cell_from_json(kind: &CellValue, name: &String, v: &JsonValue) -> (r: CellValue)
    ensures
        r@ == (name@, json_payload(kind@.1, *v)),
{
    let name = name.clone();
    match kind {
        CellValue::String { .. } => CellValue::String {
            name,
            data: match v.as_str() { Some(s) => Some(String::from_str(s)), None => None },
        },
        CellValue::Bool { .. } => CellValue::Bool { name, data: v.as_bool() },
        CellValue::UInt { .. } => CellValue::UInt {
            name,
            data: match v.as_str() {
                Some(s) => match parse_unsigned(s, u32::MAX as u128) { Some(x) => Some(x as u32), None => None },
                None => None,
            },
        },
        CellValue::ULong { .. } => CellValue::ULong {
            name,
            data: match v.as_str() { Some(s) => parse_unsigned(s, u128::MAX), None => None },
        },
        CellValue::IInt { .. } => CellValue::IInt {
            name,
            data: match v.as_str() {
                Some(s) => match parse_signed(s, i32::MAX as i128) { Some(x) => Some(x as i32), None => None },
                None => None,
            },
        },
        CellValue::ILong { .. } => CellValue::ILong {
            name,
            data: match v.as_str() { Some(s) => parse_signed(s, i128::MAX), None => None },
        },
        CellValue::Float { .. } => CellValue::Float { name, data: v.as_f64_bits() },
        CellValue::Bytes { .. } => CellValue::Bytes {
            name,
            data: match v.as_str() { Some(s) => Some(decode_hex_pairs(s)), None => None },
        },
    }
}

/// The kind of the first defined column of that name (names are never
/// empty).
pub open spec fn column_kind(defs: Seq<Cell>, name: Seq<char>) -> Option<CellModel>
    decreases defs.len(),
{
    if defs.len() == 0 {
        None
    } else {
        match defs[0] {
            Cell::CellDef { name: n, ctype, .. } => if n@ == name && name.len() > 0 {
                Some(ctype@)
            } else {
                column_kind(defs.drop_first(), name)
            },
            _ => column_kind(defs.drop_first(), name),
        }
    }
}

/// The position of the first defined column of that name.
pub fn find_column_def(defs: &Vec<Cell>, name: &str) -> (r: Option<usize>)
    ensures
        match r {
            Some(i) => i < defs@.len() && (match defs@[i as int] {
                Cell::CellDef { ctype, .. } => column_kind(defs@, name@) == Some(ctype@),
                _ => false,
            }),
            None => column_kind(defs@, name@) is None,
        },
{
    let mut i: usize = 0;
    let empty = name.unicode_len() == 0;
    assert(defs@.subrange(0, defs@.len() as int) =~= defs@);
    while i < defs.len()
        invariant
            i <= defs@.len(),
            empty == (name@.len() == 0),
            column_kind(defs@, name@) == column_kind(defs@.subrange(i as int, defs@.len() as int), name@),
        decreases defs@.len() - i,
    {
        proof {
            let rest = defs@.subrange(i as int, defs@.len() as int);
            assert(rest.drop_first() =~= defs@.subrange(i + 1, defs@.len() as int));
            assert(rest[0] == defs@[i as int]);
        }
        match &defs[i] {
            Cell::CellDef { name: n, .. } => {
                if !empty && same_text(n.as_str(), name) {
                    return Some(i);
                }
            },
            _ => {},
        }
        i = i + 1;
    }
    None
}

/// The cells that an object's members give: each member that names a
/// defined column becomes a cell of that column's kind; others are dropped.
pub open spec fn object_cells(entries: Seq<(String, JsonValue)>, defs: Seq<Cell>) -> RecordModel
    decreases entries.len(),
{
    if entries.len() == 0 {
        Seq::empty()
    } else {
        let prev = object_cells(entries.drop_last(), defs);
        let (k, v) = entries.last();
        match column_kind(defs, k@) {
            Some(kind) => prev.push((k@, json_payload(kind.1, v))),
            None => prev,
        }
    }
}

/// The records of a create-record body's `records` array: one per object
/// that gives at least one cell.
pub open spec fn records_model(items: Seq<JsonValue>, defs: Seq<Cell>) -> Seq<RecordModel>
    decreases items.len(),
{
    if items.len() == 0 {
        Seq::empty()
    } else {
        let prev = records_model(items.drop_last(), defs);
        match items.last() {
            JsonValue::Object(entries) => if object_cells(entries@, defs).len() > 0 {
                prev.push(object_cells(entries@, defs))
            } else {
                prev
            },
            _ => prev,
        }
    }
}

/// The record that an object's members give.
pub fn record_from_object(entries: &Vec<(String, JsonValue)>, defs: &Vec<Cell>) -> (r: Record)
    ensures
        r@ == object_cells(entries@, defs@),
{
    let mut columns: Vec<CellValue> = Vec::new();
    let mut i: usize = 0;
    while i < entries.len()
        invariant
            i <= entries@.len(),
            columns@.map_values(|c: CellValue| c@) == object_cells(entries@.subrange(0, i as int), defs@),
        decreases entries@.len() - i,
    {
        proof {
            assert(entries@.subrange(0, i + 1).drop_last() =~= entries@.subrange(0, i as int));
            assert(entries@.subrange(0, i + 1).last() == entries@[i as int]);
        }
        let (k, v) = (&entries[i].0, &entries[i].1);
        match find_column_def(defs, k.as_str()) {
            Some(j) => match &defs[j] {
                Cell::CellDef { ctype, .. } => {
                    let c = cell_from_json(ctype, k, v);
                    let ghost before = columns@;
                    columns.push(c);
                    assert(columns@.map_values(|c: CellValue| c@) =~= before.map_values(|c: CellValue| c@).push(c@));
                },
                _ => {},
            },
            None => {},
        }
        i = i + 1;
    }
    assert(entries@.subrange(0, entries@.len() as int) =~= entries@);
    Record { columns }
}

/// The records of a create-record body's `records` array.
pub fn records_from_items(items: &Vec<JsonValue>, defs: &Vec<Cell>) -> (r: Vec<Record>)
    ensures
        records_view(r@) == records_model(items@, defs@),
{
    let mut r: Vec<Record> = Vec::new();
    let mut i: usize = 0;
    while i < items.len()
        invariant
            i <= items@.len(),
            records_view(r@) == records_model(items@.subrange(0, i as int), defs@),
        decreases items@.len() - i,
    {
        proof {
            assert(items@.subrange(0, i + 1).drop_last() =~= items@.subrange(0, i as int));
            assert(items@.subrange(0, i + 1).last() == items@[i as int]);
        }
        match &items[i] {
            JsonValue::Object(entries) => {
                let rec = record_from_object(entries, defs);
                if rec.columns.len() > 0 {
                    let ghost before = r@;
                    r.push(rec);
                    assert(records_view(r@) =~= records_view(before).push(rec@));
                }
            },
            _ => {},
        }
        i = i + 1;
    }
    assert(items@.subrange(0, items@.len() as int) =~= items@);
    r
}

/// The wildcard condition `["*"]`.
pub open spec fn wildcard_model() -> ConditionModel {
    ConditionModel {
        target: Seq::empty(),
        op: Conditional::All,
        value: (Seq::empty(), Payload::Bool(None)),
        relation: None,
    }
}

pub open spec fn opt_conditional(s: Option<Seq<char>>) -> Option<Conditional> {
    match s {
        Some(o) => conditional_of(o),
        None => None,
    }
}

pub open spec fn opt_relation(s: Option<Seq<char>>) -> Option<Relation> {
    match s {
        Some(o) => relation_of(o),
        None => None,
    }
}

/// The condition an array gives: `["*"]`, `[column, operator, value]` or
/// `[column, operator, value, connector]`. Nothing for other shapes or an
/// unknown column; an error for an unknown operator or connector.
pub open spec fn condition_model(a: Seq<JsonValue>, defs: Seq<Cell>) -> Option<Result<ConditionModel, Seq<char>>> {
    if a.len() == 1 {
        if str_of(a[0]) == Some("*"@) {
            Some(Ok(wildcard_model()))
        } else {
            None
        }
    } else if a.len() == 3 || a.len() == 4 {
        match str_of(a[0]) {
            Some(col) => match column_kind(defs, col) {
                Some(kind) => match opt_conditional(str_of(a[1])) {
                    None => Some(Err(crate::conditional::unknown_operator_text())),
                    Some(op) => {
                        let value = (kind.0, json_payload(kind.1, a[2]));
                        if a.len() == 4 {
                            match opt_relation(str_of(a[3])) {
                                None => Some(Err(crate::conditional::unknown_relation_text())),
                                Some(rel) => Some(Ok(ConditionModel { target: col, op, value, relation: Some(rel) })),
                            }
                        } else {
                            Some(Ok(ConditionModel { target: col, op, value, relation: None }))
                        }
                    },
                },
                None => None,
            },
            None => None,
        }
    } else {
        None
    }
}

/// The conditions of a `conditions` array, or the first error.
pub open spec fn conditions_model(items: Seq<JsonValue>, defs: Seq<Cell>) -> Result<Seq<ConditionModel>, Seq<char>>
    decreases items.len(),
{
    if items.len() == 0 {
        Ok(Seq::empty())
    } else {
        match conditions_model(items.drop_last(), defs) {
            Err(e) => Err(e),
            Ok(prev) => match items.last() {
                JsonValue::Array(a) => match condition_model(a@, defs) {
                    Some(Ok(c)) => Ok(prev.push(c)),
                    Some(Err(e)) => Err(e),
                    None => Ok(prev),
                },
                _ => Ok(prev),
            },
        }
    }
}

proof fn lemma_error_persists(items: Seq<JsonValue>, defs: Seq<Cell>, k: int)
    requires
        0 <= k <= items.len(),
        conditions_model(items.subrange(0, k), defs) is Err,
    ensures
        conditions_model(items, defs) == conditions_model(items.subrange(0, k), defs),
    decreases items.len(),
{
    if k == items.len() {
        assert(items.subrange(0, k) =~= items);
    } else {
        assert(items.drop_last().subrange(0, k) =~= items.subrange(0, k));
        lemma_error_persists(items.drop_last(), defs, k);
    }
}

fn relation_from(v: &JsonValue) -> (r: Option<Relation>)
    ensures
        r == opt_relation(str_of(*v)),
{
    match v.as_str() {
        Some(s) => match Relation::parse(String::from_str(s)) {
            Ok(rel) => Some(rel),
            Err(_) => None,
        },
        None => None,
    }
}

fn conditional_from(v: &JsonValue) -> (r: Option<Conditional>)
    ensures
        r == opt_conditional(str_of(*v)),
{
    match v.as_str() {
        Some(s) => match Conditional::parse(String::from_str(s)) {
            Ok(c) => Some(c),
            Err(_) => None,
        },
        None => None,
    }
}

/// The condition an array gives.
pub fn condition_from_array(a: &Vec<JsonValue>, defs: &Vec<Cell>) -> (r: Option<Result<Condition, String>>)
    ensures
        match r {
            None => condition_model(a@, defs@) is None,
            Some(Ok(c)) => condition_model(a@, defs@) == Some(Ok::<ConditionModel, Seq<char>>(c@)),
            Some(Err(e)) => condition_model(a@, defs@) == Some(Err::<ConditionModel, Seq<char>>(e@)),
        },
{
    if a.len() == 1 {
        proof {
            reveal_strlit("*");
        }
        match a[0].as_str() {
            Some(s) => if same_text(s, "*") {
                let c = Condition {
                    target_column: String::new(),
                    conditional: Conditional::All,
                    value: CellValue::Bool { name: String::new(), data: None },
                    relational: None,
                };
                assert(c@.target =~= wildcard_model().target);
                assert(c@.value.0 =~= wildcard_model().value.0);
                return Some(Ok(c));
            } else {
                return None;
            },
            None => return None,
        }
    }
    if a.len() != 3 && a.len() != 4 {
        return None;
    }
    let col = match a[0].as_str() {
        Some(s) => s,
        None => return None,
    };
    let j = match find_column_def(defs, col) {
        Some(j) => j,
        None => return None,
    };
    let kind = match &defs[j] {
        Cell::CellDef { ctype, .. } => ctype,
        _ => return None,
    };
    let op = match conditional_from(&a[1]) {
        Some(op) => op,
        None => return Some(Err(String::from_str("condition pattern not recognised"))),
    };
    let value_name = String::from_str(kind.name());
    let value = cell_from_json(kind, &value_name, &a[2]);
    let relational = if a.len() == 4 {
        match relation_from(&a[3]) {
            Some(rel) => Some(rel),
            None => return Some(Err(String::from_str("relation pattern not recognised"))),
        }
    } else {
        None
    };
    Some(Ok(Condition { target_column: String::from_str(col), conditional: op, value, relational }))
}

/// The conditions of a `conditions` array, or the first error.
pub fn conditions_from_items(items: &Vec<JsonValue>, defs: &Vec<Cell>) -> (r: Result<Vec<Condition>, String>)
    ensures
        match r {
            Ok(cs) => conditions_model(items@, defs@) == Ok::<Seq<ConditionModel>, Seq<char>>(conditions_view(cs@)),
            Err(e) => conditions_model(items@, defs@) == Err::<Seq<ConditionModel>, Seq<char>>(e@),
        },
{
    let mut r: Vec<Condition> = Vec::new();
    let mut i: usize = 0;
    assert(conditions_view(r@) =~= Seq::<ConditionModel>::empty());
    while i < items.len()
        invariant
            i <= items@.len(),
            conditions_model(items@.subrange(0, i as int), defs@) == Ok::<Seq<ConditionModel>, Seq<char>>(conditions_view(r@)),
        decreases items@.len() - i,
    {
        proof {
            assert(items@.subrange(0, i + 1).drop_last() =~= items@.subrange(0, i as int));
            assert(items@.subrange(0, i + 1).last() == items@[i as int]);
        }
        match &items[i] {
            JsonValue::Array(a) => match condition_from_array(a, defs) {
                Some(Ok(c)) => {
                    let ghost before = r@;
                    r.push(c);
                    assert(conditions_view(r@) =~= conditions_view(before).push(c@));
                },
                Some(Err(e)) => {
                    proof {
                        lemma_error_persists(items@, defs@, i + 1);
                    }
                    return Err(e);
                },
                None => {},
            },
            _ => {},
        }
        i = i + 1;
    }
    assert(items@.subrange(0, items@.len() as int) =~= items@);
    Ok(r)
}

} // verus!

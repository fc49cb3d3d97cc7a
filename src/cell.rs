//! Typed cell values and column definitions.

use vstd::prelude::*;
use crate::text::{
    decode_hex_pairs, decode_pairs, digits, parse_bool, parse_int, parse_signed, parse_unsigned,
    read_bool, render_radix, render_signed, same_text, signed_decimal,
};
use vstd::string::*;

verus! {

/// The payload of a cell as a mathematical value.
pub enum Payload {
    Text(Option<Seq<char>>),
    Bool(Option<bool>),
    UInt(Option<u32>),
    ULong(Option<u128>),
    IInt(Option<i32>),
    ILong(Option<i128>),
    /// A binary64 float, held as its bit pattern.
    Float(Option<u64>),
    Bytes(Option<Seq<u8>>),
}

/// A cell as a mathematical value: its column name and its payload.
pub type CellModel = (Seq<char>, Payload);

/// The outcome of comparing two payloads.
#[derive(Clone, Copy, Debug, PartialEq, Eq, Structural)]
pub enum Comparison {
    Less,
    Equal,
    Greater,
}

/// A typed value belonging to a named column.
///
/// A `Float` payload is held as the bit pattern of a binary64 number.
#[derive(Clone, Debug)]
pub enum CellValue {
    String { name: String, data: Option<String> },
    Bool { name: String, data: Option<bool> },
    UInt { name: String, data: Option<u32> },
    ULong { name: String, data: Option<u128> },
    IInt { name: String, data: Option<i32> },
    ILong { name: String, data: Option<i128> },
    Float { name: String, data: Option<u64> },
    Bytes { name: String, data: Option<Vec<u8>> },
}

pub open spec fn opt_str_view(o: Option<String>) -> Option<Seq<char>> {
    match o {
        Some(s) => Some(s@),
        None => None,
    }
}

pub open spec fn opt_bytes_view(o: Option<Vec<u8>>) -> Option<Seq<u8>> {
    match o {
        Some(b) => Some(b@),
        None => None,
    }
}

impl View for CellValue {
    type V = CellModel;

    open spec fn view(&self) -> CellModel {
        match self {
            CellValue::String { name, data } => (name@, Payload::Text(opt_str_view(*data))),
            CellValue::Bool { name, data } => (name@, Payload::Bool(*data)),
            CellValue::UInt { name, data } => (name@, Payload::UInt(*data)),
            CellValue::ULong { name, data } => (name@, Payload::ULong(*data)),
            CellValue::IInt { name, data } => (name@, Payload::IInt(*data)),
            CellValue::ILong { name, data } => (name@, Payload::ILong(*data)),
            CellValue::Float { name, data } => (name@, Payload::Float(*data)),
            CellValue::Bytes { name, data } => (name@, Payload::Bytes(opt_bytes_view(*data))),
        }
    }
}


/// Orders two integers.
pub open spec fn cmp_int(a: int, b: int) -> Comparison {
    if a < b {
        Comparison::Less
    } else if a == b {
        Comparison::Equal
    } else {
        Comparison::Greater
    }
}

/// Lexicographic order of texts, character by character (by code point).
pub open spec fn cmp_chars(a: Seq<char>, b: Seq<char>) -> Comparison
    decreases a.len(),
{
    if a.len() == 0 {
        if b.len() == 0 { Comparison::Equal } else { Comparison::Less }
    } else if b.len() == 0 {
        Comparison::Greater
    } else if (a[0] as u32) != (b[0] as u32) {
        cmp_int(a[0] as u32 as int, b[0] as u32 as int)
    } else {
        cmp_chars(a.drop_first(), b.drop_first())
    }
}

/// Lexicographic order of byte strings.
pub open spec fn cmp_bytes(a: Seq<u8>, b: Seq<u8>) -> Comparison
    decreases a.len(),
{
    if a.len() == 0 {
        if b.len() == 0 { Comparison::Equal } else { Comparison::Less }
    } else if b.len() == 0 {
        Comparison::Greater
    } else if a[0] != b[0] {
        cmp_int(a[0] as int, b[0] as int)
    } else {
        cmp_bytes(a.drop_first(), b.drop_first())
    }
}

pub open spec fn sign_bit() -> u64 {
    0x8000_0000_0000_0000u64
}

/// A binary64 bit pattern that encodes NaN.
pub open spec fn float_is_nan(bits: u64) -> bool {
    bits % sign_bit() > 0x7FF0_0000_0000_0000u64
}

/// A number that orders non-NaN binary64 values as their real values are
/// ordered; both zeros map to 0.
pub open spec fn float_key(bits: u64) -> int {
    if bits >= sign_bit() {
        -((bits % sign_bit()) as int)
    } else {
        bits as int
    }
}

pub open spec fn bool_rank(b: bool) -> int {
    if b { 1 } else { 0 }
}

/// How two payloads compare: defined only between payloads of the same kind
/// that are both present (and, for floats, both not NaN).
pub open spec fn payload_cmp(a: Payload, b: Payload) -> Option<Comparison> {
    match (a, b) {
        (Payload::Text(Some(x)), Payload::Text(Some(y))) => Some(cmp_chars(x, y)),
        (Payload::Bool(Some(x)), Payload::Bool(Some(y))) => Some(cmp_int(bool_rank(x), bool_rank(y))),
        (Payload::UInt(Some(x)), Payload::UInt(Some(y))) => Some(cmp_int(x as int, y as int)),
        (Payload::ULong(Some(x)), Payload::ULong(Some(y))) => Some(cmp_int(x as int, y as int)),
        (Payload::IInt(Some(x)), Payload::IInt(Some(y))) => Some(cmp_int(x as int, y as int)),
        (Payload::ILong(Some(x)), Payload::ILong(Some(y))) => Some(cmp_int(x as int, y as int)),
        (Payload::Float(Some(x)), Payload::Float(Some(y))) => if float_is_nan(x) || float_is_nan(y) {
            None
        } else {
            Some(cmp_int(float_key(x), float_key(y)))
        },
        (Payload::Bytes(Some(x)), Payload::Bytes(Some(y))) => Some(cmp_bytes(x, y)),
        _ => None,
    }
}

/// The bytes written as upper-case hex, each byte without leading zeros,
/// with no separator.
pub open spec fn hex_concat(b: Seq<u8>) -> Seq<char>
    decreases b.len(),
{
    if b.len() == 0 {
        Seq::empty()
    } else {
        hex_concat(b.drop_last()) + digits(b.last() as nat, 16)
    }
}

pub open spec fn null_text() -> Seq<char> {
    seq!['n', 'u', 'l', 'l']
}

/// The text of a payload; an absent payload reads `null`, a float shows its
/// bit pattern in hex.
pub open spec fn payload_text(p: Payload) -> Seq<char> {
    match p {
        Payload::Text(Some(s)) => s,
        Payload::Bool(Some(b)) => if b {
            seq!['t', 'r', 'u', 'e']
        } else {
            seq!['f', 'a', 'l', 's', 'e']
        },
        Payload::UInt(Some(v)) => digits(v as nat, 10),
        Payload::ULong(Some(v)) => digits(v as nat, 10),
        Payload::IInt(Some(v)) => signed_decimal(v as int),
        Payload::ILong(Some(v)) => signed_decimal(v as int),
        Payload::Float(Some(bits)) => digits(bits as nat, 16),
        Payload::Bytes(Some(b)) => hex_concat(b),
        _ => null_text(),
    }
}

fn cmp_u128(a: u128, b: u128) -> (r: Comparison)
    ensures
        r == cmp_int(a as int, b as int),
{
    if a < b {
        Comparison::Less
    } else if a == b {
        Comparison::Equal
    } else {
        Comparison::Greater
    }
}

fn cmp_i128(a: i128, b: i128) -> (r: Comparison)
    ensures
        r == cmp_int(a as int, b as int),
{
    if a < b {
        Comparison::Less
    } else if a == b {
        Comparison::Equal
    } else {
        Comparison::Greater
    }
}

fn cmp_text(a: &str, b: &str) -> (r: Comparison)
    ensures
        r == cmp_chars(a@, b@),
{
    let la = a.unicode_len();
    let lb = b.unicode_len();
    assert(a@.subrange(0, la as int) =~= a@);
    assert(b@.subrange(0, lb as int) =~= b@);
    let mut i: usize = 0;
    while i < la && i < lb
        invariant
            i <= la,
            i <= lb,
            la == a@.len(),
            lb == b@.len(),
            cmp_chars(a@, b@) == cmp_chars(
                a@.subrange(i as int, la as int),
                b@.subrange(i as int, lb as int),
            ),
        decreases la - i,
    {
        let x = a.get_char(i);
        let y = b.get_char(i);
        proof {
            let sa = a@.subrange(i as int, la as int);
            let sb = b@.subrange(i as int, lb as int);
            assert(sa.drop_first() =~= a@.subrange(i + 1, la as int));
            assert(sb.drop_first() =~= b@.subrange(i + 1, lb as int));
            assert(sa[0] == x && sb[0] == y);
        }
        if (x as u32) < (y as u32) {
            return Comparison::Less;
        }
        if (x as u32) > (y as u32) {
            return Comparison::Greater;
        }
        i = i + 1;
    }
    if i < la {
        Comparison::Greater
    } else if i < lb {
        Comparison::Less
    } else {
        Comparison::Equal
    }
}

fn cmp_byte_strings(a: &Vec<u8>, b: &Vec<u8>) -> (r: Comparison)
    ensures
        r == cmp_bytes(a@, b@),
{
    let la = a.len();
    let lb = b.len();
    assert(a@.subrange(0, la as int) =~= a@);
    assert(b@.subrange(0, lb as int) =~= b@);
    let mut i: usize = 0;
    while i < la && i < lb
        invariant
            i <= la,
            i <= lb,
            la == a@.len(),
            lb == b@.len(),
            cmp_bytes(a@, b@) == cmp_bytes(
                a@.subrange(i as int, la as int),
                b@.subrange(i as int, lb as int),
            ),
        decreases la - i,
    {
        proof {
            let sa = a@.subrange(i as int, la as int);
            let sb = b@.subrange(i as int, lb as int);
            assert(sa.drop_first() =~= a@.subrange(i + 1, la as int));
            assert(sb.drop_first() =~= b@.subrange(i + 1, lb as int));
        }
        if a[i] < b[i] {
            return Comparison::Less;
        }
        if a[i] > b[i] {
            return Comparison::Greater;
        }
        i = i + 1;
    }
    if i < la {
        Comparison::Greater
    } else if i < lb {
        Comparison::Less
    } else {
        Comparison::Equal
    }
}

fn float_order_key(bits: u64) -> (r: i128)
    ensures
        r as int == float_key(bits),
{
    if bits >= 0x8000_0000_0000_0000u64 {
        -((bits % 0x8000_0000_0000_0000u64) as i128)
    } else {
        bits as i128
    }
}

/// A byte-for-byte copy of a byte string.
pub fn copy_bytes(b: &Vec<u8>) -> (r: Vec<u8>)
    ensures
        r@ == b@,
{
    let mut r: Vec<u8> = Vec::new();
    let mut i: usize = 0;
    while i < b.len()
        invariant
            i <= b.len(),
            r@ == b@.subrange(0, i as int),
        decreases b.len() - i,
    {
        r.push(b[i]);
        i = i + 1;
        assert(r@ =~= b@.subrange(0, i as int));
    }
    assert(r@ =~= b@);
    r
}

/// Upper-case hex of each byte, concatenated.
pub fn render_bytes(b: &Vec<u8>) -> (r: String)
    ensures
        r@ == hex_concat(b@),
{
    let mut s = String::new();
    let mut i: usize = 0;
    while i < b.len()
        invariant
            i <= b.len(),
            s@ == hex_concat(b@.subrange(0, i as int)),
        decreases b.len() - i,
    {
        let d = render_radix(b[i] as u128, 16);
        s.append(d.as_str());
        proof {
            let next = b@.subrange(0, i + 1);
            assert(next.drop_last() =~= b@.subrange(0, i as int));
        }
        i = i + 1;
    }
    assert(b@.subrange(0, b@.len() as int) =~= b@);
    s
}

fn copy_text(o: &Option<String>) -> (r: Option<String>)
    ensures
        opt_str_view(r) == opt_str_view(*o),
{
    match o {
        Some(s) => Some(s.clone()),
        None => None,
    }
}

fn copy_opt_bytes(o: &Option<Vec<u8>>) -> (r: Option<Vec<u8>>)
    ensures
        opt_bytes_view(r) == opt_bytes_view(*o),
{
    match o {
        Some(b) => Some(copy_bytes(b)),
        None => None,
    }
}

fn null_string() -> (r: String)
    ensures
        r@ == null_text(),
{
    proof {
        reveal_strlit("null");
    }
    let r = String::from_str("null");
    assert(r@ =~= null_text());
    r
}

impl CellValue {
    /// The column name this value belongs to.
    pub fn name(&self) -> (r: &str)
        ensures
            r@ == self@.0,
    {
        match self {
            CellValue::String { name, .. } => name.as_str(),
            CellValue::Bool { name, .. } => name.as_str(),
            CellValue::UInt { name, .. } => name.as_str(),
            CellValue::ULong { name, .. } => name.as_str(),
            CellValue::IInt { name, .. } => name.as_str(),
            CellValue::ILong { name, .. } => name.as_str(),
            CellValue::Float { name, .. } => name.as_str(),
            CellValue::Bytes { name, .. } => name.as_str(),
        }
    }

    /// Whether this value belongs to the column called `comp_name`.
    pub fn comp_name(self, comp_name: &String) -> (r: bool)
        ensures
            r == (self@.0 == comp_name@),
    {
        match self {
            CellValue::String { name, .. } => name == *comp_name,
            CellValue::Bool { name, .. } => name == *comp_name,
            CellValue::UInt { name, .. } => name == *comp_name,
            CellValue::ULong { name, .. } => name == *comp_name,
            CellValue::IInt { name, .. } => name == *comp_name,
            CellValue::ILong { name, .. } => name == *comp_name,
            CellValue::Float { name, .. } => name == *comp_name,
            CellValue::Bytes { name, .. } => name == *comp_name,
        }
    }

    /// The payload as text; an absent payload reads `null`.
    pub fn data_str(&self) -> (r: String)
        ensures
            r@ == payload_text(self@.1),
    {
        match self {
            CellValue::String { data, .. } => match data {
                Some(e) => e.clone(),
                None => null_string(),
            },
            CellValue::Bool { data, .. } => match data {
                Some(e) => if *e {
                    proof {
                        reveal_strlit("true");
                    }
                    let r = String::from_str("true");
                    assert(r@ =~= seq!['t', 'r', 'u', 'e']);
                    r
                } else {
                    proof {
                        reveal_strlit("false");
                    }
                    let r = String::from_str("false");
                    assert(r@ =~= seq!['f', 'a', 'l', 's', 'e']);
                    r
                },
                None => null_string(),
            },
            CellValue::UInt { data, .. } => match data {
                Some(e) => render_radix(*e as u128, 10),
                None => null_string(),
            },
            CellValue::ULong { data, .. } => match data {
                Some(e) => render_radix(*e, 10),
                None => null_string(),
            },
            CellValue::IInt { data, .. } => match data {
                Some(e) => render_signed(*e as i128),
                None => null_string(),
            },
            CellValue::ILong { data, .. } => match data {
                Some(e) => render_signed(*e),
                None => null_string(),
            },
            CellValue::Float { data, .. } => match data {
                Some(e) => render_radix(*e as u128, 16),
                None => null_string(),
            },
            CellValue::Bytes { data, .. } => match data {
                Some(e) => render_bytes(e),
                None => null_string(),
            },
        }
    }

    /// Compares the payloads of two values.
    pub fn compare(&self, other: &CellValue) -> (r: Option<Comparison>)
        ensures
            r == payload_cmp(self@.1, other@.1),
    {
        match (self, other) {
            (CellValue::String { data: Some(x), .. }, CellValue::String { data: Some(y), .. }) => {
                Some(cmp_text(x.as_str(), y.as_str()))
            },
            (CellValue::Bool { data: Some(x), .. }, CellValue::Bool { data: Some(y), .. }) => {
                let a: u128 = if *x { 1 } else { 0 };
                let b: u128 = if *y { 1 } else { 0 };
                Some(cmp_u128(a, b))
            },
            (CellValue::UInt { data: Some(x), .. }, CellValue::UInt { data: Some(y), .. }) => {
                Some(cmp_u128(*x as u128, *y as u128))
            },
            (CellValue::ULong { data: Some(x), .. }, CellValue::ULong { data: Some(y), .. }) => {
                Some(cmp_u128(*x, *y))
            },
            (CellValue::IInt { data: Some(x), .. }, CellValue::IInt { data: Some(y), .. }) => {
                Some(cmp_i128(*x as i128, *y as i128))
            },
            (CellValue::ILong { data: Some(x), .. }, CellValue::ILong { data: Some(y), .. }) => {
                Some(cmp_i128(*x, *y))
            },
            (CellValue::Float { data: Some(x), .. }, CellValue::Float { data: Some(y), .. }) => {
                let nan_x = *x % 0x8000_0000_0000_0000u64 > 0x7FF0_0000_0000_0000u64;
                let nan_y = *y % 0x8000_0000_0000_0000u64 > 0x7FF0_0000_0000_0000u64;
                if nan_x || nan_y {
                    None
                } else {
                    Some(cmp_i128(float_order_key(*x), float_order_key(*y)))
                }
            },
            (CellValue::Bytes { data: Some(x), .. }, CellValue::Bytes { data: Some(y), .. }) => {
                Some(cmp_byte_strings(x, y))
            },
            _ => None,
        }
    }

    /// A copy of this value.
    pub fn duplicate(&self) -> (r: CellValue)
        ensures
            r@ == self@,
    {
        match self {
            CellValue::String { name, data } => CellValue::String { name: name.clone(), data: copy_text(data) },
            CellValue::Bool { name, data } => CellValue::Bool { name: name.clone(), data: *data },
            CellValue::UInt { name, data } => CellValue::UInt { name: name.clone(), data: *data },
            CellValue::ULong { name, data } => CellValue::ULong { name: name.clone(), data: *data },
            CellValue::IInt { name, data } => CellValue::IInt { name: name.clone(), data: *data },
            CellValue::ILong { name, data } => CellValue::ILong { name: name.clone(), data: *data },
            CellValue::Float { name, data } => CellValue::Float { name: name.clone(), data: *data },
            CellValue::Bytes { name, data } => CellValue::Bytes { name: name.clone(), data: copy_opt_bytes(data) },
        }
    }
}

impl Default for CellValue {
    fn default() -> (r: CellValue)
        ensures
            r@ == (Seq::<char>::empty(), Payload::Text(None)),
    {
        CellValue::String { name: String::new(), data: None }
    }
}

/// A cell: a value, or the definition of a column.
#[derive(Clone, Debug)]
pub enum Cell {
    CellValue(CellValue),
    CellDef {
        name: String,
        /// Position of the column in its table.
        index: u16,
        /// A value of the column's kind, holding the default payload if any.
        ctype: CellValue,
        /// Whether the column has a default.
        default: bool,
        not_null: bool,
        unique: bool,
        /// True exactly for the first column.
        primary_key: bool,
        /// `(table, column)` that this column refers to.
        foreign_key: Option<(String, String)>,
    },
}

/// Parses a type token's payload from default text. `String` and unknown
/// tokens keep the text; a float default is not read here, as the library
/// does no floating-point arithmetic.
pub open spec fn typed_payload(kind_token: Seq<char>, text: Option<Seq<char>>) -> Payload {
    if kind_token == "Bool"@ {
        Payload::Bool(match text { Some(t) => parse_bool(t), None => None })
    } else if kind_token == "UInt"@ {
        Payload::UInt(match text {
            Some(t) => match parse_int(t, 0, u32::MAX as int) { Some(v) => Some(v as u32), None => None },
            None => None,
        })
    } else if kind_token == "ULong"@ {
        Payload::ULong(match text {
            Some(t) => match parse_int(t, 0, u128::MAX as int) { Some(v) => Some(v as u128), None => None },
            None => None,
        })
    } else if kind_token == "IInt"@ {
        Payload::IInt(match text {
            Some(t) => match parse_int(t, i32::MIN as int, i32::MAX as int) { Some(v) => Some(v as i32), None => None },
            None => None,
        })
    } else if kind_token == "ILong"@ {
        Payload::ILong(match text {
            Some(t) => match parse_int(t, i128::MIN as int, i128::MAX as int) { Some(v) => Some(v as i128), None => None },
            None => None,
        })
    } else if kind_token == "Float"@ {
        Payload::Float(None)
    } else if kind_token == "Bytes"@ {
        Payload::Bytes(match text { Some(t) => Some(decode_pairs(vstd::utf8::encode_utf8(t))), None => None })
    } else {
        Payload::Text(text)
    }
}

/// A value of the kind that `kind_token` names, for column `col_name`, with
/// its payload read from `text`.
pub fn typed_value(col_name: &String, kind_token: &str, text: &Option<String>) -> (r: CellValue)
    ensures
        r@ == (col_name@, typed_payload(kind_token@, opt_str_view(*text))),
{
    let name = col_name.clone();
    if same_text(kind_token, "Bool") {
        CellValue::Bool { name, data: match text { Some(t) => read_bool(t.as_str()), None => None } }
    } else if same_text(kind_token, "UInt") {
        let data = match text {
            Some(t) => match parse_unsigned(t.as_str(), u32::MAX as u128) {
                Some(v) => Some(v as u32),
                None => None,
            },
            None => None,
        };
        CellValue::UInt { name, data }
    } else if same_text(kind_token, "ULong") {
        let data = match text {
            Some(t) => parse_unsigned(t.as_str(), u128::MAX),
            None => None,
        };
        CellValue::ULong { name, data }
    } else if same_text(kind_token, "IInt") {
        let data = match text {
            Some(t) => match parse_signed(t.as_str(), i32::MAX as i128) {
                Some(v) => Some(v as i32),
                None => None,
            },
            None => None,
        };
        CellValue::IInt { name, data }
    } else if same_text(kind_token, "ILong") {
        let data = match text {
            Some(t) => parse_signed(t.as_str(), i128::MAX),
            None => None,
        };
        CellValue::ILong { name, data }
    } else if same_text(kind_token, "Float") {
        CellValue::Float { name, data: None }
    } else if same_text(kind_token, "Bytes") {
        let data = match text {
            Some(t) => Some(decode_hex_pairs(t.as_str())),
            None => None,
        };
        CellValue::Bytes { name, data }
    } else {
        CellValue::String { name, data: copy_text(text) }
    }
}

pub open spec fn fk_view(fk: Option<(String, String)>) -> Option<(Seq<char>, Seq<char>)> {
    match fk {
        Some((t, c)) => Some((t@, c@)),
        None => None,
    }
}

/// Whether two cells hold the same values.
pub open spec fn cell_same(a: Cell, b: Cell) -> bool {
    match (a, b) {
        (Cell::CellValue(x), Cell::CellValue(y)) => x@ == y@,
        (
            Cell::CellDef { name: n1, index: i1, ctype: t1, default: d1, not_null: nn1, unique: u1, primary_key: pk1, foreign_key: f1 },
            Cell::CellDef { name: n2, index: i2, ctype: t2, default: d2, not_null: nn2, unique: u2, primary_key: pk2, foreign_key: f2 },
        ) => n1@ == n2@ && i1 == i2 && t1@ == t2@ && d1 == d2 && nn1 == nn2 && u1 == u2 && pk1 == pk2 && fk_view(f1) == fk_view(f2),
        _ => false,
    }
}

/// Whether two lists of cells hold the same values.
pub open spec fn cells_same(a: Seq<Cell>, b: Seq<Cell>) -> bool {
    a.len() == b.len() && forall|i: int| 0 <= i < a.len() ==> cell_same(#[trigger] a[i], b[i])
}

/// A copy of a cell.
pub fn copy_cell(c: &Cell) -> (r: Cell)
    ensures
        cell_same(r, *c),
{
    match c {
        Cell::CellValue(v) => Cell::CellValue(v.duplicate()),
        Cell::CellDef { name, index, ctype, default, not_null, unique, primary_key, foreign_key } => {
            Cell::CellDef {
                name: name.clone(),
                index: *index,
                ctype: ctype.duplicate(),
                default: *default,
                not_null: *not_null,
                unique: *unique,
                primary_key: *primary_key,
                foreign_key: match foreign_key {
                    Some((t, col)) => Some((t.clone(), col.clone())),
                    None => None,
                },
            }
        },
    }
}

/// A copy of a list of cells.
pub fn copy_cells(v: &Vec<Cell>) -> (r: Vec<Cell>)
    ensures
        cells_same(r@, v@),
{
    let mut r: Vec<Cell> = Vec::new();
    let mut i: usize = 0;
    while i < v.len()
        invariant
            i <= v.len(),
            r@.len() == i,
            forall|k: int| 0 <= k < i ==> cell_same(#[trigger] r@[k], v@[k]),
        decreases v.len() - i,
    {
        r.push(copy_cell(&v[i]));
        i = i + 1;
    }
    r
}

} // verus!

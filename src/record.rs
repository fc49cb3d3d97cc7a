//! Records: ordered lists of cell values.

use vstd::prelude::*;
use crate::cell::{payload_cmp, payload_text, CellModel, CellValue, Comparison};
use crate::conditional::{Condition, ConditionModel, Conditional};
use crate::text::same_text;

verus! {

/// A record as a mathematical value.
pub type RecordModel = Seq<CellModel>;

/// One row: an ordered list of cell values.
#[derive(Clone, Debug, Default)]
pub struct Record {
    pub columns: Vec<CellValue>,
}

impl View for Record {
    type V = RecordModel;

    open spec fn view(&self) -> RecordModel {
        self.columns@.map_values(|c: CellValue| c@)
    }
}

pub open spec fn records_view(v: Seq<Record>) -> Seq<RecordModel> {
    v.map_values(|r: Record| r@)
}

/// The first cell of a record that belongs to the named column.
pub open spec fn first_named(cols: RecordModel, name: Seq<char>) -> Option<CellModel>
    decreases cols.len(),
{
    if cols.len() == 0 {
        None
    } else if cols[0].0 == name {
        Some(cols[0])
    } else {
        first_named(cols.drop_first(), name)
    }
}

/// Whether an operator accepts the outcome of a comparison.
pub open spec fn op_holds(op: Conditional, c: Option<Comparison>) -> bool {
    match op {
        Conditional::NotEqual => c != Some(Comparison::Equal),
        Conditional::Equal => c == Some(Comparison::Equal),
        Conditional::Greater => c == Some(Comparison::Greater),
        Conditional::Smaller => c == Some(Comparison::Less),
        Conditional::EqualGreater => c == Some(Comparison::Greater) || c == Some(Comparison::Equal),
        Conditional::EqualSmaller => c == Some(Comparison::Less) || c == Some(Comparison::Equal),
        Conditional::All => true,
    }
}

/// Whether a record satisfies one condition: the wildcard accepts every
/// record; otherwise the record's cell of the target column is compared with
/// the condition's value, and a record without that column fails.
pub open spec fn satisfies(r: RecordModel, c: ConditionModel) -> bool {
    if c.op == Conditional::All {
        true
    } else {
        match first_named(r, c.target) {
            Some(cell) => op_holds(c.op, payload_cmp(cell.1, c.value.1)),
            None => false,
        }
    }
}

/// Whether a record satisfies every condition of a list.
pub open spec fn satisfies_all(r: RecordModel, cs: Seq<ConditionModel>) -> bool {
    forall|i: int| 0 <= i < cs.len() ==> satisfies(r, #[trigger] cs[i])
}

fn op_accepts(op: Conditional, c: Option<Comparison>) -> (r: bool)
    ensures
        r == op_holds(op, c),
{
    match op {
        Conditional::NotEqual => !(c == Some(Comparison::Equal)),
        Conditional::Equal => c == Some(Comparison::Equal),
        Conditional::Greater => c == Some(Comparison::Greater),
        Conditional::Smaller => c == Some(Comparison::Less),
        Conditional::EqualGreater => c == Some(Comparison::Greater) || c == Some(Comparison::Equal),
        Conditional::EqualSmaller => c == Some(Comparison::Less) || c == Some(Comparison::Equal),
        Conditional::All => true,
    }
}

impl Record {
    /// The position of the first cell that belongs to the named column.
    pub fn find_column(&self, name: &str) -> (r: Option<usize>)
        ensures
            match r {
                Some(i) => i < self.columns.len() && first_named(self@, name@) == Some(self@[i as int]),
                None => first_named(self@, name@) is None,
            },
    {
        let mut i: usize = 0;
        assert(self@.subrange(0, self@.len() as int) =~= self@);
        while i < self.columns.len()
            invariant
                i <= self.columns.len(),
                first_named(self@, name@) == first_named(self@.subrange(i as int, self@.len() as int), name@),
            decreases self.columns.len() - i,
        {
            proof {
                let rest = self@.subrange(i as int, self@.len() as int);
                assert(rest.drop_first() =~= self@.subrange(i + 1, self@.len() as int));
                assert(rest[0] == self@[i as int]);
            }
            if same_text(self.columns[i].name(), name) {
                return Some(i);
            }
            i = i + 1;
        }
        None
    }

    /// Whether this record satisfies a condition.
    pub fn query_check(&self, condition: &Condition) -> (r: bool)
        ensures
            r == satisfies(self@, condition@),
    {
        if condition.conditional == Conditional::All {
            return true;
        }
        match self.find_column(condition.target_column.as_str()) {
            Some(i) => op_accepts(condition.conditional, self.columns[i].compare(&condition.value)),
            None => false,
        }
    }

    /// Whether this record satisfies every condition of a list.
    pub fn query_check_all(&self, conditions: &Vec<Condition>) -> (r: bool)
        ensures
            r == satisfies_all(self@, crate::conditional::conditions_view(conditions@)),
    {
        let ghost cs = crate::conditional::conditions_view(conditions@);
        let mut i: usize = 0;
        while i < conditions.len()
            invariant
                i <= conditions.len(),
                cs == crate::conditional::conditions_view(conditions@),
                forall|j: int| 0 <= j < i ==> satisfies(self@, #[trigger] cs[j]),
            decreases conditions.len() - i,
        {
            if !self.query_check(&conditions[i]) {
                assert(!satisfies(self@, cs[i as int]));
                return false;
            }
            i = i + 1;
        }
        true
    }

    /// A copy of this record.
    pub fn duplicate(&self) -> (r: Record)
        ensures
            r@ == self@,
    {
        let mut columns: Vec<CellValue> = Vec::new();
        let mut i: usize = 0;
        while i < self.columns.len()
            invariant
                i <= self.columns.len(),
                columns@.len() == i,
                forall|k: int| 0 <= k < i ==> (#[trigger] columns@[k])@ == self.columns@[k]@,
            decreases self.columns.len() - i,
        {
            columns.push(self.columns[i].duplicate());
            i = i + 1;
        }
        let r = Record { columns };
        assert(r@ =~= self@);
        r
    }
}

/// A cell as text: `{{name, data}}`.
pub open spec fn cell_text(c: CellModel) -> Seq<char> {
    seq!['{', '{'] + c.0 + seq![',', ' '] + payload_text(c.1) + seq!['}', '}']
}

/// The cells' texts separated by `, `.
pub open spec fn cells_text(cs: Seq<CellModel>) -> Seq<char>
    decreases cs.len(),
{
    if cs.len() == 0 {
        Seq::empty()
    } else if cs.len() == 1 {
        cell_text(cs[0])
    } else {
        cells_text(cs.drop_last()) + seq![',', ' '] + cell_text(cs.last())
    }
}

/// A record as text: `{ ` and its cells, then ` }`.
pub open spec fn record_text(r: RecordModel) -> Seq<char> {
    seq!['{', ' '] + cells_text(r) + seq![' ', '}']
}

/// The records' texts separated by `, `.
pub open spec fn records_text(rs: Seq<RecordModel>) -> Seq<char>
    decreases rs.len(),
{
    if rs.len() == 0 {
        Seq::empty()
    } else if rs.len() == 1 {
        record_text(rs[0])
    } else {
        records_text(rs.drop_last()) + seq![',', ' '] + record_text(rs.last())
    }
}

fn literal(s: &'static str) -> (r: String)
    ensures
        r@ == s@,
{
    String::from_str(s)
}

/// Writes one cell.
pub fn render_cell(c: &CellValue) -> (r: String)
    ensures
        r@ == cell_text(c@),
{
    proof {
        reveal_strlit("{{");
        reveal_strlit(", ");
        reveal_strlit("}}");
    }
    let mut s = literal("{{");
    s.append(c.name());
    s.append(", ");
    let d = c.data_str();
    s.append(d.as_str());
    s.append("}}");
    assert(s@ =~= cell_text(c@));
    s
}

/// Writes a list of records.
pub fn render_records(rs: &Vec<Record>) -> (r: String)
    ensures
        r@ == records_text(records_view(rs@)),
{
    proof {
        reveal_strlit(", ");
        assert(", "@ =~= seq![',', ' ']);
    }
    let ghost m = records_view(rs@);
    let mut s = String::new();
    let mut i: usize = 0;
    while i < rs.len()
        invariant
            i <= rs.len(),
            m == records_view(rs@),
            s@ == records_text(m.subrange(0, i as int)),
        decreases rs.len() - i,
    {
        proof {
            assert(m.subrange(0, i + 1).drop_last() =~= m.subrange(0, i as int));
            assert(m.subrange(0, i + 1).last() == rs@[i as int]@);
        }
        let t = rs[i].render();
        let ghost before = s@;
        if i > 0 {
            s.append(", ");
            s.append(t.as_str());
            proof {
                reveal_strlit(", ");
                assert(", "@ =~= seq![',', ' ']);
                let sub = m.subrange(0, i + 1);
                assert(records_text(sub) == records_text(sub.drop_last()) + seq![',', ' '] + record_text(sub.last()));
                assert(s@ =~= before + seq![',', ' '] + t@);
            }
        } else {
            s.append(t.as_str());
            assert(s@ =~= records_text(m.subrange(0, 1)));
        }
        i = i + 1;
    }
    assert(m.subrange(0, m.len() as int) =~= m);
    s
}

impl Record {
    /// Writes this record.
    pub fn render(&self) -> (r: String)
        ensures
            r@ == record_text(self@),
    {
        proof {
            reveal_strlit("{ ");
            reveal_strlit(", ");
            reveal_strlit(" }");
            assert(", "@ =~= seq![',', ' ']);
        }
        let mut s = literal("{ ");
        let mut i: usize = 0;
        while i < self.columns.len()
            invariant
                i <= self.columns.len(),
                s@ == seq!['{', ' '] + cells_text(self@.subrange(0, i as int)),
            decreases self.columns.len() - i,
        {
            proof {
                assert(self@.subrange(0, i + 1).drop_last() =~= self@.subrange(0, i as int));
                assert(self@.subrange(0, i + 1).last() == self.columns@[i as int]@);
            }
            let c = render_cell(&self.columns[i]);
            let ghost before = s@;
            if i > 0 {
                s.append(", ");
                s.append(c.as_str());
                proof {
                    reveal_strlit(", ");
                    assert(", "@ =~= seq![',', ' ']);
                    let sub = self@.subrange(0, i + 1);
                    assert(cells_text(sub) == cells_text(sub.drop_last()) + seq![',', ' '] + cell_text(sub.last()));
                    assert(s@ =~= before + seq![',', ' '] + c@);
                }
            } else {
                s.append(c.as_str());
                assert(s@ =~= seq!['{', ' '] + cells_text(self@.subrange(0, 1)));
            }
            i = i + 1;
        }
        s.append(" }");
        assert(self@.subrange(0, self@.len() as int) =~= self@);
        assert(s@ =~= record_text(self@));
        s
    }
}

/// The records' texts, one after another.
pub open spec fn concat_text(rs: Seq<RecordModel>) -> Seq<char>
    decreases rs.len(),
{
    if rs.len() == 0 {
        Seq::empty()
    } else {
        concat_text(rs.drop_last()) + record_text(rs.last())
    }
}

/// A list of records, kept in order.
pub struct RecordCollection(pub Vec<Record>);

impl RecordCollection {
    pub fn new() -> (r: RecordCollection)
        ensures
            r.0@.len() == 0,
    {
        RecordCollection(Vec::new())
    }

    pub fn from(records: Vec<Record>) -> (r: RecordCollection)
        ensures
            r.0@ == records@,
    {
        RecordCollection(records)
    }

    pub fn get_vec(self) -> (r: Vec<Record>)
        ensures
            r@ == self.0@,
    {
        self.0
    }

    /// Writes the collection: `{{`, each record, then `}},`.
    pub fn render(&self) -> (r: String)
        ensures
            r@ == seq!['{', '{'] + concat_text(records_view(self.0@)) + seq!['}', '}', ','],
    {
        let ghost m = records_view(self.0@);
        let mut s = literal("{{");
        proof {
            reveal_strlit("{{");
        }
        let mut i: usize = 0;
        while i < self.0.len()
            invariant
                i <= self.0.len(),
                m == records_view(self.0@),
                s@ == seq!['{', '{'] + concat_text(m.subrange(0, i as int)),
            decreases self.0.len() - i,
        {
            proof {
                assert(m.subrange(0, i + 1).drop_last() =~= m.subrange(0, i as int));
                assert(m.subrange(0, i + 1).last() == self.0@[i as int]@);
            }
            let t = self.0[i].render();
            s.append(t.as_str());
            i = i + 1;
            assert(s@ =~= seq!['{', '{'] + concat_text(m.subrange(0, i as int)));
        }
        s.append("}},");
        proof {
            reveal_strlit("}},");
        }
        assert(m.subrange(0, m.len() as int) =~= m);
        assert(s@ =~= seq!['{', '{'] + concat_text(m) + seq!['}', '}', ',']);
        s
    }

    pub fn add(&mut self, elem: Record)
        ensures
            final(self).0@ == old(self).0@.push(elem),
    {
        self.0.push(elem);
    }
}

} // verus!

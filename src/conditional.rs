//! The condition language used to filter records.

use vstd::prelude::*;
use crate::cell::{CellModel, CellValue};
use crate::text::same_text;

verus! {

/// A comparison operator.
#[derive(Clone, Copy, Debug, PartialEq, Eq, Structural)]
pub enum Conditional {
    /// `!=`
    NotEqual,
    /// `==`
    Equal,
    /// `>`
    Greater,
    /// `<`
    Smaller,
    /// `>=`
    EqualGreater,
    /// `<=`
    EqualSmaller,
    /// `*`: every record matches.
    All,
}

/// How a condition connects to the next one.
#[derive(Clone, Copy, Debug, PartialEq, Eq, Structural)]
pub enum Relation {
    AND,
    OR,
    NOT,
}

/// A predicate over one column.
#[derive(Clone, Debug)]
pub struct Condition {
    pub target_column: String,
    pub conditional: Conditional,
    pub value: CellValue,
    /// Relation to the next condition; read, but conditions are always
    /// conjoined.
    pub relational: Option<Relation>,
}

/// A condition as a mathematical value.
pub struct ConditionModel {
    pub target: Seq<char>,
    pub op: Conditional,
    pub value: CellModel,
    pub relation: Option<Relation>,
}

impl View for Condition {
    type V = ConditionModel;

    open spec fn view(&self) -> ConditionModel {
        ConditionModel {
            target: self.target_column@,
            op: self.conditional,
            value: self.value@,
            relation: self.relational,
        }
    }
}

pub open spec fn conditions_view(c: Seq<Condition>) -> Seq<ConditionModel> {
    c.map_values(|x: Condition| x@)
}

/// The operator that a token spells, if any.
pub open spec fn conditional_of(s: Seq<char>) -> Option<Conditional> {
    if s == seq!['!', '='] {
        Some(Conditional::NotEqual)
    } else if s == seq!['=', '='] {
        Some(Conditional::Equal)
    } else if s == seq!['>', '='] {
        Some(Conditional::EqualGreater)
    } else if s == seq!['<', '='] {
        Some(Conditional::EqualSmaller)
    } else if s == seq!['>'] {
        Some(Conditional::Greater)
    } else if s == seq!['<'] {
        Some(Conditional::Smaller)
    } else if s == seq!['*'] {
        Some(Conditional::All)
    } else {
        None
    }
}

/// The connector that a token spells, if any.
pub open spec fn relation_of(s: Seq<char>) -> Option<Relation> {
    if s == seq!['A', 'N', 'D'] || s == seq!['&', '&'] {
        Some(Relation::AND)
    } else if s == seq!['O', 'R'] || s == seq!['|', '|'] {
        Some(Relation::OR)
    } else if s == seq!['N', 'O', 'T'] || s == seq!['!', '!'] {
        Some(Relation::NOT)
    } else {
        None
    }
}

pub open spec fn unknown_operator_text() -> Seq<char> {
    "condition pattern not recognised"@
}

pub open spec fn unknown_relation_text() -> Seq<char> {
    "relation pattern not recognised"@
}

impl Conditional {
    /// Reads an operator token.
    pub fn parse(a: String) -> (r: Result<Self, String>)
        ensures
            match conditional_of(a@) {
                Some(c) => r == Ok::<Conditional, String>(c),
                None => r is Err && r->Err_0@ == unknown_operator_text(),
            },
    {
        proof {
            reveal_strlit("!=");
            reveal_strlit("==");
            reveal_strlit(">=");
            reveal_strlit("<=");
            reveal_strlit(">");
            reveal_strlit("<");
            reveal_strlit("*");
            assert("!="@ =~= seq!['!', '=']);
            assert("=="@ =~= seq!['=', '=']);
            assert(">="@ =~= seq!['>', '=']);
            assert("<="@ =~= seq!['<', '=']);
            assert(">"@ =~= seq!['>']);
            assert("<"@ =~= seq!['<']);
            assert("*"@ =~= seq!['*']);
        }
        let s = a.as_str();
        if same_text(s, "!=") {
            Ok(Conditional::NotEqual)
        } else if same_text(s, "==") {
            Ok(Conditional::Equal)
        } else if same_text(s, ">=") {
            Ok(Conditional::EqualGreater)
        } else if same_text(s, "<=") {
            Ok(Conditional::EqualSmaller)
        } else if same_text(s, ">") {
            Ok(Conditional::Greater)
        } else if same_text(s, "<") {
            Ok(Conditional::Smaller)
        } else if same_text(s, "*") {
            Ok(Conditional::All)
        } else {
            Err(String::from_str("condition pattern not recognised"))
        }
    }
}

impl Relation {
    /// Reads a connector token.
    pub fn parse(a: String) -> (r: Result<Self, String>)
        ensures
            match relation_of(a@) {
                Some(c) => r == Ok::<Relation, String>(c),
                None => r is Err && r->Err_0@ == unknown_relation_text(),
            },
    {
        proof {
            reveal_strlit("AND");
            reveal_strlit("&&");
            reveal_strlit("OR");
            reveal_strlit("||");
            reveal_strlit("NOT");
            reveal_strlit("!!");
            assert("AND"@ =~= seq!['A', 'N', 'D']);
            assert("&&"@ =~= seq!['&', '&']);
            assert("OR"@ =~= seq!['O', 'R']);
            assert("||"@ =~= seq!['|', '|']);
            assert("NOT"@ =~= seq!['N', 'O', 'T']);
            assert("!!"@ =~= seq!['!', '!']);
        }
        let s = a.as_str();
        if same_text(s, "AND") || same_text(s, "&&") {
            Ok(Relation::AND)
        } else if same_text(s, "OR") || same_text(s, "||") {
            Ok(Relation::OR)
        } else if same_text(s, "NOT") || same_text(s, "!!") {
            Ok(Relation::NOT)
        } else {
            Err(String::from_str("relation pattern not recognised"))
        }
    }
}

} // verus!

//! Changes to durable storage that the library asks its host to carry out.

use vstd::prelude::*;
use crate::cell::{cells_same, Cell};
use crate::record::{records_view, Record, RecordModel};

verus! {

/// One change to the file tree, to be carried out in order.
pub enum StorageAction {
    /// Create a directory and its parents.
    CreateDir(String),
    /// Create or truncate a file and write text into it.
    WriteText(String, String),
    /// Create or truncate a table definition file and write the auto-increment
    /// flag and the column definitions into it, in the binary format.
    WriteTableDef(String, bool, Vec<Cell>),
    /// Create or truncate a part file and write the records into it, in the
    /// binary format.
    WritePart(String, Vec<Record>),
    /// Remove a file.
    RemoveFile(String),
    /// Remove an empty directory.
    RemoveDir(String),
}

/// Whether an action writes exactly these records into the file at `path`.
pub open spec fn writes_part(a: StorageAction, path: Seq<char>, recs: Seq<RecordModel>) -> bool {
    match a {
        StorageAction::WritePart(p, rs) => p@ == path && records_view(rs@) == recs,
        _ => false,
    }
}

/// Whether an action removes the file at `path`.
pub open spec fn removes_file(a: StorageAction, path: Seq<char>) -> bool {
    match a {
        StorageAction::RemoveFile(p) => p@ == path,
        _ => false,
    }
}

/// Whether an action removes the directory at `path`.
pub open spec fn removes_dir(a: StorageAction, path: Seq<char>) -> bool {
    match a {
        StorageAction::RemoveDir(p) => p@ == path,
        _ => false,
    }
}

/// Whether an action creates the directory at `path`.
pub open spec fn creates_dir(a: StorageAction, path: Seq<char>) -> bool {
    match a {
        StorageAction::CreateDir(p) => p@ == path,
        _ => false,
    }
}

/// Whether an action writes `text` into the file at `path`.
pub open spec fn writes_text(a: StorageAction, path: Seq<char>, text: Seq<char>) -> bool {
    match a {
        StorageAction::WriteText(p, t) => p@ == path && t@ == text,
        _ => false,
    }
}

/// Whether an action writes this definition into the file at `path`.
pub open spec fn writes_table_def(a: StorageAction, path: Seq<char>, ai: bool, cells: Seq<Cell>) -> bool {
    match a {
        StorageAction::WriteTableDef(p, flag, cs) => p@ == path && flag == ai && cells_same(cs@, cells),
        _ => false,
    }
}

} // verus!

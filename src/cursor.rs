//! The iteration state shared by every table function: a result sequence
//! materialised once per filter, and a position in it.
use vstd::prelude::*;

use crate::captures::{captures_rows, CaptureGroup};
use crate::error::RegexError;
use crate::find_all::find_all_rows;
use crate::handle::{arg_text, regex_arg_pattern, ArgValue};
use crate::split::split_rows;

verus! {

/// A value that a cursor projects into a column.
#[derive(Debug)]
pub enum ColumnValue {
    Null,
    Integer(usize),
    Text(String),
    /// A list of texts, emitted as a JSON array.
    TextList(Vec<String>),
    /// The capture table of one match, emitted as a handle.
    Captures(Vec<CaptureGroup>),
}

/// Filtering again with the same bound arguments materialises the same
/// rows: what a filter yields depends on the pattern text and the subject
/// alone, not on the cache, the memo slots, or whether the pattern came as
/// a handle or as text.
pub proof fn filter_idempotent(first: Seq<ArgValue>, second: Seq<ArgValue>)
    requires
        first.len() >= 2,
        second.len() >= 2,
        regex_arg_pattern(first[0]) == regex_arg_pattern(second[0]),
        arg_text(first[1]) == arg_text(second[1]),
    ensures
        find_all_rows(regex_arg_pattern(first[0]), arg_text(first[1])) == find_all_rows(
            regex_arg_pattern(second[0]),
            arg_text(second[1]),
        ),
        split_rows(regex_arg_pattern(first[0]), arg_text(first[1])) == split_rows(
            regex_arg_pattern(second[0]),
            arg_text(second[1]),
        ),
        captures_rows(regex_arg_pattern(first[0]), arg_text(first[1])) == captures_rows(
            regex_arg_pattern(second[0]),
            arg_text(second[1]),
        ),
{
}

/// The rows of the last filter, if there was one, and the current row.
pub struct ResultSequence<T> {
    rows: Option<Vec<T>>,
    pos: usize,
}

impl<T> ResultSequence<T> {
    /// The rows of the last successful filter; none before it or after a
    /// failed one.
    pub closed spec fn rows(&self) -> Option<Seq<T>> {
        match self.rows {
            Some(v) => Some(v@),
            None => None,
        }
    }

    /// The index of the current row.
    pub closed spec fn position(&self) -> nat {
        self.pos as nat
    }

    /// The position never passes the end of the rows.
    pub open spec fn wf(&self) -> bool {
        match self.rows() {
            Some(v) => self.position() <= v.len(),
            None => self.position() == 0,
        }
    }

    /// At the end: nothing filtered, or no row left.
    pub open spec fn at_end(&self) -> bool {
        match self.rows() {
            Some(v) => self.position() >= v.len(),
            None => true,
        }
    }

    /// A cursor that has not been filtered yet.
    pub fn new() -> (r: ResultSequence<T>)
        ensures
            r.wf(),
            r.rows() is None,
            r.position() == 0,
    {
        ResultSequence { rows: None, pos: 0 }
    }

    /// Replaces the rows with a fresh sequence and goes back to its start.
    pub fn reset(&mut self, rows: Vec<T>)
        ensures
            final(self).wf(),
            final(self).rows() == Some(rows@),
            final(self).position() == 0,
    {
        self.rows = Some(rows);
        self.pos = 0;
    }

    /// Drops the rows, as after a failed filter.
    pub fn clear(&mut self)
        ensures
            final(self).wf(),
            final(self).rows() is None,
            final(self).position() == 0,
    {
        self.rows = None;
        self.pos = 0;
    }

    /// Moves to the next row; at the end it stays where it is.
    pub fn next(&mut self)
        requires
            old(self).wf(),
        ensures
            final(self).wf(),
            final(self).rows() == old(self).rows(),
            final(self).position() == if old(self).at_end() {
                old(self).position()
            } else {
                old(self).position() + 1
            },
    {
        match &self.rows {
            Some(v) => {
                if self.pos < v.len() {
                    self.pos = self.pos + 1;
                }
            },
            None => {},
        }
    }

    /// Whether there is no current row.
    pub fn eof(&self) -> (r: bool)
        ensures
            r == self.at_end(),
    {
        match &self.rows {
            Some(v) => self.pos >= v.len(),
            None => true,
        }
    }

    /// The identifier of the current row: its index.
    pub fn rowid(&self) -> (r: usize)
        ensures
            r == self.position(),
    {
        self.pos
    }

    /// The current row; an internal error before a filter or past the end.
    pub fn current(&self) -> (r: Result<&T, RegexError>)
        ensures
            r.is_ok() == !self.at_end(),
            r matches Ok(row) ==> self.rows() matches Some(v) && *row == v[self.position() as int],
            r matches Err(e) ==> e is Internal,
    {
        match &self.rows {
            Some(v) => {
                if self.pos < v.len() {
                    Ok(&v[self.pos])
                } else {
                    Err(RegexError::Internal("cursor is past its last row".to_owned()))
                }
            },
            None => Err(RegexError::Internal("cursor was not filtered".to_owned())),
        }
    }
}

} // verus!

//! Where a watch stands in the history of the store.
use vstd::prelude::*;

use crate::error::ManagerError;
use crate::text::{i64_value, parse_i64};

verus! {

/// A revision of the store.
#[derive(Clone, Copy, Debug, PartialEq, Eq, Structural)]
pub struct WatchCursor {
    pub index: i64,
}

/// A position in the history: a revision, or a revision in decimal.
#[derive(Debug, PartialEq, Eq)]
pub enum Cursor {
    Cursor(WatchCursor),
    Str(String),
}

/// The cursor before all history.
pub open spec fn default_cursor(cursor: Cursor) -> bool {
    cursor matches Cursor::Str(s) && s@ == "0"@
}

/// The revision that a cursor stands for, if it stands for one.
pub open spec fn cursor_index(cursor: Cursor) -> Option<i64> {
    match cursor {
        Cursor::Cursor(at) => Some(at.index),
        Cursor::Str(s) => i64_value(s@),
    }
}

/// The first revision past the cursor.
pub open spec fn next_index(cursor: Cursor) -> Option<int> {
    match cursor_index(cursor) {
        Some(index) => Some(index + 1),
        None => None,
    }
}

impl Default for WatchCursor {
    fn default() -> (r: WatchCursor)
        ensures
            r.index == 0,
    {
        WatchCursor { index: 0 }
    }
}

impl Clone for Cursor {
    fn clone(&self) -> (r: Cursor)
        ensures
            r == *self,
    {
        match self {
            Cursor::Cursor(at) => Cursor::Cursor(*at),
            Cursor::Str(s) => Cursor::Str(s.clone()),
        }
    }
}

impl Default for Cursor {
    fn default() -> (r: Cursor)
        ensures
            default_cursor(r),
    {
        Cursor::Str("0".to_owned())
    }
}

/// The first revision that a report with this cursor does not cover. There is none
/// past the highest revision.
pub fn get_next_index(cursor: &Cursor) -> (r: Result<i64, ManagerError>)
    requires
        next_index(*cursor) matches Some(next) ==> next <= i64::MAX,
    ensures
        match next_index(*cursor) {
            Some(next) => r matches Ok(index) && index == next,
            None => r matches Err(ManagerError::BadCursor(s)) && cursor matches Cursor::Str(t)
                && s == t,
        },
{
    match cursor {
        Cursor::Cursor(at) => Ok(at.index + 1),
        Cursor::Str(s) => match parse_i64(s.as_str()) {
            Some(index) => Ok(index + 1),
            None => Err(ManagerError::BadCursor(s.clone())),
        },
    }
}

} // verus!

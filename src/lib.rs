//! Regular-expression table functions for an embedded SQL engine: a planner
//! that forces the hidden arguments to be bound by equality, cursors that
//! materialise the rows of one call, a per-connection cache of compiled
//! patterns, and the handle protocol that hands a compiled pattern between
//! calls.

pub mod cache;
pub mod captures;
pub mod cursor;
pub mod error;
pub mod find_all;
pub mod handle;
pub mod matcher;
pub mod planner;
pub mod scalar;
pub mod set_matches;
pub mod split;

pub use cache::MatcherCache;
pub use captures::{
    build_capture_table, capture_lookup, captures_of, clone_table, CaptureGroup, CaptureGroupKey,
    RegexCapturesCursor, RegexCapturesTable, CAPTURES_CONTENTS, CAPTURES_PATTERN, CAPTURES_TABLE,
};
pub use cursor::{ColumnValue, ResultSequence};
pub use error::{PlanError, RegexError};
pub use find_all::{
    find_all, MatchRow, RegexFindAllCursor, RegexFindAllTable, FIND_ALL_CONTENTS, FIND_ALL_END,
    FIND_ALL_MATCH, FIND_ALL_PATTERN, FIND_ALL_START,
};
pub use handle::{
    cleanup_regex_value_cached, pattern_and_text, regex_from_value_or_cache, regex_handle,
    regexset, value_regex, value_regexset, ArgValue, AuxSlots, RegexInputType,
};
pub use matcher::{byte_slice, Matcher, MatcherSet};
pub use planner::{
    plan_hidden, ConstraintOp, IndexConstraint, IndexPlan, ESTIMATED_COST, ESTIMATED_ROWS,
    PLAN_BOTH_ARGUMENTS,
};
pub use scalar::{
    matcher_arg, regex_capture, regex_capture2, regex_find, regex_find_at, regex_matches,
    regex_print, regex_replace, regex_replace_all, regex_valid, regexp, regexset_is_match,
    regexset_print,
};
pub use set_matches::{
    clone_texts, RegexSetMatchesCursor, RegexSetMatchesTable, SET_CONTENTS, SET_KEY, SET_PATTERN,
    SET_REGEXSET,
};
pub use split::{
    split, RegexSplitCursor, RegexSplitTable, SPLIT_CONTENTS, SPLIT_ITEM, SPLIT_PATTERN,
};

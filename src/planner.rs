//! Constraint pushdown: a table function accepts a call only when each of its
//! hidden argument columns is bound by a usable equality, and tells the host
//! which argument slot each such value feeds.
use vstd::prelude::*;

use crate::error::PlanError;

verus! {

/// The operator of a constraint, as far as the planner cares.
#[derive(PartialEq, Eq, Structural, Clone, Copy, Debug)]
pub enum ConstraintOp {
    Eq,
    Other,
}

/// One predicate that the host offers on a column of the table function.
/// `omit` and `argv_index` are the planner's answer: whether the host may
/// skip re-checking the predicate, and which argument (from 1) receives its
/// value, 0 for none.
#[derive(PartialEq, Eq, Structural, Clone, Copy, Debug)]
pub struct IndexConstraint {
    pub column: i32,
    pub op: ConstraintOp,
    pub usable: bool,
    pub omit: bool,
    pub argv_index: i32,
}

/// What the planner reports for an accepted call.
#[derive(PartialEq, Eq, Structural, Clone, Copy, Debug)]
pub struct IndexPlan {
    pub estimated_cost: u64,
    pub estimated_rows: i64,
    pub idx_num: i32,
}

/// The cost reported for every accepted call: the function always scans the
/// one sequence it materialises.
pub const ESTIMATED_COST: u64 = 100000;

/// The row count reported for every accepted call.
pub const ESTIMATED_ROWS: i64 = 100000;

/// The plan number of the one argument order that the cursors expect: the
/// first hidden argument, then the second.
pub const PLAN_BOTH_ARGUMENTS: i32 = 2;

/// The plan reported for every accepted call.
pub open spec fn accepted_plan() -> IndexPlan {
    IndexPlan {
        estimated_cost: ESTIMATED_COST,
        estimated_rows: ESTIMATED_ROWS,
        idx_num: PLAN_BOTH_ARGUMENTS,
    }
}

impl IndexConstraint {
    /// A usable equality.
    pub open spec fn is_usable_eq(self) -> bool {
        self.usable && self.op == ConstraintOp::Eq
    }

    /// The constraint as the planner leaves it when it binds it to argument
    /// `slot`.
    pub open spec fn bound_to(self, slot: i32) -> IndexConstraint {
        IndexConstraint { omit: true, argv_index: slot, ..self }
    }
}

/// A constraint on one of the two hidden columns that is not a usable
/// equality.
pub open spec fn has_unsupported(cs: Seq<IndexConstraint>, first: i32, second: i32) -> bool {
    exists|i: int|
        0 <= i < cs.len() && (cs[i].column == first || cs[i].column == second)
            && !(#[trigger] cs[i]).is_usable_eq()
}

/// Some constraint is on `column`.
pub open spec fn constrains(cs: Seq<IndexConstraint>, column: i32) -> bool {
    exists|i: int| 0 <= i < cs.len() && (#[trigger] cs[i]).column == column
}

/// The constraints after an accepted plan: those on the first hidden column
/// feed argument 1, those on the second feed argument 2, and the host need
/// not re-check either; the rest stay as they were.
pub open spec fn bind_hidden(cs: Seq<IndexConstraint>, first: i32, second: i32) -> Seq<
    IndexConstraint,
> {
    Seq::new(
        cs.len(),
        |i: int|
            if cs[i].column == first {
                cs[i].bound_to(1)
            } else if cs[i].column == second {
                cs[i].bound_to(2)
            } else {
                cs[i]
            },
    )
}

/// What planning a call with these constraints comes to.
pub open spec fn plan_outcome(cs: Seq<IndexConstraint>, first: i32, second: i32) -> Result<
    IndexPlan,
    PlanError,
> {
    if has_unsupported(cs, first, second) {
        Err(PlanError::UnsupportedConstraint)
    } else if !constrains(cs, first) || !constrains(cs, second) {
        Err(PlanError::MissingConstraint)
    } else {
        Ok(accepted_plan())
    }
}

/// Plans a call of a table function whose hidden argument columns are
/// `first` and `second`. An accepted call binds the constraints as
/// `bind_hidden` says; a rejected one leaves them untouched.
pub fn plan_hidden(constraints: &mut Vec<IndexConstraint>, first: i32, second: i32) -> (r: Result<
    IndexPlan,
    PlanError,
>)
    requires
        first != second,
    ensures
        r == plan_outcome(old(constraints)@, first, second),
        r is Ok ==> final(constraints)@ == bind_hidden(old(constraints)@, first, second),
        r is Err ==> final(constraints)@ == old(constraints)@,
{
    let n = constraints.len();
    let mut has_first = false;
    let mut has_second = false;
    let mut i: usize = 0;
    while i < n
        invariant
            n == constraints@.len(),
            i <= n,
            first != second,
            forall|j: int|
                0 <= j < i ==> !((constraints@[j].column == first || constraints@[j].column
                    == second) && !(#[trigger] constraints@[j]).is_usable_eq()),
            has_first == exists|j: int| 0 <= j < i && (#[trigger] constraints@[j]).column == first,
            has_second == exists|j: int|
                0 <= j < i && (#[trigger] constraints@[j]).column == second,
        decreases n - i,
    {
        let c = constraints[i];
        if c.column == first || c.column == second {
            if !(c.usable && c.op == ConstraintOp::Eq) {
                assert(has_unsupported(constraints@, first, second));
                return Err(PlanError::UnsupportedConstraint);
            }
            if c.column == first {
                has_first = true;
            } else {
                has_second = true;
            }
        }
        i = i + 1;
    }
    if !has_first || !has_second {
        return Err(PlanError::MissingConstraint);
    }
    let ghost before = constraints@;
    let mut k: usize = 0;
    while k < n
        invariant
            n == constraints@.len(),
            n == before.len(),
            k <= n,
            forall|j: int|
                0 <= j < k ==> constraints@[j] == #[trigger] bind_hidden(before, first, second)[j],
            forall|j: int| k <= j < n ==> constraints@[j] == before[j],
        decreases n - k,
    {
        let c = constraints[k];
        if c.column == first {
            constraints.set(k, IndexConstraint { omit: true, argv_index: 1, ..c });
        } else if c.column == second {
            constraints.set(k, IndexConstraint { omit: true, argv_index: 2, ..c });
        }
        k = k + 1;
    }
    assert(constraints@ =~= bind_hidden(before, first, second));
    Ok(IndexPlan {
        estimated_cost: ESTIMATED_COST,
        estimated_rows: ESTIMATED_ROWS,
        idx_num: PLAN_BOTH_ARGUMENTS,
    })
}

} // verus!

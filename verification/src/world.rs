//! Employees' public expressions, how many of them show each expression, and
//! where each employee sits in the organisation.

use vstd::prelude::*;

use crate::tally::{count_where, lemma_count_where_step, lemma_take_full};

verus! {

/// Public expression at step `t`.
#[derive(Clone, Copy, PartialEq, Eq, Debug, Structural)]
pub enum Expression {
    Voice,
    Silence,
    Neutral,
}

impl Expression {
    /// The stable lowercase name of the expression.
    pub open spec fn spec_label(self) -> Seq<char> {
        match self {
            Expression::Voice => "voice"@,
            Expression::Silence => "silence"@,
            Expression::Neutral => "neutral"@,
        }
    }

    /// Stable lowercase name (CSV friendly).
    pub fn label(&self) -> (s: &'static str)
        ensures
            s@ == self.spec_label(),
    {
        match self {
            Expression::Voice => "voice",
            Expression::Silence => "silence",
            Expression::Neutral => "neutral",
        }
    }
}

/// The predicate "the expression is `t`".
pub open spec fn is_expression(t: Expression) -> spec_fn(Expression) -> bool {
    |e: Expression| e == t
}

/// Number of entries of `s` that are the expression `t`.
pub open spec fn expression_count(s: Seq<Expression>, t: Expression) -> nat {
    count_where(s, is_expression(t))
}

/// Number of entries of `expressions` equal to `target` (e.g. the silent
/// employees of the organisation, or the voicing neighbours of one of them).
pub fn count_expression(expressions: &[Expression], target: Expression) -> (n: usize)
    ensures
        n == expression_count(expressions@, target),
{
    let mut n: usize = 0;
    let mut i: usize = 0;
    while i < expressions.len()
        invariant
            i <= expressions@.len(),
            n == count_where(expressions@.take(i as int), is_expression(target)),
            n <= i,
        decreases expressions@.len() - i,
    {
        proof {
            lemma_count_where_step(expressions@, is_expression(target), i as int);
        }
        if expressions[i] == target {
            n = n + 1;
        }
        i = i + 1;
    }
    proof {
        lemma_take_full(expressions@);
    }
    n
}

/// Every entry shows exactly one of the three expressions.
pub proof fn lemma_expression_counts_partition(s: Seq<Expression>)
    ensures
        expression_count(s, Expression::Voice) + expression_count(s, Expression::Silence)
            + expression_count(s, Expression::Neutral) == s.len(),
    decreases s.len(),
{
    if s.len() > 0 {
        lemma_expression_counts_partition(s.drop_last());
    }
}

/// Team and hierarchical level of the `i`-th employee: employees fill teams
/// of `team_size` in order, and levels cycle through `max(n_levels, 1)`.
pub open spec fn spec_employee_slot(i: nat, team_size: nat, n_levels: nat) -> (nat, nat) {
    let levels = if n_levels == 0 {
        1
    } else {
        n_levels
    };
    (i / team_size, i % levels)
}

/// Team index and level of the `i`-th employee at world initialisation.
pub fn employee_slot(i: usize, team_size: usize, n_levels: u8) -> (r: (usize, u8))
    requires
        team_size > 0,
    ensures
        (r.0 as nat, r.1 as nat) == spec_employee_slot(i as nat, team_size as nat, n_levels as nat),
{
    let levels: u8 = if n_levels == 0 {
        1
    } else {
        n_levels
    };
    let level = i % (levels as usize);
    (i / team_size, level as u8)
}

/// Employees fill teams of `team_size` in order: the `i`-th lands in the
/// team whose block of `team_size` numbers holds `i`, and levels cycle
/// through `0..n_levels` (all at level 0 when there are no levels).
pub proof fn lemma_employee_slot_order(i: nat, team_size: nat, n_levels: nat)
    requires
        team_size > 0,
    ensures
        spec_employee_slot(i, team_size, n_levels).0 * team_size <= i,
        i < (spec_employee_slot(i, team_size, n_levels).0 + 1) * team_size,
        n_levels > 0 ==> spec_employee_slot(i, team_size, n_levels).1 < n_levels && (
        spec_employee_slot(i + 1, team_size, n_levels).1 == if spec_employee_slot(
            i,
            team_size,
            n_levels,
        ).1 + 1 == n_levels {
            0
        } else {
            spec_employee_slot(i, team_size, n_levels).1 + 1
        }),
        n_levels == 0 ==> spec_employee_slot(i, team_size, n_levels).1 == 0,
{
    let t = i / team_size;
    assert(t * team_size <= i < (t + 1) * team_size) by (nonlinear_arith)
        requires
            team_size > 0,
            t == i / team_size,
    ;
    if n_levels > 0 {
        assert((i + 1) % n_levels == if i % n_levels + 1 == n_levels {
            0
        } else {
            i % n_levels + 1
        }) by (nonlinear_arith)
            requires
                n_levels > 0,
        ;
    }
}

/// Employees numbered below `n_teams * team_size` land in one of the
/// `n_teams` teams, at a level below `max(n_levels, 1)`.
pub proof fn lemma_employee_slot_in_range(i: nat, team_size: nat, n_teams: nat, n_levels: nat)
    requires
        team_size > 0,
        i < n_teams * team_size,
    ensures
        spec_employee_slot(i, team_size, n_levels).0 < n_teams,
        spec_employee_slot(i, team_size, n_levels).1 < if n_levels == 0 {
            1
        } else {
            n_levels
        },
{
    assert(i / team_size < n_teams) by (nonlinear_arith)
        requires
            team_size > 0,
            i < n_teams * team_size,
    ;
}

} // verus!

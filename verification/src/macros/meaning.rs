//! What the equations of a time step mean, once they are written as
//! assignments: how the state of a unit changes when the assignments run.
//!
//! The state is the value of every field, in exact numbers. What an
//! expression is worth in a state is left open: it is Rust's to say, and a
//! parameter here. What is fixed is how an assignment uses it.

use vstd::prelude::*;
use crate::macros::generate::{assignment, each, mark, word};
use crate::macros::model::{Equation, EquationView, IdentOrDerivativeView};
use crate::macros::tokens::{Delimiter, TokenView};

verus! {

/// The value of every field of a unit.
pub type State = Map<Seq<char>, int>;

/// What an expression is worth in a state.
pub type Worth = spec_fn(Seq<TokenView>, State) -> int;

/// The state after the assignment that stands at index `at`, with the index
/// behind the assignment; `None` where no assignment stands. The right side
/// is worth what it is worth in the state that the assignment finds.
/// `self . x = ( rhs ) ;` gives `x` that worth. `self . x = ( rhs ) * dt +
/// self . x ;` gives `x` that worth times `dt`, added to what `x` holds.
pub open spec fn assigned(tokens: Seq<TokenView>, at: int, state: State, dt: int, worth: Worth) -> Option<
    (State, int),
> {
    if 0 <= at && at + 5 < tokens.len() && tokens[at] == word("self"@) && tokens[at + 1] == mark('.')
        && tokens[at + 2] is Ident && tokens[at + 3] == mark('=') && (tokens[at
        + 4] matches TokenView::Group(delimiter, _) && delimiter == Delimiter::Parenthesis) {
        let name = tokens[at + 2]->Ident_0;
        let value = worth(tokens[at + 4]->Group_1, state);
        if tokens[at + 5] == mark(';') {
            Some((state.insert(name, value), at + 6))
        } else if at + 11 < tokens.len() && tokens[at + 5] == mark('*') && tokens[at + 6] == word(
            "dt"@,
        ) && tokens[at + 7] == mark('+') && tokens[at + 8] == word("self"@) && tokens[at + 9]
            == mark('.') && tokens[at + 10] == word(name) && tokens[at + 11] == mark(';') {
            Some((state.insert(name, value * dt + state[name]), at + 12))
        } else {
            None
        }
    } else {
        None
    }
}

/// The state after the assignments from index `at` to the end have run, one
/// after the other; `None` where something else than assignments stands
/// there.
pub open spec fn run(tokens: Seq<TokenView>, at: int, state: State, dt: int, worth: Worth) -> Option<
    State,
>
    decreases tokens.len() - at,
{
    if at >= tokens.len() {
        Some(state)
    } else {
        match assigned(tokens, at, state, dt, worth) {
            Some((after, next)) => run(tokens, next, after, dt, worth),
            None => None,
        }
    }
}

/// The state after one equation: a direct equation replaces the state that
/// it is about by what its right side is worth, and a derivative equation
/// adds to it what its right side is worth times the time step.
pub open spec fn applied(equation: EquationView, state: State, dt: int, worth: Worth) -> State {
    let name = equation.left_side.name();
    let value = worth(equation.right_side, state);
    match equation.left_side {
        IdentOrDerivativeView::Ident(_) => state.insert(name, value),
        IdentOrDerivativeView::Derivative(_) => state.insert(name, value * dt + state[name]),
    }
}

/// The state after the equations from index `at` on, each applied to the
/// state that the one before it has left.
pub open spec fn stepped(
    equations: Seq<EquationView>,
    at: int,
    state: State,
    dt: int,
    worth: Worth,
) -> State
    decreases equations.len() - at,
{
    if 0 <= at < equations.len() {
        stepped(equations, at + 1, applied(equations[at], state, dt, worth), dt, worth)
    } else {
        state
    }
}

/// The state after `steps` time steps.
pub open spec fn stepped_times(
    equations: Seq<EquationView>,
    steps: nat,
    state: State,
    dt: int,
    worth: Worth,
) -> State
    decreases steps,
{
    if steps == 0 {
        state
    } else {
        stepped_times(
            equations,
            (steps - 1) as nat,
            stepped(equations, 0, state, dt, worth),
            dt,
            worth,
        )
    }
}

/// The assignments that the equations of a time step are written as do to
/// the state what the equations say, in the order in which they are
/// declared.
pub proof fn lemma_assignments_run_as_equations(
    tokens: Seq<TokenView>,
    from: int,
    equations: Seq<EquationView>,
    at: int,
    state: State,
    dt: int,
    worth: Worth,
)
    requires
        0 <= at <= equations.len(),
        0 <= from <= tokens.len(),
        tokens.subrange(from, tokens.len() as int) == each::<Equation>(equations, at, None),
    ensures
        run(tokens, from, state, dt, worth) == Some(stepped(equations, at, state, dt, worth)),
    decreases equations.len() - at,
{
    let len = tokens.len() as int;
    let rest = tokens.subrange(from, len);
    if at < equations.len() {
        let equation = equations[at];
        let piece = assignment(equation);
        let more = each::<Equation>(equations, at + 1, None);
        assert(rest =~= piece + more);
        assert forall|i: int| 0 <= i < piece.len() implies tokens[from + i] == piece[i] by {
            assert(rest[i] == tokens[from + i]);
        }
        assert(tokens.subrange(from + piece.len(), len) =~= more) by {
            assert forall|i: int| 0 <= i < more.len() implies tokens.subrange(
                from + piece.len(),
                len,
            )[i] == more[i] by {
                assert(rest[piece.len() + i] == tokens[from + piece.len() + i]);
            }
        }
        match equation.left_side {
            IdentOrDerivativeView::Ident(_) => {
                assert(piece.len() == 6);
                assert(tokens[from] == piece[0]);
                assert(tokens[from + 1] == piece[1]);
                assert(tokens[from + 2] == piece[2]);
                assert(tokens[from + 3] == piece[3]);
                assert(tokens[from + 4] == piece[4]);
                assert(tokens[from + 5] == piece[5]);
            },
            IdentOrDerivativeView::Derivative(_) => {
                assert(piece.len() == 12);
                assert(tokens[from] == piece[0]);
                assert(tokens[from + 1] == piece[1]);
                assert(tokens[from + 2] == piece[2]);
                assert(tokens[from + 3] == piece[3]);
                assert(tokens[from + 4] == piece[4]);
                assert(tokens[from + 5] == piece[5]);
                assert(tokens[from + 6] == piece[6]);
                assert(tokens[from + 7] == piece[7]);
                assert(tokens[from + 8] == piece[8]);
                assert(tokens[from + 9] == piece[9]);
                assert(tokens[from + 10] == piece[10]);
                assert(tokens[from + 11] == piece[11]);
            },
        }
        assert(assigned(tokens, from, state, dt, worth) == Some(
            (applied(equation, state, dt, worth), from + piece.len()),
        ));
        lemma_assignments_run_as_equations(
            tokens,
            from + piece.len(),
            equations,
            at + 1,
            applied(equation, state, dt, worth),
            dt,
            worth,
        );
    } else {
        assert(rest.len() == 0);
    }
}

/// Of two equations, the second reads what the first has written: where its
/// right side refers to the state that the first is about, it is worth what
/// it is worth with that state updated, not with the state from before the
/// step.
pub proof fn lemma_second_equation_reads_first(
    first: EquationView,
    second: EquationView,
    state: State,
    dt: int,
    worth: Worth,
)
    ensures
        run(each::<Equation>(seq![first, second], 0, None), 0, state, dt, worth) == Some(
            applied(second, applied(first, state, dt, worth), dt, worth),
        ),
        applied(first, state, dt, worth)[first.left_side.name()] == match first.left_side {
            IdentOrDerivativeView::Ident(_) => worth(first.right_side, state),
            IdentOrDerivativeView::Derivative(_) => worth(first.right_side, state) * dt
                + state[first.left_side.name()],
        },
        applied(second, applied(first, state, dt, worth), dt, worth)[second.left_side.name()]
            == match second.left_side {
            IdentOrDerivativeView::Ident(_) => worth(
                second.right_side,
                applied(first, state, dt, worth),
            ),
            IdentOrDerivativeView::Derivative(_) => worth(
                second.right_side,
                applied(first, state, dt, worth),
            ) * dt + applied(first, state, dt, worth)[second.left_side.name()],
        },
{
    let equations = seq![first, second];
    let tokens = each::<Equation>(equations, 0, None);
    assert(tokens.subrange(0, tokens.len() as int) =~= tokens);
    lemma_assignments_run_as_equations(tokens, 0, equations, 0, state, dt, worth);
    reveal_with_fuel(stepped, 3);
}

/// A derivative equation whose right side is worth `k` in every state moves
/// its state by `k * dt` with every step, from where the step before has
/// left it: after `steps` steps the state has grown by `steps * k * dt`.
pub proof fn lemma_derivative_accumulates(
    equation: EquationView,
    steps: nat,
    state: State,
    dt: int,
    worth: Worth,
    k: int,
)
    requires
        equation.left_side is Derivative,
        state.dom().contains(equation.left_side.name()),
        forall|any: State| #[trigger] worth(equation.right_side, any) == k,
    ensures
        stepped_times(seq![equation], steps, state, dt, worth)[equation.left_side.name()]
            == state[equation.left_side.name()] + steps * (k * dt),
    decreases steps,
{
    let name = equation.left_side.name();
    let rate = k * dt;
    if steps > 0 {
        let after = stepped(seq![equation], 0, state, dt, worth);
        reveal_with_fuel(stepped, 2);
        assert(after == applied(equation, state, dt, worth));
        assert(after[name] == rate + state[name]);
        lemma_derivative_accumulates(equation, (steps - 1) as nat, after, dt, worth, k);
        assert(steps * rate == rate + (steps - 1) * rate) by (nonlinear_arith);
    } else {
        assert(steps * rate == 0) by (nonlinear_arith)
            requires
                steps == 0,
        ;
    }
}

} // verus!

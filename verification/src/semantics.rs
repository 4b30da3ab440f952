//! The definitional semantics of the language: a specification-level
//! interpreter over term views and an explicit evaluation state.  The
//! executable evaluator is proved to follow these functions exactly.
//!
//! Evaluation is total over a fuel bound: the source language permits
//! unbounded recursion (through variables and calls), a fatal
//! resource-exhaustion failure outside the language's own error model.
//! Here that failure mode is the explicit `OutOfFuel` outcome; every
//! in-language failure is an `Error` term.

use vstd::prelude::*;
use vstd::wrapping::i32_specs;

use crate::ast::BinaryOp;
use crate::ast::LocV;
use crate::ast::TermV;
use crate::ast::VarV;
use crate::ast::loc_of;
use crate::env::FrameV;
use crate::env::env_lookup;
use crate::env::frame_set;
use crate::text::bool_str;
use crate::text::dec_str;
use crate::text::int_str;

verus! {

/// The whole evaluation state: the frame arena and the lines written to
/// the output sink so far.
pub struct StateV {
    pub frames: Seq<FrameV>,
    pub output: Seq<Seq<char>>,
}

/// What one evaluation yields: a final state and a result term, or fuel
/// exhaustion.
pub enum Outcome {
    Done { post: StateV, result: TermV },
    OutOfFuel,
}

/// What binding a list of arguments yields.
pub enum BindOutcome {
    Done { post: StateV },
    OutOfFuel,
}

/// A fully reduced term: a literal, a function, an error, or a tuple of
/// fully reduced terms.
pub open spec fn is_value(t: TermV) -> bool
    decreases t,
{
    match t {
        TermV::Int { .. } => true,
        TermV::Str { .. } => true,
        TermV::Bool { .. } => true,
        TermV::Error { .. } => true,
        TermV::Function { .. } => true,
        TermV::Tuple { first, second, .. } => is_value(*first) && is_value(*second),
        _ => false,
    }
}

/// The name that `Let` never stores.
pub open spec fn discard_name() -> Seq<char> {
    "_"@
}

pub open spec fn msg_unexpected_term() -> Seq<char> {
    "Unexpected term"@
}

pub open spec fn msg_undefined_variable() -> Seq<char> {
    "Undefined variable"@
}

pub open spec fn msg_arity_mismatch() -> Seq<char> {
    "Argument count mismatch"@
}

pub open spec fn msg_left_operand() -> Seq<char> {
    "Unexpected left operand"@
}

pub open spec fn msg_right_operand() -> Seq<char> {
    "Unexpected right operand"@
}

pub open spec fn msg_division_by_zero() -> Seq<char> {
    "Division by zero"@
}

pub open spec fn txt_expected_bool() -> Seq<char> {
    "Expected condition of type \"Bool\""@
}

pub open spec fn txt_expected_function() -> Seq<char> {
    "Expected function body or reference"@
}

pub open spec fn txt_not_first_class() -> Seq<char> {
    "The term is not a first class value"@
}

pub open spec fn txt_first_expects_tuple() -> Seq<char> {
    "The first function expects a tuple"@
}

pub open spec fn txt_second_expects_tuple() -> Seq<char> {
    "The second function expects a tuple"@
}

pub open spec fn txt_expected_int_operand() -> Seq<char> {
    "Expected operand of type \"Int\""@
}

pub open spec fn txt_expected_bool_operand() -> Seq<char> {
    "Expected operand of type \"Bool\""@
}

pub open spec fn txt_division_by_zero() -> Seq<char> {
    "The divisor is zero"@
}

/// Detail text of an undefined-variable error.
pub open spec fn txt_undefined_variable(name: Seq<char>) -> Seq<char> {
    "Undefined variable \""@ + name + "\""@
}

/// Detail text of an arity error: both counts are stated.
pub open spec fn txt_arity_mismatch(expected: nat, found: nat) -> Seq<char> {
    "Expected "@ + dec_str(expected) + " arguments, found "@ + dec_str(found)
}

/// The error constructor: rewrites a non-error term into an error carrying
/// the term's own location; an error passes through unchanged.
pub open spec fn wrap_err(t: TermV, message: Seq<char>, full_text: Seq<char>) -> TermV {
    match t {
        TermV::Error { .. } => t,
        _ => TermV::Error { message, full_text, location: loc_of(t) },
    }
}

/// The line `print` writes for a printable value (an error or a tuple is
/// not printable).
pub open spec fn print_line(t: TermV) -> Seq<char> {
    match t {
        TermV::Int { value, .. } => int_str(value),
        TermV::Str { value, .. } => value,
        TermV::Bool { value, .. } => bool_str(value),
        _ => "<function>"@,
    }
}

/// Stores `value` under `name` in frame `env` alone, first write wins.
pub open spec fn set_in_frame(frames: Seq<FrameV>, env: int, name: Seq<char>, value: TermV) -> Seq<
    FrameV,
> {
    if 0 <= env < frames.len() {
        frames.update(
            env,
            FrameV { parent: frames[env].parent, vars: frame_set(frames[env].vars, name, value) },
        )
    } else {
        frames
    }
}

/// Whether the operator compares its operands for whole-value equality
/// (then any pair of evaluated terms is accepted).
pub open spec fn op_is_equality(op: BinaryOp) -> bool {
    op == BinaryOp::Eq || op == BinaryOp::Neq
}

/// Whether the operator consumes booleans; the remaining typed operators
/// consume integers.
pub open spec fn op_takes_bool(op: BinaryOp) -> bool {
    op == BinaryOp::And || op == BinaryOp::Or
}

/// Whether an evaluated operand has the kind the typed operator expects.
pub open spec fn operand_ok(op: BinaryOp, t: TermV) -> bool {
    if op_takes_bool(op) {
        t is Bool
    } else {
        t is Int
    }
}

/// The detail text of an operand-kind error names the expected kind.
pub open spec fn txt_operand(op: BinaryOp) -> Seq<char> {
    if op_takes_bool(op) {
        txt_expected_bool_operand()
    } else {
        txt_expected_int_operand()
    }
}

/// The integer carried by an `Int` term.
pub open spec fn int_of(t: TermV) -> i32
    recommends
        t is Int,
{
    match t {
        TermV::Int { value, .. } => value,
        _ => 0,
    }
}

/// The boolean carried by a `Bool` term.
pub open spec fn bool_of(t: TermV) -> bool
    recommends
        t is Bool,
{
    match t {
        TermV::Bool { value, .. } => value,
        _ => false,
    }
}

/// Division with truncation toward zero, as the host's `/` computes it.
pub open spec fn trunc_div(a: int, b: int) -> int {
    if a == 0 {
        0
    } else if a > 0 && b > 0 {
        a / b
    } else if a < 0 && b < 0 {
        (a * -1) / (b * -1)
    } else if a < 0 {
        ((a * -1) / b) * -1
    } else {
        (a / (b * -1)) * -1
    }
}

/// Remainder with the sign of the dividend, as the host's `%` computes it.
pub open spec fn trunc_rem(a: int, b: int) -> int {
    if a == 0 {
        0
    } else if a > 0 && b > 0 {
        a % b
    } else if a < 0 && b < 0 {
        ((a * -1) % (b * -1)) * -1
    } else if a < 0 {
        ((a * -1) % b) * -1
    } else {
        a % (b * -1)
    }
}

/// 32-bit wrapping division: the quotient cropped into 32 bits, so the
/// one overflowing case wraps back to the minimum.
pub open spec fn wrap_div(a: i32, b: i32) -> i32
    recommends
        b != 0,
{
    i32_specs::signed_crop(trunc_div(a as int, b as int))
}

/// 32-bit wrapping remainder: the remainder cropped into 32 bits (it
/// always already fits).
pub open spec fn wrap_rem(a: i32, b: i32) -> i32
    recommends
        b != 0,
{
    i32_specs::signed_crop(trunc_rem(a as int, b as int))
}

/// The result of a typed binary operator on operands of the accepted
/// kinds.  Arithmetic wraps; a zero divisor yields a division-by-zero
/// error located at the operation.
pub open spec fn typed_binary_result(op: BinaryOp, lv: TermV, rv: TermV, location: LocV) -> TermV {
    match op {
        BinaryOp::Add => TermV::Int {
            value: i32_specs::wrapping_add(int_of(lv), int_of(rv)),
            location,
        },
        BinaryOp::Sub => TermV::Int {
            value: i32_specs::wrapping_sub(int_of(lv), int_of(rv)),
            location,
        },
        BinaryOp::Mul => TermV::Int {
            value: i32_specs::wrapping_mul(int_of(lv), int_of(rv)),
            location,
        },
        BinaryOp::Div => if int_of(rv) == 0 {
            TermV::Error {
                message: msg_division_by_zero(),
                full_text: txt_division_by_zero(),
                location,
            }
        } else {
            TermV::Int { value: wrap_div(int_of(lv), int_of(rv)), location }
        },
        BinaryOp::Rem => if int_of(rv) == 0 {
            TermV::Error {
                message: msg_division_by_zero(),
                full_text: txt_division_by_zero(),
                location,
            }
        } else {
            TermV::Int { value: wrap_rem(int_of(lv), int_of(rv)), location }
        },
        BinaryOp::Lt => TermV::Bool { value: int_of(lv) < int_of(rv), location },
        BinaryOp::Gt => TermV::Bool { value: int_of(lv) > int_of(rv), location },
        BinaryOp::Lte => TermV::Bool { value: int_of(lv) <= int_of(rv), location },
        BinaryOp::Gte => TermV::Bool { value: int_of(lv) >= int_of(rv), location },
        BinaryOp::And => TermV::Bool { value: bool_of(lv) && bool_of(rv), location },
        BinaryOp::Or => TermV::Bool { value: bool_of(lv) || bool_of(rv), location },
        BinaryOp::Eq => TermV::Bool { value: lv == rv, location },
        BinaryOp::Neq => TermV::Bool { value: lv != rv, location },
    }
}

/// One evaluation step tree: reduces `term` in frame `env` of state `st`.
///
/// Fuel is spent where recursion is unbounded: re-evaluating
/// a term looked up through a variable, evaluating a call body, and
/// re-evaluating a projected tuple component.  Everything else recurses
/// structurally.
pub open spec fn eval_spec(st: StateV, env: int, term: TermV, fuel: nat) -> Outcome
    decreases fuel, term,
{
    match term {
        TermV::Error { .. } => Outcome::Done { post: st, result: term },
        TermV::Int { .. } => Outcome::Done { post: st, result: term },
        TermV::Str { .. } => Outcome::Done { post: st, result: term },
        TermV::Bool { .. } => Outcome::Done { post: st, result: term },
        TermV::Function { .. } => Outcome::Done { post: st, result: term },
        TermV::Var { text, location } => match env_lookup(st.frames, env, text) {
            Some(stored) => if fuel == 0 {
                Outcome::OutOfFuel
            } else {
                eval_spec(st, env, stored, (fuel - 1) as nat)
            },
            None => Outcome::Done {
                post: st,
                result: TermV::Error {
                    message: msg_undefined_variable(),
                    full_text: txt_undefined_variable(text),
                    location,
                },
            },
        },
        TermV::Let { name, value, next, .. } => match eval_spec(st, env, *value, fuel) {
            Outcome::OutOfFuel => Outcome::OutOfFuel,
            Outcome::Done { post, result } => {
                let post2 = if name.text == discard_name() {
                    post
                } else {
                    StateV {
                        frames: set_in_frame(post.frames, env, name.text, result),
                        output: post.output,
                    }
                };
                eval_spec(post2, env, *next, fuel)
            },
        },
        TermV::If { condition, then_branch, otherwise, .. } => match eval_spec(
            st,
            env,
            *condition,
            fuel,
        ) {
            Outcome::OutOfFuel => Outcome::OutOfFuel,
            Outcome::Done { post, result } => match result {
                TermV::Bool { value, .. } => if value {
                    eval_spec(post, env, *then_branch, fuel)
                } else {
                    eval_spec(post, env, *otherwise, fuel)
                },
                _ => Outcome::Done {
                    post,
                    result: wrap_err(result, msg_unexpected_term(), txt_expected_bool()),
                },
            },
        },
        TermV::Call { callee, arguments, location } => match eval_spec(st, env, *callee, fuel) {
            Outcome::OutOfFuel => Outcome::OutOfFuel,
            Outcome::Done { post, result } => match result {
                TermV::Function { parameters, body, .. } => {
                    if parameters.len() != arguments.len() {
                        Outcome::Done {
                            post,
                            result: TermV::Error {
                                message: msg_arity_mismatch(),
                                full_text: txt_arity_mismatch(parameters.len(), arguments.len()),
                                location,
                            },
                        }
                    } else {
                        let child = post.frames.len() as int;
                        let entered = StateV {
                            frames: post.frames.push(
                                FrameV { parent: Some(env), vars: Seq::<crate::env::BindingV>::empty() },
                            ),
                            output: post.output,
                        };
                        match bind_args_spec(entered, child, arguments, parameters, fuel) {
                            BindOutcome::OutOfFuel => Outcome::OutOfFuel,
                            BindOutcome::Done { post: bound } => if fuel == 0 {
                                Outcome::OutOfFuel
                            } else {
                                eval_spec(bound, child, *body, (fuel - 1) as nat)
                            },
                        }
                    }
                },
                _ => Outcome::Done {
                    post,
                    result: wrap_err(result, msg_unexpected_term(), txt_expected_function()),
                },
            },
        },
        TermV::Binary { lhs, op, rhs, location } => {
            if op_is_equality(op) {
                match eval_spec(st, env, *lhs, fuel) {
                    Outcome::OutOfFuel => Outcome::OutOfFuel,
                    Outcome::Done { post, result: lv } => match eval_spec(post, env, *rhs, fuel) {
                        Outcome::OutOfFuel => Outcome::OutOfFuel,
                        Outcome::Done { post: post2, result: rv } => Outcome::Done {
                            post: post2,
                            result: TermV::Bool {
                                value: if op == BinaryOp::Eq {
                                    lv == rv
                                } else {
                                    lv != rv
                                },
                                location,
                            },
                        },
                    },
                }
            } else {
                match eval_spec(st, env, *lhs, fuel) {
                    Outcome::OutOfFuel => Outcome::OutOfFuel,
                    Outcome::Done { post, result: lv } => {
                        if lv is Error {
                            Outcome::Done { post, result: lv }
                        } else if !operand_ok(op, lv) {
                            Outcome::Done {
                                post,
                                result: wrap_err(lv, msg_left_operand(), txt_operand(op)),
                            }
                        } else {
                            match eval_spec(post, env, *rhs, fuel) {
                                Outcome::OutOfFuel => Outcome::OutOfFuel,
                                Outcome::Done { post: post2, result: rv } => {
                                    if rv is Error {
                                        Outcome::Done { post: post2, result: rv }
                                    } else if !operand_ok(op, rv) {
                                        Outcome::Done {
                                            post: post2,
                                            result: wrap_err(
                                                rv,
                                                msg_right_operand(),
                                                txt_operand(op),
                                            ),
                                        }
                                    } else {
                                        Outcome::Done {
                                            post: post2,
                                            result: typed_binary_result(op, lv, rv, location),
                                        }
                                    }
                                },
                            }
                        }
                    },
                }
            }
        },
        TermV::Print { value, .. } => match eval_spec(st, env, *value, fuel) {
            Outcome::OutOfFuel => Outcome::OutOfFuel,
            Outcome::Done { post, result } => match result {
                TermV::Error { .. } => Outcome::Done { post, result },
                TermV::Int { .. } => Outcome::Done {
                    post: StateV { frames: post.frames, output: post.output.push(print_line(result)) },
                    result,
                },
                TermV::Str { .. } => Outcome::Done {
                    post: StateV { frames: post.frames, output: post.output.push(print_line(result)) },
                    result,
                },
                TermV::Bool { .. } => Outcome::Done {
                    post: StateV { frames: post.frames, output: post.output.push(print_line(result)) },
                    result,
                },
                TermV::Function { .. } => Outcome::Done {
                    post: StateV { frames: post.frames, output: post.output.push(print_line(result)) },
                    result,
                },
                _ => Outcome::Done {
                    post,
                    result: wrap_err(result, msg_unexpected_term(), txt_not_first_class()),
                },
            },
        },
        TermV::First { value, .. } => match eval_spec(st, env, *value, fuel) {
            Outcome::OutOfFuel => Outcome::OutOfFuel,
            Outcome::Done { post, result } => match result {
                TermV::Tuple { first, .. } => if fuel == 0 {
                    Outcome::OutOfFuel
                } else {
                    eval_spec(post, env, *first, (fuel - 1) as nat)
                },
                _ => Outcome::Done {
                    post,
                    result: wrap_err(result, msg_unexpected_term(), txt_first_expects_tuple()),
                },
            },
        },
        TermV::Second { value, .. } => match eval_spec(st, env, *value, fuel) {
            Outcome::OutOfFuel => Outcome::OutOfFuel,
            Outcome::Done { post, result } => match result {
                TermV::Tuple { second, .. } => if fuel == 0 {
                    Outcome::OutOfFuel
                } else {
                    eval_spec(post, env, *second, (fuel - 1) as nat)
                },
                _ => Outcome::Done {
                    post,
                    result: wrap_err(result, msg_unexpected_term(), txt_second_expects_tuple()),
                },
            },
        },
        TermV::Tuple { first, second, location } => match eval_spec(st, env, *first, fuel) {
            Outcome::OutOfFuel => Outcome::OutOfFuel,
            Outcome::Done { post, result: car } => match eval_spec(post, env, *second, fuel) {
                Outcome::OutOfFuel => Outcome::OutOfFuel,
                Outcome::Done { post: post2, result: cdr } => Outcome::Done {
                    post: post2,
                    result: TermV::Tuple {
                        first: Box::new(car),
                        second: Box::new(cdr),
                        location,
                    },
                },
            },
        },
    }
}

/// Binds the arguments of a call: each argument is evaluated in the new
/// child frame, in order, and the result is stored there under the
/// matching parameter name before the next argument is evaluated.
pub open spec fn bind_args_spec(
    st: StateV,
    child: int,
    args: Seq<TermV>,
    params: Seq<VarV>,
    fuel: nat,
) -> BindOutcome
    decreases fuel, args,
{
    if args.len() == 0 {
        BindOutcome::Done { post: st }
    } else {
        match eval_spec(st, child, args[0], fuel) {
            Outcome::OutOfFuel => BindOutcome::OutOfFuel,
            Outcome::Done { post, result } => {
                let post2 = StateV {
                    frames: set_in_frame(post.frames, child, params[0].text, result),
                    output: post.output,
                };
                bind_args_spec(post2, child, args.drop_first(), params.drop_first(), fuel)
            },
        }
    }
}

} // verus!

//! Proved general properties of the semantics: preservation of
//! environment well-formedness, that evaluation only ever produces fully
//! reduced terms, and that evaluation is the identity on fully reduced
//! terms.

use vstd::prelude::*;
use vstd::wrapping::i32_specs;

use crate::ast::BinaryOp;
use crate::ast::LocV;
use crate::ast::TermV;
use crate::ast::VarV;
use crate::env::BindingV;
use crate::env::FrameV;
use crate::env::env_wf;
use crate::env::frame_has;
use crate::env::frame_lookup;
use crate::env::frame_set;
use crate::semantics::BindOutcome;
use crate::semantics::Outcome;
use crate::semantics::StateV;
use crate::semantics::bind_args_spec;
use crate::semantics::discard_name;
use crate::semantics::eval_spec;
use crate::semantics::msg_arity_mismatch;
use crate::semantics::msg_undefined_variable;
use crate::semantics::txt_arity_mismatch;
use crate::semantics::txt_undefined_variable;
use crate::semantics::is_value;
use crate::semantics::op_is_equality;
use crate::semantics::print_line;
use crate::semantics::operand_ok;
use crate::semantics::set_in_frame;
use crate::semantics::typed_binary_result;

verus! {

/// Storing a binding keeps the arena's length and its well-formedness.
pub proof fn lemma_set_in_frame_wf(frames: Seq<FrameV>, env: int, name: Seq<char>, value: TermV)
    ensures
        set_in_frame(frames, env, name, value).len() == frames.len(),
        env_wf(frames) ==> env_wf(set_in_frame(frames, env, name, value)),
{
    let after = set_in_frame(frames, env, name, value);
    if env_wf(frames) {
        assert forall|i: int| 0 <= i < after.len() implies match #[trigger] after[i].parent {
            Some(p) => 0 <= p < i,
            None => true,
        } by {
            assert(after[i].parent == frames[i].parent);
        }
    }
}

/// Opening a child frame whose parent is a live frame keeps the arena
/// well-formed.
pub proof fn lemma_push_frame_wf(frames: Seq<FrameV>, parent: int)
    requires
        env_wf(frames),
        0 <= parent < frames.len(),
    ensures
        env_wf(frames.push(FrameV { parent: Some(parent), vars: Seq::<crate::env::BindingV>::empty() })),
{
    let after = frames.push(
        FrameV { parent: Some(parent), vars: Seq::<crate::env::BindingV>::empty() },
    );
    assert forall|i: int| 0 <= i < after.len() implies match #[trigger] after[i].parent {
        Some(p) => 0 <= p < i,
        None => true,
    } by {
        if i < frames.len() {
            assert(after[i] == frames[i]);
        }
    }
}

/// Evaluation preserves the environment's well-formedness, never forgets
/// a frame, and every completed result is a fully reduced term.
pub proof fn lemma_eval_preserves(st: StateV, env: int, term: TermV, fuel: nat)
    requires
        env_wf(st.frames),
        0 <= env < st.frames.len(),
    ensures
        match eval_spec(st, env, term, fuel) {
            Outcome::Done { post, result } => env_wf(post.frames) && st.frames.len()
                <= post.frames.len() && is_value(result),
            Outcome::OutOfFuel => true,
        },
    decreases fuel, term,
{
    match term {
        TermV::Error { .. } => {},
        TermV::Int { .. } => {},
        TermV::Str { .. } => {},
        TermV::Bool { .. } => {},
        TermV::Function { .. } => {},
        TermV::Var { text, .. } => {
            match crate::env::env_lookup(st.frames, env, text) {
                Some(stored) => {
                    if fuel > 0 {
                        lemma_eval_preserves(st, env, stored, (fuel - 1) as nat);
                    }
                },
                None => {},
            }
        },
        TermV::Let { name, value, next, .. } => {
            lemma_eval_preserves(st, env, *value, fuel);
            match eval_spec(st, env, *value, fuel) {
                Outcome::Done { post, result } => {
                    if name.text == discard_name() {
                        lemma_eval_preserves(post, env, *next, fuel);
                    } else {
                        lemma_set_in_frame_wf(post.frames, env, name.text, result);
                        let post2 = StateV {
                            frames: set_in_frame(post.frames, env, name.text, result),
                            output: post.output,
                        };
                        lemma_eval_preserves(post2, env, *next, fuel);
                    }
                },
                Outcome::OutOfFuel => {},
            }
        },
        TermV::If { condition, then_branch, otherwise, .. } => {
            lemma_eval_preserves(st, env, *condition, fuel);
            match eval_spec(st, env, *condition, fuel) {
                Outcome::Done { post, result } => {
                    match result {
                        TermV::Bool { value, .. } => {
                            if value {
                                lemma_eval_preserves(post, env, *then_branch, fuel);
                            } else {
                                lemma_eval_preserves(post, env, *otherwise, fuel);
                            }
                        },
                        _ => {},
                    }
                },
                Outcome::OutOfFuel => {},
            }
        },
        TermV::Call { callee, arguments, .. } => {
            lemma_eval_preserves(st, env, *callee, fuel);
            match eval_spec(st, env, *callee, fuel) {
                Outcome::Done { post, result } => {
                    match result {
                        TermV::Function { parameters, body, .. } => {
                            if parameters.len() == arguments.len() {
                                let child = post.frames.len() as int;
                                lemma_push_frame_wf(post.frames, env);
                                let entered = StateV {
                                    frames: post.frames.push(
                                        FrameV {
                                            parent: Some(env),
                                            vars: Seq::<crate::env::BindingV>::empty(),
                                        },
                                    ),
                                    output: post.output,
                                };
                                lemma_bind_preserves(entered, child, arguments, parameters, fuel);
                                match bind_args_spec(entered, child, arguments, parameters, fuel) {
                                    BindOutcome::Done { post: bound } => {
                                        if fuel > 0 {
                                            lemma_eval_preserves(
                                                bound,
                                                child,
                                                *body,
                                                (fuel - 1) as nat,
                                            );
                                        }
                                    },
                                    BindOutcome::OutOfFuel => {},
                                }
                            }
                        },
                        _ => {},
                    }
                },
                Outcome::OutOfFuel => {},
            }
        },
        TermV::Binary { lhs, op, rhs, .. } => {
            lemma_eval_preserves(st, env, *lhs, fuel);
            match eval_spec(st, env, *lhs, fuel) {
                Outcome::Done { post, result: lv } => {
                    if op_is_equality(op) {
                        lemma_eval_preserves(post, env, *rhs, fuel);
                    } else {
                        if !(lv is Error) && operand_ok(op, lv) {
                            lemma_eval_preserves(post, env, *rhs, fuel);
                        }
                    }
                },
                Outcome::OutOfFuel => {},
            }
        },
        TermV::Print { value, .. } => {
            lemma_eval_preserves(st, env, *value, fuel);
        },
        TermV::First { value, .. } => {
            lemma_eval_preserves(st, env, *value, fuel);
            match eval_spec(st, env, *value, fuel) {
                Outcome::Done { post, result } => {
                    match result {
                        TermV::Tuple { first, .. } => {
                            if fuel > 0 {
                                lemma_eval_preserves(post, env, *first, (fuel - 1) as nat);
                            }
                        },
                        _ => {},
                    }
                },
                Outcome::OutOfFuel => {},
            }
        },
        TermV::Second { value, .. } => {
            lemma_eval_preserves(st, env, *value, fuel);
            match eval_spec(st, env, *value, fuel) {
                Outcome::Done { post, result } => {
                    match result {
                        TermV::Tuple { second, .. } => {
                            if fuel > 0 {
                                lemma_eval_preserves(post, env, *second, (fuel - 1) as nat);
                            }
                        },
                        _ => {},
                    }
                },
                Outcome::OutOfFuel => {},
            }
        },
        TermV::Tuple { first, second, .. } => {
            lemma_eval_preserves(st, env, *first, fuel);
            match eval_spec(st, env, *first, fuel) {
                Outcome::Done { post, .. } => {
                    lemma_eval_preserves(post, env, *second, fuel);
                },
                Outcome::OutOfFuel => {},
            }
        },
    }
}

/// Binding a list of arguments preserves the environment's
/// well-formedness and never forgets a frame.
pub proof fn lemma_bind_preserves(
    st: StateV,
    child: int,
    args: Seq<TermV>,
    params: Seq<VarV>,
    fuel: nat,
)
    requires
        env_wf(st.frames),
        0 <= child < st.frames.len(),
    ensures
        match bind_args_spec(st, child, args, params, fuel) {
            BindOutcome::Done { post } => env_wf(post.frames) && st.frames.len()
                <= post.frames.len(),
            BindOutcome::OutOfFuel => true,
        },
    decreases fuel, args,
{
    if args.len() > 0 {
        lemma_eval_preserves(st, child, args[0], fuel);
        match eval_spec(st, child, args[0], fuel) {
            Outcome::Done { post, result } => {
                lemma_set_in_frame_wf(post.frames, child, params[0].text, result);
                let post2 = StateV {
                    frames: set_in_frame(post.frames, child, params[0].text, result),
                    output: post.output,
                };
                lemma_bind_preserves(post2, child, args.drop_first(), params.drop_first(), fuel);
            },
            Outcome::OutOfFuel => {},
        }
    }
}

/// Every completed evaluation yields a fully reduced term, whatever the
/// starting state.
pub proof fn lemma_eval_is_value(st: StateV, env: int, term: TermV, fuel: nat)
    ensures
        match eval_spec(st, env, term, fuel) {
            Outcome::Done { result, .. } => is_value(result),
            Outcome::OutOfFuel => true,
        },
    decreases fuel, term,
{
    match term {
        TermV::Error { .. } => {},
        TermV::Int { .. } => {},
        TermV::Str { .. } => {},
        TermV::Bool { .. } => {},
        TermV::Function { .. } => {},
        TermV::Var { text, .. } => {
            match crate::env::env_lookup(st.frames, env, text) {
                Some(stored) => {
                    if fuel > 0 {
                        lemma_eval_is_value(st, env, stored, (fuel - 1) as nat);
                    }
                },
                None => {},
            }
        },
        TermV::Let { name, value, next, .. } => {
            match eval_spec(st, env, *value, fuel) {
                Outcome::Done { post, result } => {
                    if name.text == discard_name() {
                        lemma_eval_is_value(post, env, *next, fuel);
                    } else {
                        let post2 = StateV {
                            frames: set_in_frame(post.frames, env, name.text, result),
                            output: post.output,
                        };
                        lemma_eval_is_value(post2, env, *next, fuel);
                    }
                },
                Outcome::OutOfFuel => {},
            }
        },
        TermV::If { condition, then_branch, otherwise, .. } => {
            match eval_spec(st, env, *condition, fuel) {
                Outcome::Done { post, result } => {
                    match result {
                        TermV::Bool { value, .. } => {
                            if value {
                                lemma_eval_is_value(post, env, *then_branch, fuel);
                            } else {
                                lemma_eval_is_value(post, env, *otherwise, fuel);
                            }
                        },
                        _ => {},
                    }
                },
                Outcome::OutOfFuel => {},
            }
        },
        TermV::Call { callee, arguments, .. } => {
            match eval_spec(st, env, *callee, fuel) {
                Outcome::Done { post, result } => {
                    match result {
                        TermV::Function { parameters, body, .. } => {
                            if parameters.len() == arguments.len() {
                                let child = post.frames.len() as int;
                                let entered = StateV {
                                    frames: post.frames.push(
                                        FrameV {
                                            parent: Some(env),
                                            vars: Seq::<crate::env::BindingV>::empty(),
                                        },
                                    ),
                                    output: post.output,
                                };
                                match bind_args_spec(entered, child, arguments, parameters, fuel) {
                                    BindOutcome::Done { post: bound } => {
                                        if fuel > 0 {
                                            lemma_eval_is_value(
                                                bound,
                                                child,
                                                *body,
                                                (fuel - 1) as nat,
                                            );
                                        }
                                    },
                                    BindOutcome::OutOfFuel => {},
                                }
                            }
                        },
                        _ => {},
                    }
                },
                Outcome::OutOfFuel => {},
            }
        },
        TermV::Binary { .. } => {},
        TermV::Print { .. } => {},
        TermV::First { value, .. } => {
            match eval_spec(st, env, *value, fuel) {
                Outcome::Done { post, result } => {
                    match result {
                        TermV::Tuple { first, .. } => {
                            if fuel > 0 {
                                lemma_eval_is_value(post, env, *first, (fuel - 1) as nat);
                            }
                        },
                        _ => {},
                    }
                },
                Outcome::OutOfFuel => {},
            }
        },
        TermV::Second { value, .. } => {
            match eval_spec(st, env, *value, fuel) {
                Outcome::Done { post, result } => {
                    match result {
                        TermV::Tuple { second, .. } => {
                            if fuel > 0 {
                                lemma_eval_is_value(post, env, *second, (fuel - 1) as nat);
                            }
                        },
                        _ => {},
                    }
                },
                Outcome::OutOfFuel => {},
            }
        },
        TermV::Tuple { first, second, .. } => {
            lemma_eval_is_value(st, env, *first, fuel);
            match eval_spec(st, env, *first, fuel) {
                Outcome::Done { post, .. } => {
                    lemma_eval_is_value(post, env, *second, fuel);
                },
                Outcome::OutOfFuel => {},
            }
        },
    }
}

/// Evaluating a fully reduced term returns it unchanged and touches
/// nothing: evaluation is the identity on values.  This covers the
/// literals, functions and errors, and tuples of fully reduced terms.
pub proof fn lemma_eval_value_identity(st: StateV, env: int, v: TermV, fuel: nat)
    requires
        is_value(v),
    ensures
        eval_spec(st, env, v, fuel) == (Outcome::Done { post: st, result: v }),
    decreases v,
{
    match v {
        TermV::Tuple { first, second, .. } => {
            lemma_eval_value_identity(st, env, *first, fuel);
            lemma_eval_value_identity(st, env, *second, fuel);
        },
        _ => {},
    }
}

/// The typed arithmetic operators wrap silently on overflow: on two
/// integer literals, `Add`, `Sub` and `Mul` always complete in the
/// unchanged state with the 32-bit wrapped result.
pub proof fn lemma_arith_wraps(
    st: StateV,
    env: int,
    op: BinaryOp,
    a: i32,
    b: i32,
    la: LocV,
    lb: LocV,
    location: LocV,
    fuel: nat,
)
    requires
        op == BinaryOp::Add || op == BinaryOp::Sub || op == BinaryOp::Mul,
    ensures
        eval_spec(
            st,
            env,
            TermV::Binary {
                lhs: Box::new(TermV::Int { value: a, location: la }),
                op,
                rhs: Box::new(TermV::Int { value: b, location: lb }),
                location,
            },
            fuel,
        ) == (Outcome::Done {
            post: st,
            result: TermV::Int {
                value: if op == BinaryOp::Add {
                    i32_specs::wrapping_add(a, b)
                } else if op == BinaryOp::Sub {
                    i32_specs::wrapping_sub(a, b)
                } else {
                    i32_specs::wrapping_mul(a, b)
                },
                location,
            },
        }),
{
    reveal_with_fuel(eval_spec, 3);
    let lv = TermV::Int { value: a, location: la };
    let rv = TermV::Int { value: b, location: lb };
    assert(eval_spec(st, env, lv, fuel) == (Outcome::Done { post: st, result: lv }));
    assert(eval_spec(st, env, rv, fuel) == (Outcome::Done { post: st, result: rv }));
    if op == BinaryOp::Add {
        assert(typed_binary_result(op, lv, rv, location) == (TermV::Int {
            value: i32_specs::wrapping_add(a, b),
            location,
        }));
    } else if op == BinaryOp::Sub {
        assert(typed_binary_result(op, lv, rv, location) == (TermV::Int {
            value: i32_specs::wrapping_sub(a, b),
            location,
        }));
    } else {
        assert(typed_binary_result(op, lv, rv, location) == (TermV::Int {
            value: i32_specs::wrapping_mul(a, b),
            location,
        }));
    }
}

/// Projecting the first component: whenever the components evaluate (in
/// order, threading the state), `first` of their tuple yields exactly what
/// the first component evaluated to.
pub proof fn lemma_first_of_tuple(
    st: StateV,
    env: int,
    a: TermV,
    b: TermV,
    st1: StateV,
    va: TermV,
    st2: StateV,
    vb: TermV,
    tl: LocV,
    pl: LocV,
    fuel: nat,
)
    requires
        1 <= fuel,
        eval_spec(st, env, a, fuel) == (Outcome::Done { post: st1, result: va }),
        eval_spec(st1, env, b, fuel) == (Outcome::Done { post: st2, result: vb }),
    ensures
        eval_spec(
            st,
            env,
            TermV::First {
                value: Box::new(
                    TermV::Tuple { first: Box::new(a), second: Box::new(b), location: tl },
                ),
                location: pl,
            },
            fuel,
        ) == (Outcome::Done { post: st2, result: va }),
{
    reveal_with_fuel(eval_spec, 3);
    lemma_eval_is_value(st, env, a, fuel);
    lemma_eval_value_identity(st2, env, va, (fuel - 1) as nat);
}

/// Projecting the second component: whenever the components evaluate (in
/// order, threading the state), `second` of their tuple yields exactly
/// what the second component evaluated to.
pub proof fn lemma_second_of_tuple(
    st: StateV,
    env: int,
    a: TermV,
    b: TermV,
    st1: StateV,
    va: TermV,
    st2: StateV,
    vb: TermV,
    tl: LocV,
    pl: LocV,
    fuel: nat,
)
    requires
        1 <= fuel,
        eval_spec(st, env, a, fuel) == (Outcome::Done { post: st1, result: va }),
        eval_spec(st1, env, b, fuel) == (Outcome::Done { post: st2, result: vb }),
    ensures
        eval_spec(
            st,
            env,
            TermV::Second {
                value: Box::new(
                    TermV::Tuple { first: Box::new(a), second: Box::new(b), location: tl },
                ),
                location: pl,
            },
            fuel,
        ) == (Outcome::Done { post: st2, result: vb }),
{
    reveal_with_fuel(eval_spec, 3);
    lemma_eval_is_value(st1, env, b, fuel);
    lemma_eval_value_identity(st2, env, vb, (fuel - 1) as nat);
}

/// A call whose argument count differs from the function's parameter
/// count yields an arity error whose detail text states both counts, and
/// evaluates no argument.
pub proof fn lemma_arity_mismatch_reported(
    st: StateV,
    env: int,
    callee: TermV,
    arguments: Seq<TermV>,
    location: LocV,
    st1: StateV,
    parameters: Seq<VarV>,
    body: TermV,
    fl: LocV,
    fuel: nat,
)
    requires
        eval_spec(st, env, callee, fuel) == (Outcome::Done {
            post: st1,
            result: TermV::Function { parameters, body: Box::new(body), location: fl },
        }),
        parameters.len() != arguments.len(),
    ensures
        eval_spec(
            st,
            env,
            TermV::Call { callee: Box::new(callee), arguments, location },
            fuel,
        ) == (Outcome::Done {
            post: st1,
            result: TermV::Error {
                message: msg_arity_mismatch(),
                full_text: txt_arity_mismatch(parameters.len(), arguments.len()),
                location,
            },
        }),
{
}

/// A `let` of the discard identifier stores nothing: once the bound value
/// has been evaluated, the rest of the program runs in that state with no
/// binding added to any frame.
pub proof fn lemma_discard_binding(
    st: StateV,
    env: int,
    name: VarV,
    value: TermV,
    next: TermV,
    location: LocV,
    st1: StateV,
    v: TermV,
    fuel: nat,
)
    requires
        name.text == discard_name(),
        eval_spec(st, env, value, fuel) == (Outcome::Done { post: st1, result: v }),
    ensures
        eval_spec(
            st,
            env,
            TermV::Let { name, value: Box::new(value), next: Box::new(next), location },
            fuel,
        ) == eval_spec(st1, env, next, fuel),
{
}

/// Referencing a name that is bound nowhere in the chain yields an
/// undefined-variable error naming it.
pub proof fn lemma_unbound_variable(st: StateV, env: int, text: Seq<char>, location: LocV, fuel: nat)
    requires
        crate::env::env_lookup(st.frames, env, text) is None,
    ensures
        eval_spec(st, env, TermV::Var { text, location }, fuel) == (Outcome::Done {
            post: st,
            result: TermV::Error {
                message: msg_undefined_variable(),
                full_text: txt_undefined_variable(text),
                location,
            },
        }),
{
}

/// The first write to a name in a frame wins: storing under a name that
/// is already bound there changes nothing, so the earlier term keeps
/// answering lookups.
pub proof fn lemma_first_write_wins(vars: Seq<BindingV>, name: Seq<char>, value: TermV)
    requires
        frame_has(vars, name),
    ensures
        frame_set(vars, name, value) == vars,
        frame_lookup(frame_set(vars, name, value), name) == frame_lookup(vars, name),
{
}

/// No evaluation step writes outside the current frame: every frame that
/// already existed, other than the one evaluation runs in, is exactly the
/// same afterwards.  In particular no call's bindings ever overwrite an
/// ancestor frame's.
pub proof fn lemma_other_frames_untouched(st: StateV, env: int, term: TermV, fuel: nat)
    ensures
        match eval_spec(st, env, term, fuel) {
            Outcome::Done { post, .. } => st.frames.len() <= post.frames.len() && (forall|k: int|
                0 <= k < st.frames.len() && k != env ==> post.frames[k] == st.frames[k]),
            Outcome::OutOfFuel => true,
        },
    decreases fuel, term,
{
    match term {
        TermV::Error { .. } => {},
        TermV::Int { .. } => {},
        TermV::Str { .. } => {},
        TermV::Bool { .. } => {},
        TermV::Function { .. } => {},
        TermV::Var { text, .. } => {
            match crate::env::env_lookup(st.frames, env, text) {
                Some(stored) => {
                    if fuel > 0 {
                        lemma_other_frames_untouched(st, env, stored, (fuel - 1) as nat);
                    }
                },
                None => {},
            }
        },
        TermV::Let { name, value, next, .. } => {
            lemma_other_frames_untouched(st, env, *value, fuel);
            match eval_spec(st, env, *value, fuel) {
                Outcome::Done { post, result } => {
                    if name.text == discard_name() {
                        lemma_other_frames_untouched(post, env, *next, fuel);
                    } else {
                        let post2 = StateV {
                            frames: set_in_frame(post.frames, env, name.text, result),
                            output: post.output,
                        };
                        assert(forall|k: int|
                            0 <= k < post.frames.len() && k != env ==> post2.frames[k]
                                == post.frames[k]);
                        lemma_other_frames_untouched(post2, env, *next, fuel);
                    }
                },
                Outcome::OutOfFuel => {},
            }
        },
        TermV::If { condition, then_branch, otherwise, .. } => {
            lemma_other_frames_untouched(st, env, *condition, fuel);
            match eval_spec(st, env, *condition, fuel) {
                Outcome::Done { post, result } => {
                    match result {
                        TermV::Bool { value, .. } => {
                            if value {
                                lemma_other_frames_untouched(post, env, *then_branch, fuel);
                            } else {
                                lemma_other_frames_untouched(post, env, *otherwise, fuel);
                            }
                        },
                        _ => {},
                    }
                },
                Outcome::OutOfFuel => {},
            }
        },
        TermV::Call { callee, arguments, .. } => {
            lemma_other_frames_untouched(st, env, *callee, fuel);
            match eval_spec(st, env, *callee, fuel) {
                Outcome::Done { post, result } => {
                    match result {
                        TermV::Function { parameters, body, .. } => {
                            if parameters.len() == arguments.len() {
                                let child = post.frames.len() as int;
                                let entered = StateV {
                                    frames: post.frames.push(
                                        FrameV {
                                            parent: Some(env),
                                            vars: Seq::<crate::env::BindingV>::empty(),
                                        },
                                    ),
                                    output: post.output,
                                };
                                lemma_bind_other_frames_untouched(
                                    entered,
                                    child,
                                    arguments,
                                    parameters,
                                    fuel,
                                );
                                match bind_args_spec(entered, child, arguments, parameters, fuel) {
                                    BindOutcome::Done { post: bound } => {
                                        if fuel > 0 {
                                            lemma_other_frames_untouched(
                                                bound,
                                                child,
                                                *body,
                                                (fuel - 1) as nat,
                                            );
                                        }
                                    },
                                    BindOutcome::OutOfFuel => {},
                                }
                            }
                        },
                        _ => {},
                    }
                },
                Outcome::OutOfFuel => {},
            }
        },
        TermV::Binary { lhs, op, rhs, .. } => {
            lemma_other_frames_untouched(st, env, *lhs, fuel);
            match eval_spec(st, env, *lhs, fuel) {
                Outcome::Done { post, result: lv } => {
                    if op_is_equality(op) {
                        lemma_other_frames_untouched(post, env, *rhs, fuel);
                    } else {
                        if !(lv is Error) && operand_ok(op, lv) {
                            lemma_other_frames_untouched(post, env, *rhs, fuel);
                        }
                    }
                },
                Outcome::OutOfFuel => {},
            }
        },
        TermV::Print { value, .. } => {
            lemma_other_frames_untouched(st, env, *value, fuel);
        },
        TermV::First { value, .. } => {
            lemma_other_frames_untouched(st, env, *value, fuel);
            match eval_spec(st, env, *value, fuel) {
                Outcome::Done { post, result } => {
                    match result {
                        TermV::Tuple { first, .. } => {
                            if fuel > 0 {
                                lemma_other_frames_untouched(post, env, *first, (fuel - 1) as nat);
                            }
                        },
                        _ => {},
                    }
                },
                Outcome::OutOfFuel => {},
            }
        },
        TermV::Second { value, .. } => {
            lemma_other_frames_untouched(st, env, *value, fuel);
            match eval_spec(st, env, *value, fuel) {
                Outcome::Done { post, result } => {
                    match result {
                        TermV::Tuple { second, .. } => {
                            if fuel > 0 {
                                lemma_other_frames_untouched(post, env, *second, (fuel - 1) as nat);
                            }
                        },
                        _ => {},
                    }
                },
                Outcome::OutOfFuel => {},
            }
        },
        TermV::Tuple { first, second, .. } => {
            lemma_other_frames_untouched(st, env, *first, fuel);
            match eval_spec(st, env, *first, fuel) {
                Outcome::Done { post, .. } => {
                    lemma_other_frames_untouched(post, env, *second, fuel);
                },
                Outcome::OutOfFuel => {},
            }
        },
    }
}

/// Binding a call's arguments writes only into the new child frame.
pub proof fn lemma_bind_other_frames_untouched(
    st: StateV,
    child: int,
    args: Seq<TermV>,
    params: Seq<VarV>,
    fuel: nat,
)
    ensures
        match bind_args_spec(st, child, args, params, fuel) {
            BindOutcome::Done { post } => st.frames.len() <= post.frames.len() && (forall|k: int|
                0 <= k < st.frames.len() && k != child ==> post.frames[k] == st.frames[k]),
            BindOutcome::OutOfFuel => true,
        },
    decreases fuel, args,
{
    if args.len() > 0 {
        lemma_other_frames_untouched(st, child, args[0], fuel);
        match eval_spec(st, child, args[0], fuel) {
            Outcome::Done { post, result } => {
                let post2 = StateV {
                    frames: set_in_frame(post.frames, child, params[0].text, result),
                    output: post.output,
                };
                assert(forall|k: int|
                    0 <= k < post.frames.len() && k != child ==> post2.frames[k]
                        == post.frames[k]);
                lemma_bind_other_frames_untouched(
                    post2,
                    child,
                    args.drop_first(),
                    params.drop_first(),
                    fuel,
                );
            },
            Outcome::OutOfFuel => {},
        }
    }
}

/// The output sink is append-only: whatever evaluation completes, the
/// lines already written stay in place, and new lines only follow them.
/// Print order is therefore exactly evaluation order.
pub proof fn lemma_output_append_only(st: StateV, env: int, term: TermV, fuel: nat)
    ensures
        match eval_spec(st, env, term, fuel) {
            Outcome::Done { post, .. } => st.output.is_prefix_of(post.output),
            Outcome::OutOfFuel => true,
        },
    decreases fuel, term,
{
    match term {
        TermV::Error { .. } => {},
        TermV::Int { .. } => {},
        TermV::Str { .. } => {},
        TermV::Bool { .. } => {},
        TermV::Function { .. } => {},
        TermV::Var { text, .. } => {
            match crate::env::env_lookup(st.frames, env, text) {
                Some(stored) => {
                    if fuel > 0 {
                        lemma_output_append_only(st, env, stored, (fuel - 1) as nat);
                    }
                },
                None => {},
            }
        },
        TermV::Let { name, value, next, .. } => {
            lemma_output_append_only(st, env, *value, fuel);
            match eval_spec(st, env, *value, fuel) {
                Outcome::Done { post, result } => {
                    if name.text == discard_name() {
                        lemma_output_append_only(post, env, *next, fuel);
                    } else {
                        let post2 = StateV {
                            frames: set_in_frame(post.frames, env, name.text, result),
                            output: post.output,
                        };
                        lemma_output_append_only(post2, env, *next, fuel);
                    }
                },
                Outcome::OutOfFuel => {},
            }
        },
        TermV::If { condition, then_branch, otherwise, .. } => {
            lemma_output_append_only(st, env, *condition, fuel);
            match eval_spec(st, env, *condition, fuel) {
                Outcome::Done { post, result } => {
                    match result {
                        TermV::Bool { value, .. } => {
                            if value {
                                lemma_output_append_only(post, env, *then_branch, fuel);
                            } else {
                                lemma_output_append_only(post, env, *otherwise, fuel);
                            }
                        },
                        _ => {},
                    }
                },
                Outcome::OutOfFuel => {},
            }
        },
        TermV::Call { callee, arguments, .. } => {
            lemma_output_append_only(st, env, *callee, fuel);
            match eval_spec(st, env, *callee, fuel) {
                Outcome::Done { post, result } => {
                    match result {
                        TermV::Function { parameters, body, .. } => {
                            if parameters.len() == arguments.len() {
                                let child = post.frames.len() as int;
                                let entered = StateV {
                                    frames: post.frames.push(
                                        FrameV {
                                            parent: Some(env),
                                            vars: Seq::<crate::env::BindingV>::empty(),
                                        },
                                    ),
                                    output: post.output,
                                };
                                lemma_bind_output_append_only(
                                    entered,
                                    child,
                                    arguments,
                                    parameters,
                                    fuel,
                                );
                                match bind_args_spec(entered, child, arguments, parameters, fuel) {
                                    BindOutcome::Done { post: bound } => {
                                        if fuel > 0 {
                                            lemma_output_append_only(
                                                bound,
                                                child,
                                                *body,
                                                (fuel - 1) as nat,
                                            );
                                        }
                                    },
                                    BindOutcome::OutOfFuel => {},
                                }
                            }
                        },
                        _ => {},
                    }
                },
                Outcome::OutOfFuel => {},
            }
        },
        TermV::Binary { lhs, op, rhs, .. } => {
            lemma_output_append_only(st, env, *lhs, fuel);
            match eval_spec(st, env, *lhs, fuel) {
                Outcome::Done { post, result: lv } => {
                    if op_is_equality(op) {
                        lemma_output_append_only(post, env, *rhs, fuel);
                    } else {
                        if !(lv is Error) && operand_ok(op, lv) {
                            lemma_output_append_only(post, env, *rhs, fuel);
                        }
                    }
                },
                Outcome::OutOfFuel => {},
            }
        },
        TermV::Print { value, .. } => {
            lemma_output_append_only(st, env, *value, fuel);
            match eval_spec(st, env, *value, fuel) {
                Outcome::Done { post, result } => {
                    assert(post.output.is_prefix_of(post.output.push(print_line(result))));
                },
                Outcome::OutOfFuel => {},
            }
        },
        TermV::First { value, .. } => {
            lemma_output_append_only(st, env, *value, fuel);
            match eval_spec(st, env, *value, fuel) {
                Outcome::Done { post, result } => {
                    match result {
                        TermV::Tuple { first, .. } => {
                            if fuel > 0 {
                                lemma_output_append_only(post, env, *first, (fuel - 1) as nat);
                            }
                        },
                        _ => {},
                    }
                },
                Outcome::OutOfFuel => {},
            }
        },
        TermV::Second { value, .. } => {
            lemma_output_append_only(st, env, *value, fuel);
            match eval_spec(st, env, *value, fuel) {
                Outcome::Done { post, result } => {
                    match result {
                        TermV::Tuple { second, .. } => {
                            if fuel > 0 {
                                lemma_output_append_only(post, env, *second, (fuel - 1) as nat);
                            }
                        },
                        _ => {},
                    }
                },
                Outcome::OutOfFuel => {},
            }
        },
        TermV::Tuple { first, second, .. } => {
            lemma_output_append_only(st, env, *first, fuel);
            match eval_spec(st, env, *first, fuel) {
                Outcome::Done { post, .. } => {
                    lemma_output_append_only(post, env, *second, fuel);
                },
                Outcome::OutOfFuel => {},
            }
        },
    }
}

/// Binding a call's arguments never rewrites output already written.
pub proof fn lemma_bind_output_append_only(
    st: StateV,
    child: int,
    args: Seq<TermV>,
    params: Seq<VarV>,
    fuel: nat,
)
    ensures
        match bind_args_spec(st, child, args, params, fuel) {
            BindOutcome::Done { post } => st.output.is_prefix_of(post.output),
            BindOutcome::OutOfFuel => true,
        },
    decreases fuel, args,
{
    if args.len() > 0 {
        lemma_output_append_only(st, child, args[0], fuel);
        match eval_spec(st, child, args[0], fuel) {
            Outcome::Done { post, result } => {
                let post2 = StateV {
                    frames: set_in_frame(post.frames, child, params[0].text, result),
                    output: post.output,
                };
                lemma_bind_output_append_only(
                    post2,
                    child,
                    args.drop_first(),
                    params.drop_first(),
                    fuel,
                );
            },
            Outcome::OutOfFuel => {},
        }
    }
}

} // verus!

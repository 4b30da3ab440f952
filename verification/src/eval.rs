//! The executable evaluator.  Each public and private entry point is
//! proved to compute exactly what the definitional semantics in
//! [`crate::semantics`] prescribes: the spec outcome `Done` becomes a
//! `Some` result together with the final arena and output, and the spec
//! outcome `OutOfFuel` becomes `None` (the bounded stand-in for runaway
//! recursion in the evaluated program).

use vstd::arithmetic::div_mod::lemma_div_is_ordered_by_denominator;
use vstd::arithmetic::div_mod::lemma_mod_multiples_vanish;
use vstd::arithmetic::div_mod::lemma_small_mod;
use vstd::prelude::*;
use vstd::string::StringExecFns;
use vstd::wrapping::i32_specs;

use crate::ast::Binary;
use crate::ast::BinaryOp;
use crate::ast::Bool;
use crate::ast::Call;
use crate::ast::Error;
use crate::ast::First;
use crate::ast::Function;
use crate::ast::If;
use crate::ast::Int;
use crate::ast::Let;
use crate::ast::Location;
use crate::ast::Print;
use crate::ast::Second;
use crate::ast::Str;
use crate::ast::Term;
use crate::ast::TermV;
use crate::ast::Tuple;
use crate::ast::Var;
use crate::ast::Element;
use crate::ast::lemma_terms_view;
use crate::ast::term_view;
use crate::ast::terms_view;
use crate::env::BindingV;
use crate::env::Env;
use crate::env::FrameV;
use crate::env::env_wf;
use crate::laws::lemma_eval_preserves;
use crate::laws::lemma_push_frame_wf;
use crate::laws::lemma_set_in_frame_wf;
use crate::semantics::Outcome;
use crate::semantics::StateV;
use crate::semantics::bind_args_spec;
use crate::semantics::eval_spec;
use crate::semantics::int_of;
use crate::semantics::bool_of;
use crate::semantics::op_is_equality;
use crate::semantics::operand_ok;
use crate::semantics::set_in_frame;
use crate::semantics::trunc_div;
use crate::semantics::trunc_rem;
use crate::semantics::txt_arity_mismatch;
use crate::semantics::txt_operand;
use crate::semantics::txt_undefined_variable;
use crate::semantics::typed_binary_result;
use crate::semantics::wrap_div;
use crate::semantics::wrap_err;
use crate::semantics::wrap_rem;
use crate::text::bool_to_string;
use crate::text::i32_to_string;
use crate::text::u64_to_string;

verus! {

/// The evaluator: the scope-chain arena and the output sink that `print`
/// appends to.
pub struct Evaluator {
    pub env: Env,
    pub output: Vec<String>,
}

impl View for Evaluator {
    type V = StateV;

    open spec fn view(&self) -> StateV {
        StateV { frames: self.env@, output: self.output@.map_values(|s: String| s@) }
    }
}

/// The contract every evaluation entry point meets: the result and the
/// state change are exactly the spec outcome.
pub open spec fn eval_post(
    pre: StateV,
    env: int,
    tv: TermV,
    fuel: nat,
    post: StateV,
    r: Option<Term>,
) -> bool {
    match r {
        Some(t) => eval_spec(pre, env, tv, fuel) == (Outcome::Done { post, result: t@ }),
        None => eval_spec(pre, env, tv, fuel) is OutOfFuel,
    }
}

/// Rewrites any non-error term into an `Error` carrying the term's own
/// location; an error passes through unchanged.
pub fn error(term: Term, message: String, full_text: String) -> (r: Term)
    ensures
        r@ == wrap_err(term@, message@, full_text@),
{
    match term {
        Term::Error(_) => term,
        _ => {
            let location = term.location().clone();
            Term::Error(Error { message, full_text, location })
        },
    }
}

/// The detail text of an arity error states both counts.
fn arity_text(expected: usize, found: usize) -> (s: String)
    ensures
        s@ == txt_arity_mismatch(expected as nat, found as nat),
{
    let mut s = String::from_str("Expected ");
    let e = u64_to_string(expected as u64);
    s.append(e.as_str());
    s.append(" arguments, found ");
    let f = u64_to_string(found as u64);
    s.append(f.as_str());
    proof {
        assert(s@ =~= txt_arity_mismatch(expected as nat, found as nat));
    }
    s
}

/// The detail text of an undefined-variable error names the variable.
fn undefined_text(name: &str) -> (s: String)
    ensures
        s@ == txt_undefined_variable(name@),
{
    let mut s = String::from_str("Undefined variable \"");
    s.append(name);
    s.append("\"");
    proof {
        assert(s@ =~= txt_undefined_variable(name@));
    }
    s
}

/// The detail text of an operand-kind error names the expected kind.
fn operand_text(op: BinaryOp) -> (s: String)
    ensures
        s@ == txt_operand(op),
{
    match op {
        BinaryOp::And => String::from_str("Expected operand of type \"Bool\""),
        BinaryOp::Or => String::from_str("Expected operand of type \"Bool\""),
        _ => String::from_str("Expected operand of type \"Int\""),
    }
}

/// The integer carried by an `Int` term.
fn int_value(t: &Term) -> (v: i32)
    requires
        t@ is Int,
    ensures
        v == int_of(t@),
{
    match t {
        Term::Int(n) => n.value,
        _ => 0,
    }
}

/// The boolean carried by a `Bool` term.
fn bool_value(t: &Term) -> (v: bool)
    requires
        t@ is Bool,
    ensures
        v == bool_of(t@),
{
    match t {
        Term::Bool(n) => n.value,
        _ => false,
    }
}

/// A value in 32-bit range is its own 32-bit crop.
proof fn lemma_signed_crop_id(x: int)
    requires
        i32::MIN <= x <= i32::MAX,
    ensures
        i32_specs::signed_crop(x) == x as i32,
{
    if x >= 0 {
        lemma_small_mod(x as nat, 0x1_0000_0000nat);
    } else {
        lemma_mod_multiples_vanish(1, x, 0x1_0000_0000);
        lemma_small_mod((x + 0x1_0000_0000) as nat, 0x1_0000_0000nat);
        assert((x + 0x1_0000_0000) % 0x1_0000_0000 == x + 0x1_0000_0000);
    }
}

/// The unsigned magnitude of a 32-bit integer.
fn magnitude(a: i32) -> (m: u32)
    ensures
        a >= 0 ==> m as int == a as int,
        a < 0 ==> m as int == -(a as int),
{
    if a >= 0 {
        a as u32
    } else {
        (-(a as i64)) as u32
    }
}

/// 32-bit wrapping division, truncating toward zero.
fn div_wrapping(a: i32, b: i32) -> (q: i32)
    requires
        b != 0,
    ensures
        q == wrap_div(a, b),
{
    if b == -1 {
        if a == i32::MIN {
            proof {
                assert(trunc_div(a as int, b as int) == 0x8000_0000int);
                lemma_small_mod(0x8000_0000nat, 0x1_0000_0000nat);
                assert(i32_specs::signed_crop(0x8000_0000int) == i32::MIN);
            }
            i32::MIN
        } else {
            proof {
                assert(trunc_div(a as int, b as int) == -(a as int));
                lemma_signed_crop_id(-(a as int));
            }
            -a
        }
    } else if b == 1 {
        proof {
            assert(trunc_div(a as int, b as int) == a as int);
            lemma_signed_crop_id(a as int);
        }
        a
    } else {
        let mag_a = magnitude(a);
        let mag_b = magnitude(b);
        let mag_q: u32 = mag_a / mag_b;
        proof {
            lemma_div_is_ordered_by_denominator(mag_a as int, 2, mag_b as int);
            assert(mag_q as int <= mag_a as int / 2);
            assert(mag_q as int <= 0x4000_0000int);
        }
        let neg = (a < 0) != (b < 0);
        if neg {
            proof {
                assert(trunc_div(a as int, b as int) == -(mag_q as int));
                lemma_signed_crop_id(-(mag_q as int));
            }
            (-(mag_q as i64)) as i32
        } else {
            proof {
                assert(trunc_div(a as int, b as int) == mag_q as int);
                lemma_signed_crop_id(mag_q as int);
            }
            mag_q as i32
        }
    }
}

/// 32-bit wrapping remainder, with the sign of the dividend.
fn rem_wrapping(a: i32, b: i32) -> (q: i32)
    requires
        b != 0,
    ensures
        q == wrap_rem(a, b),
{
    let mag_a = magnitude(a);
    let mag_b = magnitude(b);
    let mag_r: u32 = mag_a % mag_b;
    proof {
        assert(mag_r < mag_b);
        if a == 0 {
            lemma_small_mod(0nat, mag_b as nat);
            assert(mag_r as int == 0);
            assert(trunc_rem(a as int, b as int) == 0);
            lemma_signed_crop_id(0);
        } else if a < 0 {
            assert(trunc_rem(a as int, b as int) == -(mag_r as int));
            lemma_signed_crop_id(-(mag_r as int));
        } else {
            assert(trunc_rem(a as int, b as int) == mag_r as int);
            lemma_signed_crop_id(mag_r as int);
        }
    }
    if a < 0 {
        (-(mag_r as i64)) as i32
    } else {
        mag_r as i32
    }
}

/// The result of a typed binary operator on operands of the accepted
/// kinds.
fn compute_typed(op: BinaryOp, l: Term, r: Term, location: Location) -> (t: Term)
    requires
        !op_is_equality(op),
        operand_ok(op, l@),
        operand_ok(op, r@),
    ensures
        t@ == typed_binary_result(op, l@, r@, location@),
{
    match op {
        BinaryOp::Add => {
            let a = int_value(&l);
            let b = int_value(&r);
            Term::Int(Int { value: a.wrapping_add(b), location })
        },
        BinaryOp::Sub => {
            let a = int_value(&l);
            let b = int_value(&r);
            Term::Int(Int { value: a.wrapping_sub(b), location })
        },
        BinaryOp::Mul => {
            let a = int_value(&l);
            let b = int_value(&r);
            Term::Int(Int { value: a.wrapping_mul(b), location })
        },
        BinaryOp::Div => {
            let a = int_value(&l);
            let b = int_value(&r);
            if b == 0 {
                Term::Error(
                    Error {
                        message: String::from_str("Division by zero"),
                        full_text: String::from_str("The divisor is zero"),
                        location,
                    },
                )
            } else {
                Term::Int(Int { value: div_wrapping(a, b), location })
            }
        },
        BinaryOp::Rem => {
            let a = int_value(&l);
            let b = int_value(&r);
            if b == 0 {
                Term::Error(
                    Error {
                        message: String::from_str("Division by zero"),
                        full_text: String::from_str("The divisor is zero"),
                        location,
                    },
                )
            } else {
                Term::Int(Int { value: rem_wrapping(a, b), location })
            }
        },
        BinaryOp::Lt => {
            let a = int_value(&l);
            let b = int_value(&r);
            Term::Bool(Bool { value: a < b, location })
        },
        BinaryOp::Gt => {
            let a = int_value(&l);
            let b = int_value(&r);
            Term::Bool(Bool { value: a > b, location })
        },
        BinaryOp::Lte => {
            let a = int_value(&l);
            let b = int_value(&r);
            Term::Bool(Bool { value: a <= b, location })
        },
        BinaryOp::Gte => {
            let a = int_value(&l);
            let b = int_value(&r);
            Term::Bool(Bool { value: a >= b, location })
        },
        BinaryOp::And => {
            let a = bool_value(&l);
            let b = bool_value(&r);
            Term::Bool(Bool { value: a && b, location })
        },
        BinaryOp::Or => {
            let a = bool_value(&l);
            let b = bool_value(&r);
            Term::Bool(Bool { value: a || b, location })
        },
        BinaryOp::Eq => Term::Bool(Bool { value: false, location }),
        BinaryOp::Neq => Term::Bool(Bool { value: false, location }),
    }
}

impl Evaluator {
    /// A fresh evaluator: an environment of one root frame (handle 0) and
    /// an empty output sink.
    pub fn new() -> (ev: Evaluator)
        ensures
            ev@.frames.len() == 1,
            ev@.frames[0].parent is None,
            ev@.frames[0].vars == Seq::<BindingV>::empty(),
            ev@.output == Seq::<Seq<char>>::empty(),
            env_wf(ev@.frames),
    {
        let ev = Evaluator { env: Env::new(), output: Vec::new() };
        proof {
            assert(ev@.output =~= Seq::<Seq<char>>::empty());
        }
        ev
    }

    /// Reduces `term` in frame `env`.  `Some` is the reduced value term,
    /// with the arena and the output advanced exactly as the semantics
    /// prescribes; `None` means the fuel bound was reached.
    pub fn eval(&mut self, env: usize, term: Term, fuel: u64) -> (r: Option<Term>)
        requires
            env_wf(old(self)@.frames),
            env < old(self)@.frames.len(),
        ensures
            eval_post(old(self)@, env as int, term@, fuel as nat, final(self)@, r),
        decreases fuel, term, 1int,
    {
        match term {
            Term::Int(n) => Some(Term::Int(n)),
            Term::Str(n) => Some(Term::Str(n)),
            Term::Bool(n) => Some(Term::Bool(n)),
            Term::Error(n) => Some(Term::Error(n)),
            Term::Function(n) => Some(Term::Function(n)),
            Term::If(n) => self.eval_if(env, n, fuel),
            Term::Let(n) => self.eval_let(env, n, fuel),
            Term::Var(n) => self.eval_var(env, n, fuel, Ghost(term)),
            Term::Call(n) => self.eval_call(env, n, fuel),
            Term::First(n) => self.eval_first(env, n, fuel),
            Term::Print(n) => self.eval_print(env, n, fuel),
            Term::Tuple(n) => self.eval_tuple(env, n, fuel),
            Term::Binary(n) => self.eval_binary(env, n, fuel),
            Term::Second(n) => self.eval_second(env, n, fuel),
        }
    }

    /// The condition must reduce to a boolean, which picks the branch.
    fn eval_if(&mut self, env: usize, term: If, fuel: u64) -> (r: Option<Term>)
        requires
            env_wf(old(self)@.frames),
            env < old(self)@.frames.len(),
        ensures
            eval_post(old(self)@, env as int, Term::If(term)@, fuel as nat, final(self)@, r),
        decreases fuel, term, 0int,
    {
        let If { condition, then_branch, otherwise, .. } = term;
        let ghost pre = self@;
        match self.eval(env, *condition, fuel) {
            None => None,
            Some(c) => {
                proof {
                    lemma_eval_preserves(pre, env as int, term.condition@, fuel as nat);
                }
                match c {
                    Term::Bool(b) => {
                        if b.value {
                            self.eval(env, *then_branch, fuel)
                        } else {
                            self.eval(env, *otherwise, fuel)
                        }
                    },
                    other => Some(
                        error(
                            other,
                            String::from_str("Unexpected term"),
                            String::from_str("Expected condition of type \"Bool\""),
                        ),
                    ),
                }
            },
        }
    }

    /// A stored binding is evaluated again; a miss through the whole
    /// chain is an undefined-variable error.
    fn eval_var(&mut self, env: usize, term: Var, fuel: u64, Ghost(whole): Ghost<Term>) -> (r:
        Option<Term>)
        requires
            env_wf(old(self)@.frames),
            env < old(self)@.frames.len(),
            whole == Term::Var(term),
        ensures
            eval_post(old(self)@, env as int, Term::Var(term)@, fuel as nat, final(self)@, r),
        decreases fuel, whole, 0int,
    {
        let Var { text, location } = term;
        match self.env.get(env, text.as_str()) {
            Some(stored) => {
                if fuel == 0 {
                    None
                } else {
                    self.eval(env, stored, fuel - 1)
                }
            },
            None => {
                let full_text = undefined_text(text.as_str());
                Some(
                    Term::Error(
                        Error {
                            message: String::from_str("Undefined variable"),
                            full_text,
                            location,
                        },
                    ),
                )
            },
        }
    }

    /// The bound value is evaluated eagerly and stored in the current
    /// frame, unless the name is the discard identifier.
    fn eval_let(&mut self, env: usize, term: Let, fuel: u64) -> (r: Option<Term>)
        requires
            env_wf(old(self)@.frames),
            env < old(self)@.frames.len(),
        ensures
            eval_post(old(self)@, env as int, Term::Let(term)@, fuel as nat, final(self)@, r),
        decreases fuel, term, 0int,
    {
        let Let { name, value, next, .. } = term;
        let ghost pre = self@;
        match self.eval(env, *value, fuel) {
            None => None,
            Some(v) => {
                proof {
                    lemma_eval_preserves(pre, env as int, term.value@, fuel as nat);
                }
                let discard = String::from_str("_");
                if !name.text.eq(&discard) {
                    let ghost mid = self@;
                    let _stored = self.env.set(env, name.text.as_str(), v);
                    proof {
                        lemma_set_in_frame_wf(mid.frames, env as int, name.text@, v@);
                        assert(self@.frames == set_in_frame(mid.frames, env as int, name.text@, v@));
                    }
                }
                self.eval(env, *next, fuel)
            },
        }
    }

    /// The callee must reduce to a function of matching arity; the body
    /// runs in a fresh frame extending the caller's.
    #[verifier::loop_isolation(false)]
    fn eval_call(&mut self, env: usize, term: Call, fuel: u64) -> (r: Option<Term>)
        requires
            env_wf(old(self)@.frames),
            env < old(self)@.frames.len(),
        ensures
            eval_post(old(self)@, env as int, Term::Call(term)@, fuel as nat, final(self)@, r),
        decreases fuel, term, 0int,
    {
        let Call { callee, arguments, location } = term;
        let ghost pre = self@;
        match self.eval(env, *callee, fuel) {
            None => None,
            Some(f) => {
                proof {
                    lemma_eval_preserves(pre, env as int, term.callee@, fuel as nat);
                }
                match f {
                    Term::Function(func) => {
                        let Function { parameters, value: body, .. } = func;
                        proof {
                            lemma_terms_view(arguments@);
                        }
                        if parameters.len() != arguments.len() {
                            let full_text = arity_text(parameters.len(), arguments.len());
                            return Some(
                                Term::Error(
                                    Error {
                                        message: String::from_str("Argument count mismatch"),
                                        full_text,
                                        location,
                                    },
                                ),
                            );
                        }
                        let ghost post_callee = self@;
                        let child = self.env.extend(env);
                        proof {
                            lemma_push_frame_wf(post_callee.frames, env as int);
                            assert(self@.frames =~= post_callee.frames.push(
                                FrameV { parent: Some(env as int), vars: Seq::<BindingV>::empty() },
                            ));
                        }
                        let ghost entered = self@;
                        let ghost orig_args = arguments@;
                        let ghost params_v = parameters@.map_values(|v: Var| v@);
                        let mut args = arguments;
                        let mut i: usize = 0;
                        proof {
                            assert(orig_args.skip(0) =~= orig_args);
                            assert(params_v.skip(0) =~= params_v);
                        }
                        while args.len() > 0
                            invariant
                                env_wf(self@.frames),
                                child < self@.frames.len(),
                                i + args@.len() == orig_args.len(),
                                orig_args.len() <= usize::MAX,
                                args@ == orig_args.skip(i as int),
                                params_v.len() == orig_args.len(),
                                params_v == parameters@.map_values(|v: Var| v@),
                                parameters@.len() == orig_args.len(),
                                orig_args == term.arguments@,
                                bind_args_spec(
                                    entered,
                                    child as int,
                                    terms_view(orig_args),
                                    params_v,
                                    fuel as nat,
                                ) == bind_args_spec(
                                    self@,
                                    child as int,
                                    terms_view(orig_args.skip(i as int)),
                                    params_v.skip(i as int),
                                    fuel as nat,
                                ),
                            decreases args@.len(),
                        {
                            let ghost cur = self@;
                            let arg = args.remove(0);
                            proof {
                                assert(arg == term.arguments@[i as int]);
                                assert(decreases_to!(term => term.arguments@[i as int]));
                                lemma_terms_view(orig_args.skip(i as int));
                                assert(terms_view(orig_args.skip(i as int))[0] == term_view(
                                    orig_args[i as int],
                                ));
                            }
                            match self.eval(child, arg, fuel) {
                                None => {
                                    return None;
                                },
                                Some(v) => {
                                    proof {
                                        lemma_eval_preserves(
                                            cur,
                                            child as int,
                                            arg@,
                                            fuel as nat,
                                        );
                                    }
                                    let ghost mid = self@;
                                    let _stored = self.env.set(
                                        child,
                                        parameters[i].text.as_str(),
                                        v,
                                    );
                                    proof {
                                        lemma_set_in_frame_wf(
                                            mid.frames,
                                            child as int,
                                            parameters@[i as int].text@,
                                            v@,
                                        );
                                        assert(params_v[i as int] == parameters@[i as int]@);
                                        assert(self@.frames == set_in_frame(
                                            mid.frames,
                                            child as int,
                                            params_v[i as int].text,
                                            v@,
                                        ));
                                        assert(terms_view(orig_args.skip(i as int)).drop_first()
                                            =~= terms_view(orig_args.skip(i + 1))) by {
                                            lemma_terms_view(orig_args.skip(i as int));
                                            lemma_terms_view(orig_args.skip(i + 1));
                                            assert(forall|j: int|
                                                0 <= j < orig_args.skip(i + 1).len()
                                                    ==> orig_args.skip(i as int).drop_first()[j]
                                                    == orig_args.skip(i + 1)[j]);
                                            assert(forall|j: int|
                                                0 <= j < orig_args.skip(i + 1).len() ==> #[trigger] terms_view(
                                                    orig_args.skip(i as int),
                                                ).drop_first()[j] == terms_view(
                                                    orig_args.skip(i + 1),
                                                )[j]);
                                        }
                                        assert(params_v.skip(i as int).drop_first() =~= params_v.skip(
                                            i + 1,
                                        ));
                                    }
                                    i = i + 1;
                                },
                            }
                        }
                        proof {
                            assert(orig_args.skip(i as int).len() == 0);
                            assert(terms_view(orig_args.skip(i as int)).len() == 0) by {
                                lemma_terms_view(orig_args.skip(i as int));
                            }
                        }
                        if fuel == 0 {
                            return None;
                        }
                        self.eval(child, *body, fuel - 1)
                    },
                    other => Some(
                        error(
                            other,
                            String::from_str("Unexpected term"),
                            String::from_str("Expected function body or reference"),
                        ),
                    ),
                }
            },
        }
    }

    /// Dispatch on the operator tag.
    fn eval_binary(&mut self, env: usize, term: Binary, fuel: u64) -> (r: Option<Term>)
        requires
            env_wf(old(self)@.frames),
            env < old(self)@.frames.len(),
        ensures
            eval_post(old(self)@, env as int, Term::Binary(term)@, fuel as nat, final(self)@, r),
        decreases fuel, term, 1int,
    {
        match term.op {
            BinaryOp::Eq => self.eval_eq(env, term, fuel),
            BinaryOp::Neq => self.eval_neq(env, term, fuel),
            _ => self.eval_typed_binary(env, term, fuel),
        }
    }

    /// Whole-value equality: both operands are always evaluated and any
    /// pair of evaluated terms is accepted.
    fn eval_eq(&mut self, env: usize, term: Binary, fuel: u64) -> (r: Option<Term>)
        requires
            env_wf(old(self)@.frames),
            env < old(self)@.frames.len(),
            term.op == BinaryOp::Eq,
        ensures
            eval_post(old(self)@, env as int, Term::Binary(term)@, fuel as nat, final(self)@, r),
        decreases fuel, term, 0int,
    {
        let Binary { lhs, rhs, location, .. } = term;
        let ghost pre = self@;
        match self.eval(env, *lhs, fuel) {
            None => None,
            Some(l) => {
                proof {
                    lemma_eval_preserves(pre, env as int, term.lhs@, fuel as nat);
                }
                match self.eval(env, *rhs, fuel) {
                    None => None,
                    Some(r2) => {
                        let value = l.deep_eq(&r2);
                        Some(Term::Bool(Bool { value, location }))
                    },
                }
            },
        }
    }

    /// Whole-value disequality, the negation of `Eq`.
    fn eval_neq(&mut self, env: usize, term: Binary, fuel: u64) -> (r: Option<Term>)
        requires
            env_wf(old(self)@.frames),
            env < old(self)@.frames.len(),
            term.op == BinaryOp::Neq,
        ensures
            eval_post(old(self)@, env as int, Term::Binary(term)@, fuel as nat, final(self)@, r),
        decreases fuel, term, 0int,
    {
        let Binary { lhs, rhs, location, .. } = term;
        let ghost pre = self@;
        match self.eval(env, *lhs, fuel) {
            None => None,
            Some(l) => {
                proof {
                    lemma_eval_preserves(pre, env as int, term.lhs@, fuel as nat);
                }
                match self.eval(env, *rhs, fuel) {
                    None => None,
                    Some(r2) => {
                        let value = !l.deep_eq(&r2);
                        Some(Term::Bool(Bool { value, location }))
                    },
                }
            },
        }
    }

    /// The typed operators: an error operand short-circuits, a
    /// wrong-kind operand is reported, and matching operands compute.
    fn eval_typed_binary(&mut self, env: usize, term: Binary, fuel: u64) -> (r: Option<Term>)
        requires
            env_wf(old(self)@.frames),
            env < old(self)@.frames.len(),
            !op_is_equality(term.op),
        ensures
            eval_post(old(self)@, env as int, Term::Binary(term)@, fuel as nat, final(self)@, r),
        decreases fuel, term, 0int,
    {
        let Binary { lhs, op, rhs, location } = term;
        let ghost pre = self@;
        match self.eval(env, *lhs, fuel) {
            None => None,
            Some(l) => {
                proof {
                    lemma_eval_preserves(pre, env as int, term.lhs@, fuel as nat);
                }
                if let Term::Error(e) = l {
                    return Some(Term::Error(e));
                }
                let l_ok = match op {
                    BinaryOp::And => matches!(l, Term::Bool(_)),
                    BinaryOp::Or => matches!(l, Term::Bool(_)),
                    _ => matches!(l, Term::Int(_)),
                };
                if !l_ok {
                    let full_text = operand_text(op);
                    return Some(error(l, String::from_str("Unexpected left operand"), full_text));
                }
                match self.eval(env, *rhs, fuel) {
                    None => None,
                    Some(r2) => {
                        if let Term::Error(e) = r2 {
                            return Some(Term::Error(e));
                        }
                        let r_ok = match op {
                            BinaryOp::And => matches!(r2, Term::Bool(_)),
                            BinaryOp::Or => matches!(r2, Term::Bool(_)),
                            _ => matches!(r2, Term::Int(_)),
                        };
                        if !r_ok {
                            let full_text = operand_text(op);
                            return Some(
                                error(r2, String::from_str("Unexpected right operand"), full_text),
                            );
                        }
                        Some(compute_typed(op, l, r2, location))
                    },
                }
            },
        }
    }

    /// Evaluates the value and writes its textual form to the output
    /// sink; errors pass through unprinted, and a term with no first-class
    /// textual form is reported.
    fn eval_print(&mut self, env: usize, term: Print, fuel: u64) -> (r: Option<Term>)
        requires
            env_wf(old(self)@.frames),
            env < old(self)@.frames.len(),
        ensures
            eval_post(old(self)@, env as int, Term::Print(term)@, fuel as nat, final(self)@, r),
        decreases fuel, term, 0int,
    {
        let Print { value, .. } = term;
        match self.eval(env, *value, fuel) {
            None => None,
            Some(v) => match v {
                Term::Error(e) => Some(Term::Error(e)),
                Term::Int(n) => {
                    let line = i32_to_string(n.value);
                    let ghost mid = self@;
                    self.output.push(line);
                    proof {
                        assert(self@.output =~= mid.output.push(line@));
                    }
                    Some(Term::Int(n))
                },
                Term::Str(n) => {
                    let line = n.value.clone();
                    let ghost mid = self@;
                    self.output.push(line);
                    proof {
                        assert(self@.output =~= mid.output.push(n.value@));
                    }
                    Some(Term::Str(n))
                },
                Term::Bool(n) => {
                    let line = bool_to_string(n.value);
                    let ghost mid = self@;
                    self.output.push(line);
                    proof {
                        assert(self@.output =~= mid.output.push(line@));
                    }
                    Some(Term::Bool(n))
                },
                Term::Function(f) => {
                    let line = String::from_str("<function>");
                    let ghost mid = self@;
                    self.output.push(line);
                    proof {
                        assert(self@.output =~= mid.output.push("<function>"@));
                    }
                    Some(Term::Function(f))
                },
                other => Some(
                    error(
                        other,
                        String::from_str("Unexpected term"),
                        String::from_str("The term is not a first class value"),
                    ),
                ),
            },
        }
    }

    /// Projects the first component of a tuple, evaluating it again.
    fn eval_first(&mut self, env: usize, term: First, fuel: u64) -> (r: Option<Term>)
        requires
            env_wf(old(self)@.frames),
            env < old(self)@.frames.len(),
        ensures
            eval_post(old(self)@, env as int, Term::First(term)@, fuel as nat, final(self)@, r),
        decreases fuel, term, 0int,
    {
        let First { value, .. } = term;
        let ghost pre = self@;
        match self.eval(env, *value, fuel) {
            None => None,
            Some(v) => match v {
                Term::Tuple(t) => {
                    if fuel == 0 {
                        None
                    } else {
                        proof {
                            lemma_eval_preserves(pre, env as int, term.value@, fuel as nat);
                        }
                        self.eval(env, *t.first, fuel - 1)
                    }
                },
                other => Some(
                    error(
                        other,
                        String::from_str("Unexpected term"),
                        String::from_str("The first function expects a tuple"),
                    ),
                ),
            },
        }
    }

    /// Projects the second component of a tuple, evaluating it again.
    fn eval_second(&mut self, env: usize, term: Second, fuel: u64) -> (r: Option<Term>)
        requires
            env_wf(old(self)@.frames),
            env < old(self)@.frames.len(),
        ensures
            eval_post(old(self)@, env as int, Term::Second(term)@, fuel as nat, final(self)@, r),
        decreases fuel, term, 0int,
    {
        let Second { value, .. } = term;
        let ghost pre = self@;
        match self.eval(env, *value, fuel) {
            None => None,
            Some(v) => match v {
                Term::Tuple(t) => {
                    if fuel == 0 {
                        None
                    } else {
                        proof {
                            lemma_eval_preserves(pre, env as int, term.value@, fuel as nat);
                        }
                        self.eval(env, *t.second, fuel - 1)
                    }
                },
                other => Some(
                    error(
                        other,
                        String::from_str("Unexpected term"),
                        String::from_str("The second function expects a tuple"),
                    ),
                ),
            },
        }
    }

    /// Evaluates both components eagerly, left to right.
    fn eval_tuple(&mut self, env: usize, term: Tuple, fuel: u64) -> (r: Option<Term>)
        requires
            env_wf(old(self)@.frames),
            env < old(self)@.frames.len(),
        ensures
            eval_post(old(self)@, env as int, Term::Tuple(term)@, fuel as nat, final(self)@, r),
        decreases fuel, term, 0int,
    {
        let Tuple { first, second, location } = term;
        let ghost pre = self@;
        match self.eval(env, *first, fuel) {
            None => None,
            Some(car) => {
                proof {
                    lemma_eval_preserves(pre, env as int, term.first@, fuel as nat);
                }
                match self.eval(env, *second, fuel) {
                    None => None,
                    Some(cdr) => Some(
                        Term::Tuple(
                            Tuple { first: Box::new(car), second: Box::new(cdr), location },
                        ),
                    ),
                }
            },
        }
    }
}

} // verus!

use rinha::ast::Binary;
use rinha::ast::BinaryOp;
use rinha::ast::Bool;
use rinha::ast::Call;
use rinha::ast::Element;
use rinha::ast::Error;
use rinha::ast::First;
use rinha::ast::Function;
use rinha::ast::If;
use rinha::ast::Int;
use rinha::ast::Let;
use rinha::ast::Location;
use rinha::ast::Print;
use rinha::ast::Second;
use rinha::ast::Str;
use rinha::ast::Term;
use rinha::ast::Tuple;
use rinha::ast::Var;
use rinha::env::Env;
use rinha::eval::Evaluator;
use rinha::eval::error;

const FUEL: u64 = 10_000;

fn loc() -> Location {
    Location::default()
}

fn num(v: i32) -> Term {
    Term::Int(Int { value: v, location: loc() })
}

fn boolean(v: bool) -> Term {
    Term::Bool(Bool { value: v, location: loc() })
}

fn string(s: &str) -> Term {
    Term::Str(Str { value: s.to_string(), location: loc() })
}

fn var(name: &str) -> Var {
    Var { text: name.to_string(), location: loc() }
}

fn binary(l: Term, op: BinaryOp, r: Term) -> Term {
    Term::Binary(Binary { lhs: Box::new(l), op, rhs: Box::new(r), location: loc() })
}

fn let_in(name: &str, value: Term, next: Term) -> Term {
    Term::Let(Let { name: var(name), value: Box::new(value), next: Box::new(next), location: loc() })
}

fn lambda(params: &[&str], body: Term) -> Term {
    Term::Function(Function {
        parameters: params.iter().map(|p| var(p)).collect(),
        value: Box::new(body),
        location: loc(),
    })
}

fn call(callee: Term, args: Vec<Term>) -> Term {
    Term::Call(Call { callee: Box::new(callee), arguments: args, location: loc() })
}

fn pair(a: Term, b: Term) -> Term {
    Term::Tuple(Tuple { first: Box::new(a), second: Box::new(b), location: loc() })
}

fn run(term: Term) -> Term {
    let mut ev = Evaluator::new();
    ev.eval(0, term, FUEL).unwrap()
}

fn error_term(message: &str, full_text: &str) -> Term {
    Term::Error(Error {
        message: message.to_string(),
        full_text: full_text.to_string(),
        location: loc(),
    })
}

#[test]
fn eval_int() {
    let mut env = Evaluator::new();
    let value = Default::default();
    let location = Default::default();
    let term = Term::Int(Int { value, location });
    let result = env.eval(0, term.clone(), FUEL).unwrap();
    assert_eq!(term, result);
}

#[test]
fn eval_str() {
    let mut env = Evaluator::new();
    let value = Default::default();
    let location = Default::default();
    let term = Term::Str(Str { value, location });
    let result = env.eval(0, term.clone(), FUEL).unwrap();
    assert_eq!(term, result);
}

#[test]
fn eval_bool() {
    let mut env = Evaluator::new();
    let value = Default::default();
    let location = Default::default();
    let term = Term::Bool(Bool { value, location });
    let result = env.eval(0, term.clone(), FUEL).unwrap();
    assert_eq!(term, result);
}

#[test]
fn eval_error() {
    let mut env = Evaluator::new();
    let message = Default::default();
    let full_text = Default::default();
    let location = Default::default();
    let term = Term::Error(Error { message, full_text, location });
    let result = env.eval(0, term.clone(), FUEL).unwrap();
    assert_eq!(term, result);
}

#[test]
fn eval_tuple() {
    let mut env = Evaluator::new();
    let term = Term::Tuple(Tuple {
        first: Box::new(Term::Int(Int { value: 1, location: Default::default() })),
        second: Box::new(Term::Int(Int { value: 2, location: Default::default() })),
        location: Default::default(),
    });
    let result = env.eval(0, term.clone(), FUEL).unwrap();
    assert_eq!(term, result);
}

#[test]
fn eval_first() {
    let mut env = Evaluator::new();
    let term = Term::First(First {
        value: Box::new(Term::Tuple(Tuple {
            first: Box::new(Term::Int(Int { value: 1, location: Default::default() })),
            second: Box::new(Term::Int(Int { value: 2, location: Default::default() })),
            location: Default::default(),
        })),
        location: Default::default(),
    });
    let result = env.eval(0, term, FUEL).unwrap();
    let term = Term::Int(Int { value: 1, location: Default::default() });
    assert_eq!(term, result);
}

#[test]
fn eval_second() {
    let mut env = Evaluator::new();
    let term = Term::Second(Second {
        value: Box::new(Term::Tuple(Tuple {
            first: Box::new(Term::Int(Int { value: 1, location: Default::default() })),
            second: Box::new(Term::Int(Int { value: 2, location: Default::default() })),
            location: Default::default(),
        })),
        location: Default::default(),
    });
    let result = env.eval(0, term, FUEL).unwrap();
    let term = Term::Int(Int { value: 2, location: Default::default() });
    assert_eq!(term, result);
}

#[test]
fn eval_let_var() {
    let mut env = Evaluator::new();
    let term = Term::Let(Let {
        name: Var { text: "foo".into(), location: Default::default() },
        value: Box::new(Term::Int(Int { value: 42, location: Default::default() })),
        next: Box::new(Term::Var(Var { text: "foo".into(), location: Default::default() })),
        location: Default::default(),
    });
    let result = env.eval(0, term, FUEL).unwrap();
    let term = Term::Int(Int { value: 42, location: Default::default() });
    assert_eq!(term, result);
}

#[test]
fn eval_let_call() {
    let mut env = Evaluator::new();
    let term = Term::Let(Let {
        name: Var { text: "id".into(), location: Default::default() },
        value: Box::new(Term::Function(Function {
            parameters: vec![Var { text: "x".into(), location: Default::default() }],
            value: Box::new(Term::Var(Var { text: "x".into(), location: Default::default() })),
            location: Default::default(),
        })),
        next: Box::new(Term::Call(Call {
            callee: Box::new(Term::Var(Var { text: "id".into(), location: Default::default() })),
            arguments: vec![Term::Int(Int { value: 42, location: Default::default() })],
            location: Default::default(),
        })),
        location: Default::default(),
    });
    let result = env.eval(0, term, FUEL).unwrap();
    let term = Term::Int(Int { value: 42, location: Default::default() });
    assert_eq!(term, result);
}

fn at(i: usize) -> Location {
    Location { start: i, end: i, filename: Default::default() }
}

#[test]
fn factorial() {
    let mut env = Evaluator::new();
    let term = Term::Let(Let {
        name: Var { text: "factorial".into(), location: at(0) },
        value: Box::new(Term::Function(Function {
            parameters: vec![Var { text: "n".into(), location: at(1) }],
            value: Box::new(Term::If(If {
                condition: Box::new(Term::Binary(Binary {
                    lhs: Box::new(Term::Var(Var { text: "n".into(), location: at(2) })),
                    op: BinaryOp::Lte,
                    rhs: Box::new(Term::Int(Int { value: 1, location: at(3) })),
                    location: at(4),
                })),
                then_branch: Box::new(Term::Int(Int { value: 1, location: at(5) })),
                otherwise: Box::new(Term::Binary(Binary {
                    lhs: Box::new(Term::Var(Var { text: "n".into(), location: at(6) })),
                    op: BinaryOp::Mul,
                    rhs: Box::new(Term::Call(Call {
                        callee: Box::new(Term::Var(Var {
                            text: "factorial".into(),
                            location: at(7),
                        })),
                        arguments: vec![Term::Binary(Binary {
                            lhs: Box::new(Term::Var(Var { text: "n".into(), location: at(8) })),
                            op: BinaryOp::Sub,
                            rhs: Box::new(Term::Int(Int { value: 1, location: at(9) })),
                            location: at(10),
                        })],
                        location: at(11),
                    })),
                    location: at(12),
                })),
                location: at(13),
            })),
            location: at(14),
        })),
        next: Box::new(Term::Call(Call {
            callee: Box::new(Term::Var(Var { text: "factorial".into(), location: at(15) })),
            arguments: vec![Term::Int(Int { value: 4, location: at(16) })],
            location: at(17),
        })),
        location: at(18),
    });

    let result = env.eval(0, term, FUEL).unwrap();
    let term = Term::Int(Int { value: 24, location: at(12) });

    assert_eq!(term, result);
}

#[test]
fn eval_add() {
    for (a, b, expect) in [(1, 1, 2), (1, -1, 0), (-1, -1, -2), (1, i32::MAX, i32::MIN)] {
        assert_eq!(run(binary(num(a), BinaryOp::Add, num(b))), num(expect));
    }
}

#[test]
fn eval_sub() {
    for (a, b, expect) in [(1, 1, 0), (1, -1, 2), (-1, -1, 0), (-1, i32::MAX, i32::MIN)] {
        assert_eq!(run(binary(num(a), BinaryOp::Sub, num(b))), num(expect));
    }
}

#[test]
fn eval_mul() {
    for (a, b, expect) in [(2, 1, 2), (1, -1, -1), (-1, -1, 1), (2, i32::MAX, -2)] {
        assert_eq!(run(binary(num(a), BinaryOp::Mul, num(b))), num(expect));
    }
}

#[test]
fn eval_div() {
    for (a, b, expect) in [(2, 2, 1), (1, -1, -1), (-1, -1, 1), (2, i32::MAX, 0)] {
        assert_eq!(run(binary(num(a), BinaryOp::Div, num(b))), num(expect));
    }
}

#[test]
fn eval_rem() {
    for (a, b, expect) in [(0, 2, 0), (1, 2, 1), (2, 2, 0), (3, 2, 1)] {
        assert_eq!(run(binary(num(a), BinaryOp::Rem, num(b))), num(expect));
    }
}

#[test]
fn eval_eq_int() {
    for (a, b, expect) in [(1, 1, true), (1, 2, false)] {
        assert_eq!(run(binary(num(a), BinaryOp::Eq, num(b))), boolean(expect));
    }
}

#[test]
fn eval_eq_bool() {
    for (a, b, expect) in [(true, true, true), (true, false, false)] {
        assert_eq!(run(binary(boolean(a), BinaryOp::Eq, boolean(b))), boolean(expect));
    }
}

#[test]
fn eval_neq_int() {
    for (a, b, expect) in [(1, 1, false), (1, 2, true)] {
        assert_eq!(run(binary(num(a), BinaryOp::Neq, num(b))), boolean(expect));
    }
}

#[test]
fn eval_neq_bool() {
    for (a, b, expect) in [(true, true, false), (true, false, true)] {
        assert_eq!(run(binary(boolean(a), BinaryOp::Neq, boolean(b))), boolean(expect));
    }
}

#[test]
fn eval_lt() {
    for (a, b, expect) in [(1, 1, false), (2, 1, false), (1, 2, true)] {
        assert_eq!(run(binary(num(a), BinaryOp::Lt, num(b))), boolean(expect));
    }
}

#[test]
fn eval_gt() {
    for (a, b, expect) in [(1, 1, false), (2, 1, true), (1, 2, false)] {
        assert_eq!(run(binary(num(a), BinaryOp::Gt, num(b))), boolean(expect));
    }
}

#[test]
fn eval_lte() {
    for (a, b, expect) in [(1, 1, true), (2, 1, false), (1, 2, true)] {
        assert_eq!(run(binary(num(a), BinaryOp::Lte, num(b))), boolean(expect));
    }
}

#[test]
fn eval_gte() {
    for (a, b, expect) in [(1, 1, true), (2, 1, true), (1, 2, false)] {
        assert_eq!(run(binary(num(a), BinaryOp::Gte, num(b))), boolean(expect));
    }
}

#[test]
fn eval_or() {
    for (a, b, expect) in [
        (false, false, false),
        (false, true, true),
        (true, false, true),
        (true, true, true),
    ] {
        assert_eq!(run(binary(boolean(a), BinaryOp::Or, boolean(b))), boolean(expect));
    }
}

#[test]
fn eval_and() {
    for (a, b, expect) in [
        (false, false, false),
        (false, true, false),
        (true, false, false),
        (true, true, true),
    ] {
        assert_eq!(run(binary(boolean(a), BinaryOp::And, boolean(b))), boolean(expect));
    }
}

#[test]
fn first_write_wins() {
    let term = let_in("x", num(1), let_in("x", num(2), Term::Var(var("x"))));
    assert_eq!(run(term), num(1));
}

#[test]
fn discard_binding_not_stored() {
    let term = let_in("_", num(1), Term::Var(var("_")));
    let expected = error_term("Undefined variable", "Undefined variable \"_\"");
    assert_eq!(run(term), expected);
}

#[test]
fn arity_mismatch_names_both_counts() {
    let term = call(lambda(&["a", "b"], Term::Var(var("a"))), vec![num(1)]);
    let expected = error_term("Argument count mismatch", "Expected 2 arguments, found 1");
    assert_eq!(run(term), expected);
}

#[test]
fn arity_mismatch_too_many() {
    let term = call(lambda(&["a"], Term::Var(var("a"))), vec![num(1), num(2)]);
    let expected = error_term("Argument count mismatch", "Expected 1 arguments, found 2");
    assert_eq!(run(term), expected);
}

#[test]
fn print_tuple_is_not_first_class() {
    let term = Term::Print(Print { value: Box::new(pair(num(1), num(2))), location: loc() });
    let mut ev = Evaluator::new();
    let result = ev.eval(0, term, FUEL).unwrap();
    let expected = error_term("Unexpected term", "The term is not a first class value");
    assert_eq!(result, expected);
    assert!(ev.output.is_empty());
}

#[test]
fn int_plus_bool_is_type_mismatch() {
    let term = binary(num(1), BinaryOp::Add, boolean(true));
    let expected = error_term("Unexpected right operand", "Expected operand of type \"Int\"");
    assert_eq!(run(term), expected);
}

#[test]
fn bool_plus_int_is_left_mismatch() {
    let term = binary(boolean(true), BinaryOp::Add, num(1));
    let expected = error_term("Unexpected left operand", "Expected operand of type \"Int\"");
    assert_eq!(run(term), expected);
}

#[test]
fn or_needs_bool_operands() {
    let term = binary(boolean(true), BinaryOp::Or, num(1));
    let expected = error_term("Unexpected right operand", "Expected operand of type \"Bool\"");
    assert_eq!(run(term), expected);
}

#[test]
fn values_evaluate_to_themselves() {
    let cases = vec![
        num(-7),
        string("hello"),
        boolean(true),
        lambda(&["x"], Term::Var(var("x"))),
        error_term("Some error", "details"),
        pair(num(1), string("two")),
    ];
    for term in cases {
        assert_eq!(run(term.clone()), term);
    }
}

#[test]
fn division_by_zero_is_an_error() {
    let term = binary(num(1), BinaryOp::Div, num(0));
    let expected = error_term("Division by zero", "The divisor is zero");
    assert_eq!(run(term), expected);
    let term = binary(num(1), BinaryOp::Rem, num(0));
    let expected = error_term("Division by zero", "The divisor is zero");
    assert_eq!(run(term), expected);
}

#[test]
fn division_truncates_and_wraps() {
    assert_eq!(run(binary(num(7), BinaryOp::Div, num(-2))), num(-3));
    assert_eq!(run(binary(num(-7), BinaryOp::Div, num(2))), num(-3));
    assert_eq!(run(binary(num(-7), BinaryOp::Div, num(-2))), num(3));
    assert_eq!(run(binary(num(i32::MIN), BinaryOp::Div, num(-1))), num(i32::MIN));
    assert_eq!(run(binary(num(-7), BinaryOp::Rem, num(2))), num(-1));
    assert_eq!(run(binary(num(7), BinaryOp::Rem, num(-2))), num(1));
    assert_eq!(run(binary(num(i32::MIN), BinaryOp::Rem, num(-1))), num(0));
}

#[test]
fn print_writes_textual_forms() {
    let mut ev = Evaluator::new();
    let result = ev
        .eval(0, Term::Print(Print { value: Box::new(num(42)), location: loc() }), FUEL)
        .unwrap();
    assert_eq!(result, num(42));
    let result = ev
        .eval(0, Term::Print(Print { value: Box::new(num(-123)), location: loc() }), FUEL)
        .unwrap();
    assert_eq!(result, num(-123));
    ev.eval(0, Term::Print(Print { value: Box::new(string("hello")), location: loc() }), FUEL)
        .unwrap();
    ev.eval(0, Term::Print(Print { value: Box::new(boolean(true)), location: loc() }), FUEL)
        .unwrap();
    ev.eval(
        0,
        Term::Print(Print {
            value: Box::new(lambda(&["x"], Term::Var(var("x")))),
            location: loc(),
        }),
        FUEL,
    )
    .unwrap();
    let lines: Vec<&str> = ev.output.iter().map(|s| s.as_str()).collect();
    assert_eq!(lines, vec!["42", "-123", "hello", "true", "<function>"]);
}

#[test]
fn print_error_passes_through_unprinted() {
    let mut ev = Evaluator::new();
    let term = Term::Print(Print { value: Box::new(Term::Var(var("nope"))), location: loc() });
    let result = ev.eval(0, term, FUEL).unwrap();
    assert_eq!(result, error_term("Undefined variable", "Undefined variable \"nope\""));
    assert!(ev.output.is_empty());
}

#[test]
fn undefined_variable_is_reported() {
    let expected = error_term("Undefined variable", "Undefined variable \"nope\"");
    assert_eq!(run(Term::Var(var("nope"))), expected);
}

#[test]
fn condition_must_be_bool() {
    let term = Term::If(If {
        condition: Box::new(num(1)),
        then_branch: Box::new(num(2)),
        otherwise: Box::new(num(3)),
        location: loc(),
    });
    let expected = error_term("Unexpected term", "Expected condition of type \"Bool\"");
    assert_eq!(run(term), expected);
}

#[test]
fn callee_must_be_function() {
    let term = call(num(1), vec![]);
    let expected = error_term("Unexpected term", "Expected function body or reference");
    assert_eq!(run(term), expected);
}

#[test]
fn projections_need_tuples() {
    let term = Term::First(First { value: Box::new(num(1)), location: loc() });
    let expected = error_term("Unexpected term", "The first function expects a tuple");
    assert_eq!(run(term), expected);
    let term = Term::Second(Second { value: Box::new(num(1)), location: loc() });
    let expected = error_term("Unexpected term", "The second function expects a tuple");
    assert_eq!(run(term), expected);
}

#[test]
fn equality_compares_locations_too() {
    let one_here = Term::Int(Int { value: 1, location: Location::new(0, 0, "") });
    let one_there = Term::Int(Int { value: 1, location: Location::new(5, 6, "") });
    assert_eq!(run(binary(one_here, BinaryOp::Eq, one_there)), boolean(false));
}

#[test]
fn left_error_short_circuits_typed_operators() {
    let mut ev = Evaluator::new();
    let rhs = Term::Print(Print { value: Box::new(num(9)), location: loc() });
    let term = binary(Term::Var(var("nope")), BinaryOp::Add, rhs);
    let result = ev.eval(0, term, FUEL).unwrap();
    assert_eq!(result, error_term("Undefined variable", "Undefined variable \"nope\""));
    assert!(ev.output.is_empty());
}

#[test]
fn equality_does_not_short_circuit_errors() {
    let term = binary(Term::Var(var("nope")), BinaryOp::Eq, Term::Var(var("nope")));
    assert_eq!(run(term), boolean(true));
}

#[test]
fn runaway_recursion_exhausts_fuel() {
    let term = let_in(
        "spin",
        lambda(&[], call(Term::Var(var("spin")), vec![])),
        call(Term::Var(var("spin")), vec![]),
    );
    let mut ev = Evaluator::new();
    assert!(ev.eval(0, term, 50).is_none());
}

#[test]
fn dynamic_scoping_resolves_at_call_site() {
    let term = let_in(
        "f",
        lambda(&[], Term::Var(var("y"))),
        let_in("y", num(10), call(Term::Var(var("f")), vec![])),
    );
    assert_eq!(run(term), num(10));
}

#[test]
fn arguments_see_earlier_parameters() {
    let term = call(
        lambda(&["a", "b"], Term::Var(var("b"))),
        vec![num(1), Term::Var(var("a"))],
    );
    assert_eq!(run(term), num(1));
}

#[test]
fn env_first_write_wins() {
    let mut env = Env::new();
    assert_eq!(env.set(0, "x", num(1)), None);
    assert_eq!(env.set(0, "x", num(2)), Some(num(2)));
    assert_eq!(env.get(0, "x"), Some(num(1)));
}

#[test]
fn env_lookup_walks_the_chain() {
    let mut env = Env::new();
    env.set(0, "x", num(1));
    let child = env.extend(0);
    assert_eq!(child, 1);
    assert_eq!(env.get(child, "x"), Some(num(1)));
    env.set(child, "x", num(2));
    assert_eq!(env.get(child, "x"), Some(num(2)));
    assert_eq!(env.get(0, "x"), Some(num(1)));
    assert_eq!(env.get(child, "y"), None);
}

#[test]
fn location_new_and_merge() {
    let a = Location::new(0, 5, "prog");
    let b = Location::new(5, 9, "prog");
    let merged = a.merge(b);
    assert_eq!(merged, Location::new(0, 9, "prog"));
}

#[test]
fn terms_carry_their_locations() {
    let t = Term::Int(Int { value: 3, location: Location::new(2, 4, "prog") });
    assert_eq!(t.location(), &Location::new(2, 4, "prog"));
    let v = Var { text: "x".into(), location: Location::new(7, 8, "prog") };
    assert_eq!(v.location(), &Location::new(7, 8, "prog"));
}

#[test]
fn error_constructor_is_idempotent() {
    let e = error_term("first", "first text");
    let wrapped = error(e.clone(), "second".to_string(), "second text".to_string());
    assert_eq!(wrapped, e);
    let t = Term::Int(Int { value: 1, location: Location::new(3, 4, "prog") });
    let wrapped = error(t, "msg".to_string(), "text".to_string());
    assert_eq!(
        wrapped,
        Term::Error(Error {
            message: "msg".to_string(),
            full_text: "text".to_string(),
            location: Location::new(3, 4, "prog"),
        })
    );
}

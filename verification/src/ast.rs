//! The term language: a closed set of node kinds, each carrying a source
//! location.  A `Term` is both syntax and run-time value.  Every node kind
//! also has a mathematical view (`TermV`), a ghost datatype over `Seq` and
//! `int`, which the contracts of the evaluator speak about.

use vstd::prelude::*;

verus! {

/// A source span: byte offsets into the named source file.
#[derive(Debug, PartialEq, Eq)]
pub struct Location {
    pub start: usize,
    pub end: usize,
    pub filename: String,
}

/// Mathematical view of a [`Location`].
pub struct LocV {
    pub start: nat,
    pub end: nat,
    pub filename: Seq<char>,
}

impl View for Location {
    type V = LocV;

    open spec fn view(&self) -> LocV {
        LocV { start: self.start as nat, end: self.end as nat, filename: self.filename@ }
    }
}

impl Location {
    pub fn new(start: usize, end: usize, filename: &str) -> (l: Location)
        ensures
            l@ == (LocV { start: start as nat, end: end as nat, filename: filename@ }),
    {
        Location { start, end, filename: filename.to_owned() }
    }

    /// Spans the region from the start of `self` to the end of `other`.
    /// Both spans must lie in the same file: locations are never merged
    /// across files.
    pub fn merge(self, other: Location) -> (l: Location)
        requires
            self@.filename == other@.filename,
        ensures
            l@ == (LocV { start: self@.start, end: other@.end, filename: self@.filename }),
    {
        Location { start: self.start, end: other.end, filename: self.filename }
    }
}

impl Default for Location {
    /// The empty span in the unnamed file.
    fn default() -> (l: Location)
        ensures
            l@ == (LocV { start: 0, end: 0, filename: Seq::<char>::empty() }),
    {
        Location { start: 0, end: 0, filename: String::new() }
    }
}

/// A whole input program: a name, a root expression and its span.
#[derive(Debug, PartialEq, Eq)]
pub struct File {
    pub name: String,
    pub expression: Term,
    pub location: Location,
}

/// Anything that carries a source location.
pub trait Element {
    spec fn spec_location(&self) -> LocV;

    fn location(&self) -> (l: &Location)
        ensures
            l@ == self.spec_location(),
    ;
}

impl<T: Element> Element for Box<T> {
    open spec fn spec_location(&self) -> LocV {
        (**self).spec_location()
    }

    fn location(&self) -> (l: &Location) {
        (**self).location()
    }
}

/// An in-language error value: evaluation failures are terms, not host
/// faults.
#[derive(Clone, Debug, PartialEq, Eq)]
pub struct Error {
    pub message: String,
    pub full_text: String,
    pub location: Location,
}

/// A variable reference.
#[derive(Debug, PartialEq, Eq)]
pub struct Var {
    pub text: String,
    pub location: Location,
}

/// Mathematical view of a [`Var`].
pub struct VarV {
    pub text: Seq<char>,
    pub location: LocV,
}

impl View for Var {
    type V = VarV;

    open spec fn view(&self) -> VarV {
        VarV { text: self.text@, location: self.location@ }
    }
}

/// A string literal.
#[derive(Clone, Debug, PartialEq, Eq)]
pub struct Str {
    pub value: String,
    pub location: Location,
}

/// A boolean literal.
#[derive(Clone, Debug, PartialEq, Eq)]
pub struct Bool {
    pub value: bool,
    pub location: Location,
}

/// A 32-bit signed integer literal.
#[derive(Clone, Debug, PartialEq, Eq)]
pub struct Int {
    pub value: i32,
    pub location: Location,
}

/// The thirteen binary operators.
#[derive(Copy, Clone, Debug, PartialEq, Eq)]
pub enum BinaryOp {
    Add,
    Sub,
    Mul,
    Div,
    Rem,
    Eq,
    Neq,
    Lt,
    Gt,
    Lte,
    Gte,
    And,
    Or,
}

/// A binary operation on two sub-terms.
#[derive(Debug, PartialEq, Eq)]
pub struct Binary {
    pub lhs: Box<Term>,
    pub op: BinaryOp,
    pub rhs: Box<Term>,
    pub location: Location,
}

/// A call of a callee on a list of arguments.
#[derive(Debug, PartialEq, Eq)]
pub struct Call {
    pub callee: Box<Term>,
    pub arguments: Vec<Term>,
    pub location: Location,
}

/// An anonymous function literal.
#[derive(Debug, PartialEq, Eq)]
pub struct Function {
    pub parameters: Vec<Var>,
    pub value: Box<Term>,
    pub location: Location,
}

/// Writes the textual form of its value to the output, then yields the
/// value.
#[derive(Debug, PartialEq, Eq)]
pub struct Print {
    pub value: Box<Term>,
    pub location: Location,
}

/// Projection of the first component of a tuple.
#[derive(Debug, PartialEq, Eq)]
pub struct First {
    pub value: Box<Term>,
    pub location: Location,
}

/// Projection of the second component of a tuple.
#[derive(Debug, PartialEq, Eq)]
pub struct Second {
    pub value: Box<Term>,
    pub location: Location,
}

/// A pair of sub-terms, evaluated eagerly left to right.
#[derive(Debug, PartialEq, Eq)]
pub struct Tuple {
    pub first: Box<Term>,
    pub second: Box<Term>,
    pub location: Location,
}

/// A binding: evaluates `value`, stores it under `name` in the current
/// frame (unless the name is the discard identifier `_`), then evaluates
/// `next`.
#[derive(Debug, PartialEq, Eq)]
pub struct Let {
    pub name: Var,
    pub value: Box<Term>,
    pub next: Box<Term>,
    pub location: Location,
}

/// A conditional: the condition must reduce to a boolean.
#[derive(Debug, PartialEq, Eq)]
pub struct If {
    pub condition: Box<Term>,
    pub then_branch: Box<Term>,
    pub otherwise: Box<Term>,
    pub location: Location,
}

/// A node of the expression tree.  `Int`, `Str`, `Bool`, `Function` and
/// `Error` are the fully reduced values, together with tuples of values.
#[derive(Debug, PartialEq, Eq)]
pub enum Term {
    Error(Error),
    Int(Int),
    Str(Str),
    Call(Call),
    Binary(Binary),
    Function(Function),
    Let(Let),
    If(If),
    Print(Print),
    First(First),
    Second(Second),
    Bool(Bool),
    Tuple(Tuple),
    Var(Var),
}

/// Mathematical view of a [`Term`].
pub enum TermV {
    Error { message: Seq<char>, full_text: Seq<char>, location: LocV },
    Int { value: i32, location: LocV },
    Str { value: Seq<char>, location: LocV },
    Call { callee: Box<TermV>, arguments: Seq<TermV>, location: LocV },
    Binary { lhs: Box<TermV>, op: BinaryOp, rhs: Box<TermV>, location: LocV },
    Function { parameters: Seq<VarV>, body: Box<TermV>, location: LocV },
    Let { name: VarV, value: Box<TermV>, next: Box<TermV>, location: LocV },
    If { condition: Box<TermV>, then_branch: Box<TermV>, otherwise: Box<TermV>, location: LocV },
    Print { value: Box<TermV>, location: LocV },
    First { value: Box<TermV>, location: LocV },
    Second { value: Box<TermV>, location: LocV },
    Bool { value: bool, location: LocV },
    Tuple { first: Box<TermV>, second: Box<TermV>, location: LocV },
    Var { text: Seq<char>, location: LocV },
}

/// The view of a term, recursively over its children.
pub open spec fn term_view(t: Term) -> TermV
    decreases t,
{
    match t {
        Term::Error(n) => TermV::Error {
            message: n.message@,
            full_text: n.full_text@,
            location: n.location@,
        },
        Term::Int(n) => TermV::Int { value: n.value, location: n.location@ },
        Term::Str(n) => TermV::Str { value: n.value@, location: n.location@ },
        Term::Call(n) => TermV::Call {
            callee: Box::new(term_view(*n.callee)),
            arguments: terms_view(n.arguments@),
            location: n.location@,
        },
        Term::Binary(n) => TermV::Binary {
            lhs: Box::new(term_view(*n.lhs)),
            op: n.op,
            rhs: Box::new(term_view(*n.rhs)),
            location: n.location@,
        },
        Term::Function(n) => TermV::Function {
            parameters: n.parameters@.map_values(|v: Var| v@),
            body: Box::new(term_view(*n.value)),
            location: n.location@,
        },
        Term::Let(n) => TermV::Let {
            name: n.name@,
            value: Box::new(term_view(*n.value)),
            next: Box::new(term_view(*n.next)),
            location: n.location@,
        },
        Term::If(n) => TermV::If {
            condition: Box::new(term_view(*n.condition)),
            then_branch: Box::new(term_view(*n.then_branch)),
            otherwise: Box::new(term_view(*n.otherwise)),
            location: n.location@,
        },
        Term::Print(n) => TermV::Print {
            value: Box::new(term_view(*n.value)),
            location: n.location@,
        },
        Term::First(n) => TermV::First {
            value: Box::new(term_view(*n.value)),
            location: n.location@,
        },
        Term::Second(n) => TermV::Second {
            value: Box::new(term_view(*n.value)),
            location: n.location@,
        },
        Term::Bool(n) => TermV::Bool { value: n.value, location: n.location@ },
        Term::Tuple(n) => TermV::Tuple {
            first: Box::new(term_view(*n.first)),
            second: Box::new(term_view(*n.second)),
            location: n.location@,
        },
        Term::Var(n) => TermV::Var { text: n.text@, location: n.location@ },
    }
}

/// The views of a sequence of terms, element by element.
pub open spec fn terms_view(s: Seq<Term>) -> Seq<TermV>
    decreases s,
{
    if s.len() == 0 {
        Seq::<TermV>::empty()
    } else {
        seq![term_view(s[0])] + terms_view(s.drop_first())
    }
}

impl View for Term {
    type V = TermV;

    open spec fn view(&self) -> TermV {
        term_view(*self)
    }
}

/// `terms_view` maps the view over the sequence pointwise.
pub proof fn lemma_terms_view(s: Seq<Term>)
    ensures
        terms_view(s).len() == s.len(),
        forall|i: int| 0 <= i < s.len() ==> terms_view(s)[i] == term_view(s[i]),
    decreases s,
{
    if s.len() > 0 {
        lemma_terms_view(s.drop_first());
    }
}

/// The source location attached to a term's view.
pub open spec fn loc_of(t: TermV) -> LocV {
    match t {
        TermV::Error { location, .. } => location,
        TermV::Int { location, .. } => location,
        TermV::Str { location, .. } => location,
        TermV::Call { location, .. } => location,
        TermV::Binary { location, .. } => location,
        TermV::Function { location, .. } => location,
        TermV::Let { location, .. } => location,
        TermV::If { location, .. } => location,
        TermV::Print { location, .. } => location,
        TermV::First { location, .. } => location,
        TermV::Second { location, .. } => location,
        TermV::Bool { location, .. } => location,
        TermV::Tuple { location, .. } => location,
        TermV::Var { location, .. } => location,
    }
}

impl Location {
    /// Whether two locations denote the same span of the same file.
    pub fn same_as(&self, other: &Location) -> (r: bool)
        ensures
            r == (self@ == other@),
    {
        self.start == other.start && self.end == other.end && self.filename.eq(&other.filename)
    }
}

impl Term {
    /// Whole-value equality, the comparison `Eq` and `Neq` make: kind,
    /// stored values and locations, recursively through children.
    pub fn deep_eq(&self, other: &Term) -> (r: bool)
        ensures
            r == (self@ == other@),
        decreases *self,
    {
        match (self, other) {
            (Term::Error(a), Term::Error(b)) => a.message.eq(&b.message) && a.full_text.eq(
                &b.full_text,
            ) && a.location.same_as(&b.location),
            (Term::Int(a), Term::Int(b)) => a.value == b.value && a.location.same_as(&b.location),
            (Term::Str(a), Term::Str(b)) => a.value.eq(&b.value) && a.location.same_as(
                &b.location,
            ),
            (Term::Bool(a), Term::Bool(b)) => a.value == b.value && a.location.same_as(
                &b.location,
            ),
            (Term::Var(a), Term::Var(b)) => a.text.eq(&b.text) && a.location.same_as(&b.location),
            (Term::Call(a), Term::Call(b)) => (&*a.callee).deep_eq(&*b.callee) && terms_eq(
                &a.arguments,
                &b.arguments,
            ) && a.location.same_as(&b.location),
            (Term::Binary(a), Term::Binary(b)) => binary_op_eq(a.op, b.op) && (&*a.lhs).deep_eq(
                &*b.lhs,
            ) && (&*a.rhs).deep_eq(&*b.rhs) && a.location.same_as(&b.location),
            (Term::Function(a), Term::Function(b)) => vars_eq(&a.parameters, &b.parameters) && (
            &*a.value).deep_eq(&*b.value) && a.location.same_as(&b.location),
            (Term::Let(a), Term::Let(b)) => a.name.text.eq(&b.name.text) && a.name.location.same_as(
                &b.name.location,
            ) && (&*a.value).deep_eq(&*b.value) && (&*a.next).deep_eq(&*b.next)
                && a.location.same_as(&b.location),
            (Term::If(a), Term::If(b)) => (&*a.condition).deep_eq(&*b.condition) && (
            &*a.then_branch).deep_eq(&*b.then_branch) && (&*a.otherwise).deep_eq(&*b.otherwise)
                && a.location.same_as(&b.location),
            (Term::Print(a), Term::Print(b)) => (&*a.value).deep_eq(&*b.value)
                && a.location.same_as(&b.location),
            (Term::First(a), Term::First(b)) => (&*a.value).deep_eq(&*b.value)
                && a.location.same_as(&b.location),
            (Term::Second(a), Term::Second(b)) => (&*a.value).deep_eq(&*b.value)
                && a.location.same_as(&b.location),
            (Term::Tuple(a), Term::Tuple(b)) => (&*a.first).deep_eq(&*b.first) && (
            &*a.second).deep_eq(&*b.second) && a.location.same_as(&b.location),
            _ => false,
        }
    }
}

/// Whether two operator tags are the same operator.
fn binary_op_eq(a: BinaryOp, b: BinaryOp) -> (r: bool)
    ensures
        r == (a == b),
{
    match (a, b) {
        (BinaryOp::Add, BinaryOp::Add) => true,
        (BinaryOp::Sub, BinaryOp::Sub) => true,
        (BinaryOp::Mul, BinaryOp::Mul) => true,
        (BinaryOp::Div, BinaryOp::Div) => true,
        (BinaryOp::Rem, BinaryOp::Rem) => true,
        (BinaryOp::Eq, BinaryOp::Eq) => true,
        (BinaryOp::Neq, BinaryOp::Neq) => true,
        (BinaryOp::Lt, BinaryOp::Lt) => true,
        (BinaryOp::Gt, BinaryOp::Gt) => true,
        (BinaryOp::Lte, BinaryOp::Lte) => true,
        (BinaryOp::Gte, BinaryOp::Gte) => true,
        (BinaryOp::And, BinaryOp::And) => true,
        (BinaryOp::Or, BinaryOp::Or) => true,
        _ => false,
    }
}

/// Elementwise whole-value equality of two term lists.
fn terms_eq(a: &Vec<Term>, b: &Vec<Term>) -> (r: bool)
    ensures
        r == (terms_view(a@) == terms_view(b@)),
    decreases a@,
{
    proof {
        lemma_terms_view(a@);
        lemma_terms_view(b@);
    }
    if a.len() != b.len() {
        return false;
    }
    let mut i: usize = 0;
    while i < a.len()
        invariant
            a@.len() == b@.len(),
            i <= a@.len(),
            forall|j: int| 0 <= j < i ==> term_view(a@[j]) == term_view(b@[j]),
        decreases a@.len() - i,
    {
        proof {
            assert(decreases_to!(a@ => a@[i as int]));
        }
        if !a[i].deep_eq(&b[i]) {
            proof {
                lemma_terms_view(a@);
                lemma_terms_view(b@);
                assert(terms_view(a@)[i as int] != terms_view(b@)[i as int]);
            }
            return false;
        }
        i = i + 1;
    }
    proof {
        lemma_terms_view(a@);
        lemma_terms_view(b@);
        assert(terms_view(a@) =~= terms_view(b@));
    }
    true
}

/// Elementwise whole-value equality of two parameter lists.
fn vars_eq(a: &Vec<Var>, b: &Vec<Var>) -> (r: bool)
    ensures
        r == (a@.map_values(|v: Var| v@) == b@.map_values(|v: Var| v@)),
{
    if a.len() != b.len() {
        proof {
            assert(a@.map_values(|v: Var| v@).len() != b@.map_values(|v: Var| v@).len());
        }
        return false;
    }
    let mut i: usize = 0;
    while i < a.len()
        invariant
            a@.len() == b@.len(),
            i <= a@.len(),
            forall|j: int| 0 <= j < i ==> a@[j]@ == b@[j]@,
        decreases a@.len() - i,
    {
        let av = &a[i];
        let bv = &b[i];
        if !(av.text.eq(&bv.text) && av.location.same_as(&bv.location)) {
            proof {
                assert(a@.map_values(|v: Var| v@)[i as int] != b@.map_values(|v: Var| v@)[
                    i as int
                ]);
            }
            return false;
        }
        i = i + 1;
    }
    proof {
        assert(a@.map_values(|v: Var| v@) =~= b@.map_values(|v: Var| v@));
    }
    true
}

impl Element for Error {
    open spec fn spec_location(&self) -> LocV {
        self.location@
    }

    fn location(&self) -> (l: &Location) {
        &self.location
    }
}

impl Element for Var {
    open spec fn spec_location(&self) -> LocV {
        self.location@
    }

    fn location(&self) -> (l: &Location) {
        &self.location
    }
}

impl Element for Str {
    open spec fn spec_location(&self) -> LocV {
        self.location@
    }

    fn location(&self) -> (l: &Location) {
        &self.location
    }
}

impl Element for Bool {
    open spec fn spec_location(&self) -> LocV {
        self.location@
    }

    fn location(&self) -> (l: &Location) {
        &self.location
    }
}

impl Element for Int {
    open spec fn spec_location(&self) -> LocV {
        self.location@
    }

    fn location(&self) -> (l: &Location) {
        &self.location
    }
}

impl Element for Binary {
    open spec fn spec_location(&self) -> LocV {
        self.location@
    }

    fn location(&self) -> (l: &Location) {
        &self.location
    }
}

impl Element for Call {
    open spec fn spec_location(&self) -> LocV {
        self.location@
    }

    fn location(&self) -> (l: &Location) {
        &self.location
    }
}

impl Element for Function {
    open spec fn spec_location(&self) -> LocV {
        self.location@
    }

    fn location(&self) -> (l: &Location) {
        &self.location
    }
}

impl Element for Print {
    open spec fn spec_location(&self) -> LocV {
        self.location@
    }

    fn location(&self) -> (l: &Location) {
        &self.location
    }
}

impl Element for First {
    open spec fn spec_location(&self) -> LocV {
        self.location@
    }

    fn location(&self) -> (l: &Location) {
        &self.location
    }
}

impl Element for Second {
    open spec fn spec_location(&self) -> LocV {
        self.location@
    }

    fn location(&self) -> (l: &Location) {
        &self.location
    }
}

impl Element for Tuple {
    open spec fn spec_location(&self) -> LocV {
        self.location@
    }

    fn location(&self) -> (l: &Location) {
        &self.location
    }
}

impl Element for Let {
    open spec fn spec_location(&self) -> LocV {
        self.location@
    }

    fn location(&self) -> (l: &Location) {
        &self.location
    }
}

impl Element for If {
    open spec fn spec_location(&self) -> LocV {
        self.location@
    }

    fn location(&self) -> (l: &Location) {
        &self.location
    }
}

impl Clone for Location {
    fn clone(&self) -> (res: Location)
        ensures
            res@ == self@,
    {
        Location { start: self.start, end: self.end, filename: self.filename.clone() }
    }
}

impl Clone for Var {
    fn clone(&self) -> (res: Var)
        ensures
            res@ == self@,
    {
        Var { text: self.text.clone(), location: self.location.clone() }
    }
}

impl Clone for Term {
    /// A deep copy; views are preserved exactly.
    fn clone(&self) -> (res: Term)
        ensures
            res@ == self@,
        decreases *self,
    {
        match self {
            Term::Error(n) => Term::Error(
                Error {
                    message: n.message.clone(),
                    full_text: n.full_text.clone(),
                    location: n.location.clone(),
                },
            ),
            Term::Int(n) => Term::Int(Int { value: n.value, location: n.location.clone() }),
            Term::Str(n) => Term::Str(
                Str { value: n.value.clone(), location: n.location.clone() },
            ),
            Term::Call(n) => {
                let callee = Box::new((&*n.callee).clone());
                let arguments = clone_terms(&n.arguments);
                proof {
                    lemma_terms_view(arguments@);
                    lemma_terms_view(n.arguments@);
                    assert(terms_view(arguments@) =~= terms_view(n.arguments@));
                }
                Term::Call(Call { callee, arguments, location: n.location.clone() })
            },
            Term::Binary(n) => Term::Binary(
                Binary {
                    lhs: Box::new((&*n.lhs).clone()),
                    op: n.op,
                    rhs: Box::new((&*n.rhs).clone()),
                    location: n.location.clone(),
                },
            ),
            Term::Function(n) => {
                let parameters = clone_vars(&n.parameters);
                proof {
                    assert(parameters@.map_values(|v: Var| v@) =~= n.parameters@.map_values(
                        |v: Var| v@,
                    ));
                }
                Term::Function(
                    Function {
                        parameters,
                        value: Box::new((&*n.value).clone()),
                        location: n.location.clone(),
                    },
                )
            },
            Term::Let(n) => Term::Let(
                Let {
                    name: n.name.clone(),
                    value: Box::new((&*n.value).clone()),
                    next: Box::new((&*n.next).clone()),
                    location: n.location.clone(),
                },
            ),
            Term::If(n) => Term::If(
                If {
                    condition: Box::new((&*n.condition).clone()),
                    then_branch: Box::new((&*n.then_branch).clone()),
                    otherwise: Box::new((&*n.otherwise).clone()),
                    location: n.location.clone(),
                },
            ),
            Term::Print(n) => Term::Print(
                Print { value: Box::new((&*n.value).clone()), location: n.location.clone() },
            ),
            Term::First(n) => Term::First(
                First { value: Box::new((&*n.value).clone()), location: n.location.clone() },
            ),
            Term::Second(n) => Term::Second(
                Second { value: Box::new((&*n.value).clone()), location: n.location.clone() },
            ),
            Term::Bool(n) => Term::Bool(Bool { value: n.value, location: n.location.clone() }),
            Term::Tuple(n) => Term::Tuple(
                Tuple {
                    first: Box::new((&*n.first).clone()),
                    second: Box::new((&*n.second).clone()),
                    location: n.location.clone(),
                },
            ),
            Term::Var(n) => Term::Var(n.clone()),
        }
    }
}

/// Deep copies of every term of a list, in order.
fn clone_terms(v: &Vec<Term>) -> (res: Vec<Term>)
    ensures
        res@.len() == v@.len(),
        forall|i: int| 0 <= i < v@.len() ==> res@[i]@ == v@[i]@,
    decreases v@,
{
    let mut res: Vec<Term> = Vec::new();
    let mut i: usize = 0;
    while i < v.len()
        invariant
            i <= v@.len(),
            res@.len() == i,
            forall|j: int| 0 <= j < i ==> res@[j]@ == v@[j]@,
        decreases v@.len() - i,
    {
        proof {
            assert(decreases_to!(v@ => v@[i as int]));
        }
        res.push(v[i].clone());
        i = i + 1;
    }
    res
}

/// Deep copies of every variable of a list, in order.
fn clone_vars(v: &Vec<Var>) -> (res: Vec<Var>)
    ensures
        res@.len() == v@.len(),
        forall|i: int| 0 <= i < v@.len() ==> res@[i]@ == v@[i]@,
{
    let mut res: Vec<Var> = Vec::new();
    let mut i: usize = 0;
    while i < v.len()
        invariant
            i <= v@.len(),
            res@.len() == i,
            forall|j: int| 0 <= j < i ==> res@[j]@ == v@[j]@,
        decreases v@.len() - i,
    {
        res.push(v[i].clone());
        i = i + 1;
    }
    res
}

impl Element for Term {
    open spec fn spec_location(&self) -> LocV {
        loc_of(self@)
    }

    fn location(&self) -> (l: &Location) {
        match self {
            Term::Error(n) => &n.location,
            Term::Int(n) => &n.location,
            Term::Str(n) => &n.location,
            Term::Function(n) => &n.location,
            Term::Call(n) => &n.location,
            Term::Var(n) => &n.location,
            Term::Binary(n) => &n.location,
            Term::Print(n) => &n.location,
            Term::First(n) => &n.location,
            Term::Second(n) => &n.location,
            Term::Let(n) => &n.location,
            Term::If(n) => &n.location,
            Term::Bool(n) => &n.location,
            Term::Tuple(n) => &n.location,
        }
    }
}

} // verus!

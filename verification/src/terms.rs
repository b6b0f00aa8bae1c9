//! The expression data model: terms, values, operations and rules, together
//! with their mathematical views (`TermV`, `ValueV`, ...) and the structural
//! measures the recursive rewrite pass is proved to terminate by.
use vstd::prelude::*;

verus! {

/// An atomic variable or identifier name.
pub struct Symbol {
    pub name: String,
}

/// The closed set of operators. `Dot` is the lookup operator this pass
/// desugars; `And`, `Or` and `Not` are the logical contexts that force
/// immediate inlining of pending lookups; the rest pass through untouched
/// except for structural recursion into their arguments.
#[derive(Clone, Copy, PartialEq, Eq, Structural)]
pub enum Operator {
    Dot,
    Not,
    Mul,
    Div,
    Add,
    Sub,
    Geq,
    Leq,
    Neq,
    Gt,
    Lt,
    Unify,
    Or,
    And,
}

/// A compound node: an operator applied to an ordered sequence of terms.
pub struct Operation {
    pub operator: Operator,
    pub args: Vec<Term>,
}

/// One `key: value` entry of a dictionary or instance literal.
pub struct Field {
    pub key: Symbol,
    pub value: Term,
}

/// An instance literal, `Tag{field: value, ...}`.
pub struct Instance {
    pub tag: Symbol,
    pub fields: Vec<Field>,
}

/// A predicate call, `name(args...)`.
pub struct Predicate {
    pub name: Symbol,
    pub args: Vec<Term>,
}

/// The closed set of value variants a term can carry.
pub enum Value {
    Number(i64),
    Str(String),
    Boolean(bool),
    Symbol(Symbol),
    List(Vec<Term>),
    Dictionary(Vec<Field>),
    InstanceLiteral(Instance),
    Call(Predicate),
    Expression(Operation),
}

/// A node of the expression tree: an identity (0 is the "unassigned"
/// sentinel) and a value. A term's identity, once assigned, never changes.
pub struct Term {
    pub id: u64,
    pub value: Value,
}

/// A rule parameter: a plain parameter, a bare specializer pattern, or a
/// parameter constrained by a specializer.
pub struct Parameter {
    pub parameter: Option<Term>,
    pub specializer: Option<Term>,
}

/// A rule: a name, ordered parameters, and a body term.
pub struct Rule {
    pub name: Symbol,
    pub params: Vec<Parameter>,
    pub body: Term,
}

impl Term {
    /// A structural clone that substitutes a new value while keeping the
    /// identity, used to carry provenance onto derived terms.
    pub fn clone_with_value(&self, value: Value) -> (t: Term)
        ensures
            t@ == (TermV { id: self.id, value: value@ }),
    {
        Term { id: self.id, value }
    }
}

// ---------------------------------------------------------------------------
// Mathematical views
// ---------------------------------------------------------------------------

/// View of a field: key name and term view.
pub struct FieldV {
    pub key: Seq<char>,
    pub value: TermV,
}

/// View of a value.
pub enum ValueV {
    Number(i64),
    Str(Seq<char>),
    Boolean(bool),
    Symbol(Seq<char>),
    List(Seq<TermV>),
    Dictionary(Seq<FieldV>),
    InstanceLiteral { tag: Seq<char>, fields: Seq<FieldV> },
    Call { name: Seq<char>, args: Seq<TermV> },
    Expression { operator: Operator, args: Seq<TermV> },
}

/// View of a term.
pub struct TermV {
    pub id: u64,
    pub value: ValueV,
}

/// View of a parameter.
pub struct ParameterV {
    pub parameter: Option<TermV>,
    pub specializer: Option<TermV>,
}

/// View of a rule.
pub struct RuleV {
    pub name: Seq<char>,
    pub params: Seq<ParameterV>,
    pub body: TermV,
}

pub open spec fn term_view(t: Term) -> TermV
    decreases t,
{
    TermV { id: t.id, value: value_view(t.value) }
}

pub open spec fn value_view(v: Value) -> ValueV
    decreases v,
{
    match v {
        Value::Number(n) => ValueV::Number(n),
        Value::Str(s) => ValueV::Str(s@),
        Value::Boolean(b) => ValueV::Boolean(b),
        Value::Symbol(s) => ValueV::Symbol(s.name@),
        Value::List(l) => ValueV::List(terms_view(l@)),
        Value::Dictionary(f) => ValueV::Dictionary(fields_view(f@)),
        Value::InstanceLiteral(i) => ValueV::InstanceLiteral {
            tag: i.tag.name@,
            fields: fields_view(i.fields@),
        },
        Value::Call(p) => ValueV::Call { name: p.name.name@, args: terms_view(p.args@) },
        Value::Expression(op) => ValueV::Expression {
            operator: op.operator,
            args: terms_view(op.args@),
        },
    }
}

pub open spec fn terms_view(s: Seq<Term>) -> Seq<TermV>
    decreases s,
{
    if s.len() == 0 {
        Seq::empty()
    } else {
        seq![term_view(s[0])] + terms_view(s.drop_first())
    }
}

pub open spec fn fields_view(s: Seq<Field>) -> Seq<FieldV>
    decreases s,
{
    if s.len() == 0 {
        Seq::empty()
    } else {
        seq![FieldV { key: s[0].key.name@, value: term_view(s[0].value) }] + fields_view(
            s.drop_first(),
        )
    }
}

pub open spec fn values_view(s: Seq<Value>) -> Seq<ValueV>
    decreases s,
{
    if s.len() == 0 {
        Seq::empty()
    } else {
        seq![value_view(s[0])] + values_view(s.drop_first())
    }
}

pub open spec fn opt_term_view(o: Option<Term>) -> Option<TermV> {
    match o {
        Option::Some(t) => Option::Some(term_view(t)),
        Option::None => Option::None,
    }
}

impl View for Term {
    type V = TermV;

    open spec fn view(&self) -> TermV {
        term_view(*self)
    }
}

impl View for Value {
    type V = ValueV;

    open spec fn view(&self) -> ValueV {
        value_view(*self)
    }
}

impl View for Parameter {
    type V = ParameterV;

    open spec fn view(&self) -> ParameterV {
        ParameterV {
            parameter: opt_term_view(self.parameter),
            specializer: opt_term_view(self.specializer),
        }
    }
}

pub open spec fn params_view(s: Seq<Parameter>) -> Seq<ParameterV>
    decreases s,
{
    if s.len() == 0 {
        Seq::empty()
    } else {
        seq![s[0]@] + params_view(s.drop_first())
    }
}

impl View for Rule {
    type V = RuleV;

    open spec fn view(&self) -> RuleV {
        RuleV { name: self.name.name@, params: params_view(self.params@), body: self.body@ }
    }
}

// ---------------------------------------------------------------------------
// Operator classes
// ---------------------------------------------------------------------------

/// The operators whose arguments must have their pending lookups inlined
/// immediately, to preserve short-circuiting and left-to-right order.
pub open spec fn spec_is_logical(op: Operator) -> bool {
    op == Operator::And || op == Operator::Or || op == Operator::Not
}

// ---------------------------------------------------------------------------
// Structural measures: size and count of two-argument Dot expressions
// ---------------------------------------------------------------------------

pub open spec fn tsize(t: TermV) -> nat
    decreases t,
{
    1 + vsize(t.value)
}

pub open spec fn vsize(v: ValueV) -> nat
    decreases v,
{
    match v {
        ValueV::List(l) => ssize(l),
        ValueV::Dictionary(f) => fsize(f),
        ValueV::InstanceLiteral { tag: _, fields } => fsize(fields),
        ValueV::Call { name: _, args } => ssize(args),
        ValueV::Expression { operator: _, args } => ssize(args),
        _ => 0,
    }
}

pub open spec fn ssize(s: Seq<TermV>) -> nat
    decreases s,
{
    if s.len() == 0 {
        0
    } else {
        1 + tsize(s[0]) + ssize(s.drop_first())
    }
}

pub open spec fn fsize(s: Seq<FieldV>) -> nat
    decreases s,
{
    if s.len() == 0 {
        0
    } else {
        1 + tsize(s[0].value) + fsize(s.drop_first())
    }
}

/// The number of two-argument `Dot` expressions in a term.
pub open spec fn d2t(t: TermV) -> nat
    decreases t,
{
    d2v(t.value)
}

pub open spec fn d2v(v: ValueV) -> nat
    decreases v,
{
    match v {
        ValueV::List(l) => d2s(l),
        ValueV::Dictionary(f) => d2f(f),
        ValueV::InstanceLiteral { tag: _, fields } => d2f(fields),
        ValueV::Call { name: _, args } => d2s(args),
        ValueV::Expression { operator, args } => if operator == Operator::Dot && args.len() == 2 {
            1 + d2s(args)
        } else {
            d2s(args)
        },
        _ => 0,
    }
}

pub open spec fn d2s(s: Seq<TermV>) -> nat
    decreases s,
{
    if s.len() == 0 {
        0
    } else {
        d2t(s[0]) + d2s(s.drop_first())
    }
}

pub open spec fn d2f(s: Seq<FieldV>) -> nat
    decreases s,
{
    if s.len() == 0 {
        0
    } else {
        d2t(s[0].value) + d2f(s.drop_first())
    }
}

// ---------------------------------------------------------------------------
// Measure lemmas
// ---------------------------------------------------------------------------

pub proof fn lemma_d2s_push(s: Seq<TermV>, t: TermV)
    ensures
        d2s(s.push(t)) == d2s(s) + d2t(t),
    decreases s.len(),
{
    if s.len() == 0 {
        assert(s.push(t)[0] == t);
        assert(s.push(t).drop_first() =~= Seq::<TermV>::empty());
        assert(d2s(s.push(t)) == d2t(t) + d2s(Seq::<TermV>::empty()));
        assert(d2s(Seq::<TermV>::empty()) == 0);
        assert(d2s(s) == 0);
    } else {
        assert(s.push(t).drop_first() =~= s.drop_first().push(t));
        assert(s.push(t)[0] == s[0]);
        lemma_d2s_push(s.drop_first(), t);
        assert(d2s(s.push(t)) == d2t(s[0]) + d2s(s.drop_first().push(t)));
        assert(d2s(s) == d2t(s[0]) + d2s(s.drop_first()));
    }
}

pub proof fn lemma_terms_view_push(s: Seq<Term>, t: Term)
    ensures
        terms_view(s.push(t)) == terms_view(s).push(t@),
    decreases s.len(),
{
    if s.len() == 0 {
        assert(s.push(t)[0] == t);
        assert(s.push(t).drop_first() =~= Seq::<Term>::empty());
        assert(terms_view(s.push(t)) == seq![t@] + terms_view(Seq::<Term>::empty()));
        assert(terms_view(Seq::<Term>::empty()) == Seq::<TermV>::empty());
        assert(terms_view(s) == Seq::<TermV>::empty());
        assert(terms_view(s.push(t)) =~= terms_view(s).push(t@));
    } else {
        assert(s.push(t).drop_first() =~= s.drop_first().push(t));
        assert(s.push(t)[0] == s[0]);
        lemma_terms_view_push(s.drop_first(), t);
        assert(terms_view(s.push(t)) == seq![s[0]@] + terms_view(s.drop_first().push(t)));
        assert(terms_view(s) == seq![s[0]@] + terms_view(s.drop_first()));
        assert(terms_view(s.push(t)) =~= terms_view(s).push(t@));
    }
}

pub proof fn lemma_values_view_push(s: Seq<Value>, v: Value)
    ensures
        values_view(s.push(v)) == values_view(s).push(v@),
    decreases s.len(),
{
    if s.len() == 0 {
        assert(s.push(v)[0] == v);
        assert(s.push(v).drop_first() =~= Seq::<Value>::empty());
        assert(values_view(s.push(v)) == seq![v@] + values_view(Seq::<Value>::empty()));
        assert(values_view(Seq::<Value>::empty()) == Seq::<ValueV>::empty());
        assert(values_view(s) == Seq::<ValueV>::empty());
        assert(values_view(s.push(v)) =~= values_view(s).push(v@));
    } else {
        assert(s.push(v).drop_first() =~= s.drop_first().push(v));
        assert(s.push(v)[0] == s[0]);
        lemma_values_view_push(s.drop_first(), v);
        assert(values_view(s.push(v)) == seq![s[0]@] + values_view(s.drop_first().push(v)));
        assert(values_view(s) == seq![s[0]@] + values_view(s.drop_first()));
        assert(values_view(s.push(v)) =~= values_view(s).push(v@));
    }
}

pub proof fn lemma_terms_view_concat(a: Seq<Term>, b: Seq<Term>)
    ensures
        terms_view(a + b) == terms_view(a) + terms_view(b),
    decreases a.len(),
{
    if a.len() == 0 {
        assert(a + b =~= b);
        assert(terms_view(a + b) =~= terms_view(a) + terms_view(b));
    } else {
        assert((a + b)[0] == a[0]);
        assert((a + b).drop_first() =~= a.drop_first() + b);
        lemma_terms_view_concat(a.drop_first(), b);
        assert(terms_view(a + b) =~= terms_view(a) + terms_view(b));
    }
}

pub proof fn lemma_terms_view_len(s: Seq<Term>)
    ensures
        terms_view(s).len() == s.len(),
    decreases s.len(),
{
    if s.len() > 0 {
        lemma_terms_view_len(s.drop_first());
    }
}

pub proof fn lemma_terms_view_index(s: Seq<Term>, i: int)
    requires
        0 <= i < s.len(),
    ensures
        terms_view(s).len() == s.len(),
        terms_view(s)[i] == s[i]@,
    decreases s.len(),
{
    lemma_terms_view_len(s);
    if i > 0 {
        lemma_terms_view_index(s.drop_first(), i - 1);
        assert(s.drop_first()[i - 1] == s[i]);
    }
}

pub proof fn lemma_fields_view_index(s: Seq<Field>, i: int)
    requires
        0 <= i < s.len(),
    ensures
        fields_view(s).len() == s.len(),
        fields_view(s)[i] == (FieldV { key: s[i].key.name@, value: s[i].value@ }),
    decreases s.len(),
{
    lemma_fields_view_len(s);
    if i > 0 {
        lemma_fields_view_index(s.drop_first(), i - 1);
        assert(s.drop_first()[i - 1] == s[i]);
    }
}

pub proof fn lemma_fields_view_len(s: Seq<Field>)
    ensures
        fields_view(s).len() == s.len(),
    decreases s.len(),
{
    if s.len() > 0 {
        lemma_fields_view_len(s.drop_first());
    }
}

pub proof fn lemma_params_view_len(s: Seq<Parameter>)
    ensures
        params_view(s).len() == s.len(),
    decreases s.len(),
{
    if s.len() > 0 {
        lemma_params_view_len(s.drop_first());
    }
}

pub proof fn lemma_params_view_index(s: Seq<Parameter>, i: int)
    requires
        0 <= i < s.len(),
    ensures
        params_view(s).len() == s.len(),
        params_view(s)[i] == s[i]@,
    decreases s.len(),
{
    lemma_params_view_len(s);
    if i > 0 {
        lemma_params_view_index(s.drop_first(), i - 1);
        assert(s.drop_first()[i - 1] == s[i]);
    }
}

pub proof fn lemma_ssize_elem(s: Seq<TermV>, i: int)
    requires
        0 <= i < s.len(),
    ensures
        tsize(s[i]) < ssize(s),
        d2t(s[i]) <= d2s(s),
    decreases s.len(),
{
    if i == 0 {
    } else {
        lemma_ssize_elem(s.drop_first(), i - 1);
        assert(s.drop_first()[i - 1] == s[i]);
    }
}

} // verus!

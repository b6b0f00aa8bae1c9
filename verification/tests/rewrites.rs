use polar::rewrites::{rewrite_rule, rewrite_term};
use polar::{
    Field, Instance, KnowledgeBase, Operation, Operator, Parameter, Predicate, Rule, Symbol, Term,
    Value,
};

fn sym(name: &str) -> Symbol {
    Symbol { name: name.to_string() }
}

fn term(value: Value) -> Term {
    Term { id: 0, value }
}

fn var(name: &str) -> Term {
    term(Value::Symbol(sym(name)))
}

fn dot(a: Term, b: Term) -> Term {
    term(Value::Expression(Operation { operator: Operator::Dot, args: vec![a, b] }))
}

fn call(name: &str, args: Vec<Term>) -> Term {
    term(Value::Call(Predicate { name: sym(name), args }))
}

fn and_body(args: Vec<Term>) -> Term {
    term(Value::Expression(Operation { operator: Operator::And, args }))
}

fn unify(a: Term, b: Term) -> Term {
    term(Value::Expression(Operation { operator: Operator::Unify, args: vec![a, b] }))
}

fn num(n: i64) -> Term {
    term(Value::Number(n))
}

fn dict(fields: Vec<(&str, Term)>) -> Term {
    term(Value::Dictionary(
        fields.into_iter().map(|(k, v)| Field { key: sym(k), value: v }).collect(),
    ))
}

fn instance(tag: &str, fields: Vec<(&str, Term)>) -> Term {
    term(Value::InstanceLiteral(Instance {
        tag: sym(tag),
        fields: fields.into_iter().map(|(k, v)| Field { key: sym(k), value: v }).collect(),
    }))
}

fn param_sym(name: &str) -> Parameter {
    Parameter { parameter: Some(var(name)), specializer: None }
}

fn param_spec(spec: Term) -> Parameter {
    Parameter { parameter: None, specializer: Some(spec) }
}

fn clone_value(v: &Value) -> Value {
    match v {
        Value::Number(n) => Value::Number(*n),
        Value::Str(s) => Value::Str(s.clone()),
        Value::Boolean(b) => Value::Boolean(*b),
        Value::Symbol(s) => Value::Symbol(sym(&s.name)),
        Value::List(l) => Value::List(l.iter().map(clone_term).collect()),
        Value::Dictionary(f) => Value::Dictionary(
            f.iter().map(|fd| Field { key: sym(&fd.key.name), value: clone_term(&fd.value) }).collect(),
        ),
        Value::InstanceLiteral(i) => Value::InstanceLiteral(Instance {
            tag: sym(&i.tag.name),
            fields: i
                .fields
                .iter()
                .map(|fd| Field { key: sym(&fd.key.name), value: clone_term(&fd.value) })
                .collect(),
        }),
        Value::Call(p) => Value::Call(Predicate {
            name: sym(&p.name.name),
            args: p.args.iter().map(clone_term).collect(),
        }),
        Value::Expression(op) => Value::Expression(Operation {
            operator: op.operator,
            args: op.args.iter().map(clone_term).collect(),
        }),
    }
}

fn clone_term(t: &Term) -> Term {
    Term { id: t.id, value: clone_value(&t.value) }
}

fn clone_rule(r: &Rule) -> Rule {
    Rule {
        name: sym(&r.name.name),
        params: r
            .params
            .iter()
            .map(|p| Parameter {
                parameter: p.parameter.as_ref().map(clone_term),
                specializer: p.specializer.as_ref().map(clone_term),
            })
            .collect(),
        body: clone_term(&r.body),
    }
}

/// A fresh parse of a term's printed text: the same structure with every
/// identity back at the unassigned sentinel.
fn reparse_term(t: &Term) -> Term {
    Term { id: 0, value: reparse_value(&t.value) }
}

fn reparse_value(v: &Value) -> Value {
    match v {
        Value::List(l) => Value::List(l.iter().map(reparse_term).collect()),
        Value::Dictionary(f) => Value::Dictionary(
            f.iter().map(|fd| Field { key: sym(&fd.key.name), value: reparse_term(&fd.value) }).collect(),
        ),
        Value::InstanceLiteral(i) => Value::InstanceLiteral(Instance {
            tag: sym(&i.tag.name),
            fields: i
                .fields
                .iter()
                .map(|fd| Field { key: sym(&fd.key.name), value: reparse_term(&fd.value) })
                .collect(),
        }),
        Value::Call(p) => Value::Call(Predicate {
            name: sym(&p.name.name),
            args: p.args.iter().map(reparse_term).collect(),
        }),
        Value::Expression(op) => Value::Expression(Operation {
            operator: op.operator,
            args: op.args.iter().map(reparse_term).collect(),
        }),
        other => clone_value(other),
    }
}

/// A fresh parse of a rule's printed text: a bare-symbol parameter reads
/// back as a plain parameter, anything else as a specializer pattern.
fn reparse_rule(r: &Rule) -> Rule {
    Rule {
        name: sym(&r.name.name),
        params: r
            .params
            .iter()
            .map(|p| match (&p.parameter, &p.specializer) {
                (None, Some(spec)) => {
                    if matches!(spec.value, Value::Symbol(_)) {
                        Parameter { parameter: Some(reparse_term(spec)), specializer: None }
                    } else {
                        Parameter { parameter: None, specializer: Some(reparse_term(spec)) }
                    }
                }
                (pa, sp) => Parameter {
                    parameter: pa.as_ref().map(reparse_term),
                    specializer: sp.as_ref().map(reparse_term),
                },
            })
            .collect(),
        body: reparse_term(&r.body),
    }
}

#[test]
fn rewrite_rules() {
    let mut kb = KnowledgeBase::new();
    let mut rule = Rule {
        name: sym("f"),
        params: vec![param_spec(dot(var("a"), var("b")))],
        body: and_body(vec![]),
    };
    assert_eq!(rule.to_polar(), "f(a.b);");

    // First rewrite
    rewrite_rule(&mut rule, &mut kb, 0);
    assert_eq!(rule.to_polar(), "f(_value_3) := .(a,b,_value_3);");

    // Check we can parse the rules back again
    let again = vec![reparse_rule(&rule)];
    let again_rule = clone_rule(&again[0]);
    assert_eq!(again_rule.to_polar(), rule.to_polar());

    // Call rewrite again
    let mut rewrite_again_rule = clone_rule(&again_rule);
    rewrite_rule(&mut rewrite_again_rule, &mut kb, 0);
    assert_eq!(rewrite_again_rule.to_polar(), again_rule.to_polar());

    // Chained lookups
    let mut rule = Rule {
        name: sym("f"),
        params: vec![param_spec(dot(dot(var("a"), var("b")), var("c")))],
        body: and_body(vec![]),
    };
    assert_eq!(rule.to_polar(), "f(a.b.c);");
    rewrite_rule(&mut rule, &mut kb, 0);
    assert_eq!(rule.to_polar(), "f(_value_8) := .(a,b,_value_9),.(_value_9,c,_value_8);");
}

#[test]
fn rewrite_nested_lookups() {
    let mut kb = KnowledgeBase::new();

    // Lookups with args
    let mut rule = Rule {
        name: sym("f"),
        params: vec![param_sym("a"), param_sym("c")],
        body: and_body(vec![dot(var("a"), call("b", vec![var("c")]))]),
    };
    assert_eq!(rule.to_polar(), "f(a,c) := a.b(c);");
    rewrite_rule(&mut rule, &mut kb, 0);
    assert_eq!(rule.to_polar(), "f(a,c) := .(a,b(c),_value_3),_value_3;");

    // Nested lookups
    let mut rule = Rule {
        name: sym("f"),
        params: vec![param_sym("a"), param_sym("c"), param_sym("e")],
        body: and_body(vec![dot(
            var("a"),
            call("b", vec![dot(var("c"), call("d", vec![dot(var("e"), var("f"))]))]),
        )]),
    };
    assert_eq!(rule.to_polar(), "f(a,c,e) := a.b(c.d(e.f));");
    rewrite_rule(&mut rule, &mut kb, 0);
    assert_eq!(
        rule.to_polar(),
        "f(a,c,e) := .(e,f,_value_9),.(c,d(_value_9),_value_7),.(a,b(_value_7),_value_6),_value_6;"
    );
}

#[test]
fn rewrite_terms() {
    let mut kb = KnowledgeBase::new();
    let mut term = and_body(vec![var("x"), dot(var("a"), var("b"))]);
    assert_eq!(term.to_polar(), "x,a.b");
    rewrite_term(&mut term, &mut kb, 0);
    assert_eq!(term.to_polar(), "x,.(a,b,_value_4),_value_4");

    let mut query = call("f", vec![dot(dot(var("a"), var("b")), var("c"))]);
    assert_eq!(query.to_polar(), "f(a.b.c)");
    rewrite_term(&mut query, &mut kb, 0);
    assert_eq!(query.to_polar(), ".(a,b,_value_8),.(_value_8,c,_value_6),f(_value_6)");

    let mut term = unify(dot(var("a"), var("b")), num(1));
    rewrite_term(&mut term, &mut kb, 0);
    assert_eq!(term.to_polar(), ".(a,b,_value_11),_value_11=1");
    let mut term = unify(dot(dict(vec![("x", num(1))]), var("x")), num(1));
    assert_eq!(term.to_polar(), "{x: 1}.x=1");
    rewrite_term(&mut term, &mut kb, 0);
    assert_eq!(term.to_polar(), ".({x: 1},x,_value_14),_value_14=1");
}

#[test]
fn rewrite_nested_literal() {
    let mut kb = KnowledgeBase::new();
    let mut term = instance("Foo", vec![("x", dot(var("bar"), var("y")))]);
    assert_eq!(term.to_polar(), "Foo{x: bar.y}");
    rewrite_term(&mut term, &mut kb, 0);
    assert_eq!(term.to_polar(), ".(bar,y,_value_2),Foo{x: _value_2}");

    let mut term = call("f", vec![instance("Foo", vec![("x", dot(var("bar"), var("y")))])]);
    assert_eq!(term.to_polar(), "f(Foo{x: bar.y})");
    rewrite_term(&mut term, &mut kb, 0);
    assert_eq!(term.to_polar(), ".(bar,y,_value_5),f(Foo{x: _value_5})");
}

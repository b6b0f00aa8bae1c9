use polar::rewrites::{rewrite_rule, rewrite_specializer, rewrite_term};
use polar::{
    Field, Instance, KnowledgeBase, Operation, Operator, Parameter, Predicate, Rule, Symbol, Term,
    Value,
};

fn sym(name: &str) -> Symbol {
    Symbol { name: name.to_string() }
}

fn term(value: Value) -> Term {
    Term { id: 0, value }
}

fn var(name: &str) -> Term {
    term(Value::Symbol(sym(name)))
}

fn dot(a: Term, b: Term) -> Term {
    term(Value::Expression(Operation { operator: Operator::Dot, args: vec![a, b] }))
}

fn call(name: &str, args: Vec<Term>) -> Term {
    term(Value::Call(Predicate { name: sym(name), args }))
}

fn and_body(args: Vec<Term>) -> Term {
    term(Value::Expression(Operation { operator: Operator::And, args }))
}

fn unify(a: Term, b: Term) -> Term {
    term(Value::Expression(Operation { operator: Operator::Unify, args: vec![a, b] }))
}

fn num(n: i64) -> Term {
    term(Value::Number(n))
}

fn param_sym(name: &str) -> Parameter {
    Parameter { parameter: Some(var(name)), specializer: None }
}

fn param_spec(spec: Term) -> Parameter {
    Parameter { parameter: None, specializer: Some(spec) }
}

fn deep_clone(t: &Term) -> Term {
    Term {
        id: t.id,
        value: match &t.value {
            Value::Number(n) => Value::Number(*n),
            Value::Str(s) => Value::Str(s.clone()),
            Value::Boolean(b) => Value::Boolean(*b),
            Value::Symbol(s) => Value::Symbol(sym(&s.name)),
            Value::List(l) => Value::List(l.iter().map(deep_clone).collect()),
            Value::Dictionary(f) => Value::Dictionary(
                f.iter()
                    .map(|fd| Field { key: sym(&fd.key.name), value: deep_clone(&fd.value) })
                    .collect(),
            ),
            Value::InstanceLiteral(i) => Value::InstanceLiteral(Instance {
                tag: sym(&i.tag.name),
                fields: i
                    .fields
                    .iter()
                    .map(|fd| Field { key: sym(&fd.key.name), value: deep_clone(&fd.value) })
                    .collect(),
            }),
            Value::Call(p) => Value::Call(Predicate {
                name: sym(&p.name.name),
                args: p.args.iter().map(deep_clone).collect(),
            }),
            Value::Expression(op) => Value::Expression(Operation {
                operator: op.operator,
                args: op.args.iter().map(deep_clone).collect(),
            }),
        },
    }
}

/// Every Dot expression in the tree has exactly three arguments.
fn all_dots_ternary(t: &Term) -> bool {
    match &t.value {
        Value::List(l) => l.iter().all(all_dots_ternary),
        Value::Dictionary(f) => f.iter().all(|fd| all_dots_ternary(&fd.value)),
        Value::InstanceLiteral(i) => i.fields.iter().all(|fd| all_dots_ternary(&fd.value)),
        Value::Call(p) => p.args.iter().all(all_dots_ternary),
        Value::Expression(op) => {
            (!matches!(op.operator, Operator::Dot) || op.args.len() == 3)
                && op.args.iter().all(all_dots_ternary)
        }
        _ => true,
    }
}

#[test]
fn ordering_of_chained_lookups() {
    // f(a.b.c): the lookup on `a.b` must run before the lookup on the
    // result, and both before the call to f.
    let mut kb = KnowledgeBase::new();
    let mut query = call("f", vec![dot(dot(var("a"), var("b")), var("c"))]);
    rewrite_term(&mut query, &mut kb, 0);
    let text = query.to_polar();
    assert_eq!(text, ".(a,b,_value_4),.(_value_4,c,_value_2),f(_value_2)");
    let first = text.find(".(a,b,").unwrap();
    let second = text.find(".(_value_4,c,").unwrap();
    let last = text.find("f(_value_2)").unwrap();
    assert!(first < second && second < last);
}

#[test]
fn scoping_inlines_lookup_under_logical_operator() {
    // A rule body `a.b(c)` becomes a two-clause conjunction: the lookup,
    // then a predicate test on the freshly bound variable.
    let mut kb = KnowledgeBase::new();
    let mut rule = Rule {
        name: sym("f"),
        params: vec![param_sym("a"), param_sym("c")],
        body: and_body(vec![dot(var("a"), call("b", vec![var("c")]))]),
    };
    rewrite_rule(&mut rule, &mut kb, 0);
    assert_eq!(rule.to_polar(), "f(a,c) := .(a,b(c),_value_3),_value_3;");
}

#[test]
fn nested_literal_lookup_lifted_ahead() {
    // The dotted access inside a list element is lifted to a lookup that
    // precedes the list.
    let mut kb = KnowledgeBase::new();
    let mut query = term(Value::List(vec![dot(var("bar"), var("y"))]));
    rewrite_term(&mut query, &mut kb, 0);
    assert_eq!(query.to_polar(), ".(bar,y,_value_2),[_value_2]");
}

#[test]
fn specializer_lookup_appended_after_body_clauses() {
    // For g(a.b) := x; the specializer's lookup lands after the body's
    // own clauses in the top-level conjunction.
    let mut kb = KnowledgeBase::new();
    let mut rule = Rule {
        name: sym("g"),
        params: vec![param_spec(dot(var("a"), var("b")))],
        body: and_body(vec![var("x")]),
    };
    rewrite_rule(&mut rule, &mut kb, 0);
    assert_eq!(rule.to_polar(), "g(_value_4) := x,.(a,b,_value_4);");
}

#[test]
fn rewriting_twice_changes_nothing() {
    // Idempotence, strongly: the second pass leaves the rule and even the
    // identity counter untouched.
    let mut kb = KnowledgeBase::new();
    let mut rule = Rule {
        name: sym("h"),
        params: vec![param_spec(dot(var("p"), var("q")))],
        body: and_body(vec![var("r")]),
    };
    rewrite_rule(&mut rule, &mut kb, 0);
    let once = rule.to_polar();
    let counter_after_first = kb.counter;
    rewrite_rule(&mut rule, &mut kb, 0);
    assert_eq!(rule.to_polar(), once);
    assert_eq!(kb.counter, counter_after_first);
}

#[test]
fn determinism_with_equally_seeded_counters() {
    // Structurally identical input and identically seeded knowledge bases
    // give structurally identical output.
    let build = || Rule {
        name: sym("f"),
        params: vec![param_sym("x")],
        body: and_body(vec![dot(var("x"), call("m", vec![num(1)]))]),
    };
    let mut kb1 = KnowledgeBase::new();
    let mut kb2 = KnowledgeBase::new();
    let mut r1 = build();
    let mut r2 = build();
    rewrite_rule(&mut r1, &mut kb1, 0);
    rewrite_rule(&mut r2, &mut kb2, 0);
    assert_eq!(r1.to_polar(), r2.to_polar());
    assert_eq!(kb1.counter, kb2.counter);
}

#[test]
fn round_trip_of_rewritten_rule_is_stable() {
    // Serializing a rewritten rule and parsing it back (same structure,
    // identities reset) rewrites to textually identical output.
    let mut kb = KnowledgeBase::new();
    let mut rule = Rule {
        name: sym("f"),
        params: vec![param_spec(dot(dot(var("a"), var("b")), var("c")))],
        body: and_body(vec![]),
    };
    rewrite_rule(&mut rule, &mut kb, 0);
    let once = rule.to_polar();

    // the printed parameter `_value_N` reads back as a plain parameter
    let mut reparsed = Rule {
        name: sym(&rule.name.name),
        params: rule
            .params
            .iter()
            .map(|p| match (&p.parameter, &p.specializer) {
                (None, Some(sp)) if matches!(sp.value, Value::Symbol(_)) => Parameter {
                    parameter: Some(reset_ids(sp)),
                    specializer: None,
                },
                (pa, sp) => Parameter {
                    parameter: pa.as_ref().map(reset_ids),
                    specializer: sp.as_ref().map(reset_ids),
                },
            })
            .collect(),
        body: reset_ids(&rule.body),
    };
    rewrite_rule(&mut reparsed, &mut kb, 0);
    assert_eq!(reparsed.to_polar(), once);
}

fn reset_ids(t: &Term) -> Term {
    let c = deep_clone(t);
    zero_ids(c)
}

fn zero_ids(mut t: Term) -> Term {
    t.id = 0;
    t.value = match t.value {
        Value::List(l) => Value::List(l.into_iter().map(zero_ids).collect()),
        Value::Dictionary(f) => Value::Dictionary(
            f.into_iter().map(|fd| Field { key: fd.key, value: zero_ids(fd.value) }).collect(),
        ),
        Value::InstanceLiteral(i) => Value::InstanceLiteral(Instance {
            tag: i.tag,
            fields: i
                .fields
                .into_iter()
                .map(|fd| Field { key: fd.key, value: zero_ids(fd.value) })
                .collect(),
        }),
        Value::Call(p) => Value::Call(Predicate {
            name: p.name,
            args: p.args.into_iter().map(zero_ids).collect(),
        }),
        Value::Expression(op) => Value::Expression(Operation {
            operator: op.operator,
            args: op.args.into_iter().map(zero_ids).collect(),
        }),
        other => other,
    };
    t
}

#[test]
fn every_dot_is_ternary_after_rewriting() {
    // The arity invariant on a deeply nested input.
    let mut kb = KnowledgeBase::new();
    let mut query = call(
        "f",
        vec![dot(var("a"), call("b", vec![dot(var("c"), call("d", vec![dot(var("e"), var("f"))]))]))],
    );
    assert!(!all_dots_ternary(&query));
    rewrite_term(&mut query, &mut kb, 0);
    assert!(all_dots_ternary(&query));

    let mut rule = Rule {
        name: sym("g"),
        params: vec![param_spec(dot(var("x"), var("y")))],
        body: and_body(vec![dot(var("u"), var("v"))]),
    };
    rewrite_rule(&mut rule, &mut kb, 0);
    assert!(all_dots_ternary(&rule.body));
    for p in &rule.params {
        if let Some(sp) = &p.specializer {
            assert!(all_dots_ternary(sp));
        }
    }
}

#[test]
fn specializer_rewrite_returns_standalone_lookups() {
    // rewrite_specializer hands the lookups back instead of placing them.
    let mut kb = KnowledgeBase::new();
    let mut sp = dot(var("a"), var("b"));
    let lookups = rewrite_specializer(&mut sp, &mut kb, 0);
    assert_eq!(sp.to_polar(), "_value_2");
    assert_eq!(lookups.len(), 1);
    assert_eq!(lookups[0].to_polar(), ".(a,b,_value_2)");
}

#[test]
fn identities_strictly_increase_from_one() {
    let mut kb = KnowledgeBase::new();
    assert_eq!(kb.new_id(), 1);
    assert_eq!(kb.new_id(), 2);
    let s = kb.gensym("value");
    assert_eq!(s.name, "_value_3");
    assert_eq!(kb.new_id(), 4);
    assert_eq!(kb.counter, 5);
}

#[test]
fn printing_of_leaf_values() {
    let t = unify(num(-5), num(42));
    assert_eq!(t.to_polar(), "-5=42");
    let l = term(Value::List(vec![num(1), term(Value::Boolean(true)), term(Value::Str("hi".to_string()))]));
    assert_eq!(l.to_polar(), "[1,true,\"hi\"]");
    let o = term(Value::Expression(Operation { operator: Operator::Or, args: vec![var("a"), var("b")] }));
    assert_eq!(o.to_polar(), "a|b");
    let n = term(Value::Expression(Operation { operator: Operator::Not, args: vec![var("a")] }));
    assert_eq!(n.to_polar(), "!a");
}

#[test]
fn multi_clause_query_leaves_no_pending_lookups() {
    // In a multi-clause top-level conjunction every lookup is inlined at
    // its clause; nothing is left for the entry point to drain.
    let mut kb = KnowledgeBase::new();
    let mut query = and_body(vec![var("x"), dot(var("a"), var("b"))]);
    rewrite_term(&mut query, &mut kb, 0);
    assert_eq!(query.to_polar(), "x,.(a,b,_value_4),_value_4");
    match &query.value {
        Value::Expression(op) => {
            assert!(matches!(op.operator, Operator::And));
            assert_eq!(op.args.len(), 2);
        }
        _ => panic!("top level is no longer a conjunction"),
    }
}

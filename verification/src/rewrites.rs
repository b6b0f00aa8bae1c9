//! The rewrite pass itself: desugars every dotted access in a term tree
//! into an explicit three-argument lookup threaded through a fresh
//! variable, inlining lookups immediately inside logical operators and
//! letting them bubble up to the nearest enclosing scope otherwise.
use vstd::prelude::*;
use crate::kb::{m_gensym, KbV, KnowledgeBase};
use crate::model::{
    and_wrap_v, m_do_rewrite, m_drain, m_logical_args, m_params, m_rewrite, m_rewrite_rule,
    m_rewrite_specializer, m_rewrite_term, m_walk, m_walk_args, m_walk_fields, wrap_lookups_v,
};
use crate::terms::{
    d2f, d2s, d2t, fields_view, fsize, lemma_d2s_push, lemma_terms_view_concat,
    lemma_terms_view_push, lemma_values_view_push, params_view, ssize, terms_view, tsize,
    values_view, Field, Instance, Operation, Operator, Parameter, Predicate, Rule, Symbol, Term,
    TermV, Value, ValueV,
};

verus! {

/// A rule body must be a top-level conjunction when specializer lookups are
/// appended to it; the rule-rewrite entry point requires this of its input.
pub open spec fn is_and(v: ValueV) -> bool {
    match v {
        ValueV::Expression { operator, args: _ } => operator == Operator::And,
        _ => false,
    }
}

/// Replace the left value by the AND of the right and the left.
fn and_wrap(a: &mut Term, b: Value)
    ensures
        final(a)@ == and_wrap_v(old(a)@, b@),
{
    let mut old_a = Value::Symbol(Symbol { name: String::new() });
    core::mem::swap(&mut a.value, &mut old_a);
    let id = a.id;
    let ghost bv = b@;
    let ghost ov = old_a@;
    let mut args: Vec<Term> = Vec::new();
    args.push(Term { id, value: b });
    args.push(Term { id, value: old_a });
    proof {
        assert(args@ =~= seq![
            Term { id, value: args@[0].value },
            Term { id, value: args@[1].value },
        ]);
        assert(args@.drop_first()[0] == args@[1]);
        assert(args@.drop_first().drop_first() =~= Seq::<Term>::empty());
        assert(terms_view(args@.drop_first()) == seq![args@[1]@] + terms_view(
            args@.drop_first().drop_first(),
        ));
        assert(terms_view(args@) == seq![args@[0]@] + terms_view(args@.drop_first()));
        assert(terms_view(args@) =~= seq![TermV { id, value: bv }, TermV { id, value: ov }]);
    }
    a.value = Value::Expression(Operation { operator: Operator::And, args });
}

/// Checks if the value is a not-yet-rewritten two-argument `Dot`. If so,
/// replaces it in place with a fresh symbol and returns the three-argument
/// lookup that binds that symbol; otherwise returns no pending lookup.
fn rewrite(value: &mut Value, kb: &mut KnowledgeBase) -> (r: Option<Value>)
    ensures
        ({
            let (v2, kb2, lk) = m_rewrite(old(value)@, old(kb)@);
            &&& final(value)@ == v2
            &&& final(kb)@ == kb2
            &&& (match (r, lk) {
                (Some(rv), Some(lv)) => rv@ == lv,
                (None::<Value>, None::<ValueV>) => true,
                _ => false,
            })
        }),
{
    let mut v = Value::Boolean(false);
    core::mem::swap(value, &mut v);
    match v {
        Value::Expression(op) => {
            proof {
                crate::terms::lemma_terms_view_len(op.args@);
                if op.args@.len() > 1 {
                    crate::terms::lemma_terms_view_index(op.args@, 1);
                }
            }
            if op.operator == Operator::Dot && op.args.len() == 2 {
                let symbol = kb.gensym("value");
                let b_id = op.args[1].id;
                let sym_clone = Symbol { name: symbol.name.clone() };
                let mut lookup_args = op.args;
                let var_t = Term { id: b_id, value: Value::Symbol(sym_clone) };
                proof {
                    lemma_terms_view_push(lookup_args@, var_t);
                }
                lookup_args.push(var_t);
                *value = Value::Symbol(symbol);
                Some(Value::Expression(Operation { operator: Operator::Dot, args: lookup_args }))
            } else {
                *value = Value::Expression(op);
                None
            }
        },
        other => {
            *value = other;
            None
        },
    }
}

/// Walks the term and does an in-place rewrite, assigning a fresh identity
/// and recording the source association on first visit. Uses `rewrites` as
/// a buffer of new lookup values.
fn do_rewrite(term: &mut Term, kb: &mut KnowledgeBase, rewrites: &mut Vec<Value>, src_id: u64)
    ensures
        ({
            let o = m_do_rewrite(old(term)@, old(kb)@, values_view(old(rewrites)@), src_id);
            &&& final(term)@ == o.t
            &&& final(kb)@ == o.kb
            &&& values_view(final(rewrites)@) == o.buf
        }),
    decreases d2t(term@), tsize(term@), 3int,
{
    if term.id == 0 {
        let n = kb.new_id();
        term.id = n;
        kb.record_source(n, src_id);
    }
    walk(term, kb, rewrites, src_id);
}

/// One step of the walker on a single node, then structural recursion:
/// desugar the node if it is a two-argument `Dot` (recursively rewriting
/// the emitted lookup with the same buffer, then appending it); otherwise
/// recurse into the children, inlining each logical argument's lookups.
fn walk(term: &mut Term, kb: &mut KnowledgeBase, rewrites: &mut Vec<Value>, src_id: u64)
    ensures
        ({
            let o = m_walk(old(term)@, old(kb)@, values_view(old(rewrites)@), src_id);
            &&& final(term)@ == o.t
            &&& final(kb)@ == o.kb
            &&& values_view(final(rewrites)@) == o.buf
        }),
    decreases d2t(term@), tsize(term@), 2int,
{
    let r = rewrite(&mut term.value, kb);
    match r {
        Some(lookup) => {
            proof {
                match old(term)@.value {
                    ValueV::Expression { operator, args } => {
                        let (name, _kb2) = m_gensym(old(kb)@, "value"@);
                        let var_t = TermV { id: args[1].id, value: ValueV::Symbol(name) };
                        lemma_d2s_push(args, var_t);
                    },
                    _ => {},
                }
            }
            let mut lookup_term = Term { id: term.id, value: lookup };
            do_rewrite(&mut lookup_term, kb, rewrites, src_id);
            proof {
                lemma_values_view_push(rewrites@, lookup_term.value);
            }
            rewrites.push(lookup_term.value);
        },
        None => {
            let mut v = Value::Boolean(false);
            core::mem::swap(&mut term.value, &mut v);
            match v {
                Value::Expression(op) => {
                    if matches!(op.operator, Operator::And | Operator::Or | Operator::Not) {
                        let args2 = logical_args(op.args, kb, src_id);
                        term.value = Value::Expression(
                            Operation { operator: op.operator, args: args2 },
                        );
                    } else {
                        let args2 = walk_args(op.args, kb, rewrites, src_id);
                        term.value = Value::Expression(
                            Operation { operator: op.operator, args: args2 },
                        );
                    }
                },
                Value::Call(p) => {
                    let args2 = walk_args(p.args, kb, rewrites, src_id);
                    term.value = Value::Call(Predicate { name: p.name, args: args2 });
                },
                Value::List(l) => {
                    let l2 = walk_args(l, kb, rewrites, src_id);
                    term.value = Value::List(l2);
                },
                Value::Dictionary(f) => {
                    let f2 = walk_fields(f, kb, rewrites, src_id);
                    term.value = Value::Dictionary(f2);
                },
                Value::InstanceLiteral(inst) => {
                    let f2 = walk_fields(inst.fields, kb, rewrites, src_id);
                    term.value = Value::InstanceLiteral(Instance { tag: inst.tag, fields: f2 });
                },
                other => {
                    term.value = other;
                },
            }
        },
    }
}

/// Walk argument terms of a non-logical node left to right; their pending
/// lookups bubble up into the ambient buffer.
fn walk_args(args: Vec<Term>, kb: &mut KnowledgeBase, rewrites: &mut Vec<Value>, src_id: u64) -> (r:
    Vec<Term>)
    ensures
        ({
            let o = m_walk_args(terms_view(args@), old(kb)@, values_view(old(rewrites)@), src_id);
            &&& terms_view(r@) == o.s
            &&& final(kb)@ == o.kb
            &&& values_view(final(rewrites)@) == o.buf
        }),
    decreases d2s(terms_view(args@)), ssize(terms_view(args@)), 1int,
{
    if args.len() == 0 {
        args
    } else {
        let ghost a0 = args@;
        let ghost sv = terms_view(a0);
        let mut rest = args;
        let mut first = rest.remove(0);
        proof {
            assert(a0.remove(0) =~= a0.drop_first());
            assert(sv[0] == first@);
            assert(sv.drop_first() =~= terms_view(rest@));
        }
        walk(&mut first, kb, rewrites, src_id);
        let mut out = walk_args(rest, kb, rewrites, src_id);
        let ghost pre = out@;
        out.insert(0, first);
        proof {
            assert(out@[0] == first);
            assert(out@.drop_first() =~= pre);
            assert(terms_view(out@) =~= seq![first@] + terms_view(pre));
        }
        out
    }
}

/// Walk the arguments of a logical operator: each argument is rewritten
/// with a fresh, private buffer which is immediately drained into it, so
/// that its lookups run before the argument and never escape outward.
fn logical_args(args: Vec<Term>, kb: &mut KnowledgeBase, src_id: u64) -> (r: Vec<Term>)
    ensures
        ({
            let o = m_logical_args(terms_view(args@), old(kb)@, src_id);
            &&& terms_view(r@) == o.s
            &&& final(kb)@ == o.kb
        }),
    decreases d2s(terms_view(args@)), ssize(terms_view(args@)), 1int,
{
    if args.len() == 0 {
        args
    } else {
        let ghost a0 = args@;
        let ghost sv = terms_view(a0);
        let mut rest = args;
        let mut first = rest.remove(0);
        proof {
            assert(a0.remove(0) =~= a0.drop_first());
            assert(sv[0] == first@);
            assert(sv.drop_first() =~= terms_view(rest@));
        }
        let mut arg_rewrites: Vec<Value> = Vec::new();
        proof {
            assert(values_view(arg_rewrites@) =~= Seq::<ValueV>::empty());
        }
        do_rewrite(&mut first, kb, &mut arg_rewrites, src_id);
        drain(&mut first, arg_rewrites);
        let mut out = logical_args(rest, kb, src_id);
        let ghost pre = out@;
        out.insert(0, first);
        proof {
            assert(out@[0] == first);
            assert(out@.drop_first() =~= pre);
            assert(terms_view(out@) =~= seq![first@] + terms_view(pre));
        }
        out
    }
}

/// Walk dictionary or instance-literal field values left to right.
fn walk_fields(fields: Vec<Field>, kb: &mut KnowledgeBase, rewrites: &mut Vec<Value>, src_id: u64) -> (r:
    Vec<Field>)
    ensures
        ({
            let o = m_walk_fields(
                fields_view(fields@),
                old(kb)@,
                values_view(old(rewrites)@),
                src_id,
            );
            &&& fields_view(r@) == o.f
            &&& final(kb)@ == o.kb
            &&& values_view(final(rewrites)@) == o.buf
        }),
    decreases d2f(fields_view(fields@)), fsize(fields_view(fields@)), 1int,
{
    if fields.len() == 0 {
        fields
    } else {
        let ghost a0 = fields@;
        let ghost fv = fields_view(a0);
        let mut rest = fields;
        let f = rest.remove(0);
        let key = f.key;
        let mut vterm = f.value;
        proof {
            assert(a0.remove(0) =~= a0.drop_first());
            assert(fv[0].value == vterm@);
            assert(fv.drop_first() =~= fields_view(rest@));
        }
        walk(&mut vterm, kb, rewrites, src_id);
        let mut out = walk_fields(rest, kb, rewrites, src_id);
        let ghost pre = out@;
        let ghost kv = key.name@;
        out.insert(0, Field { key, value: vterm });
        proof {
            assert(out@.drop_first() =~= pre);
            assert(fields_view(out@) =~= seq![
                crate::terms::FieldV { key: kv, value: out@[0].value@ },
            ] + fields_view(pre));
        }
        out
    }
}

/// Drain a buffer of pending lookups into a term, most recently generated
/// first, so earlier-produced lookups end up outermost and run first.
fn drain(term: &mut Term, buf: Vec<Value>)
    ensures
        final(term)@ == m_drain(old(term)@, values_view(buf@)),
    decreases buf@.len(),
{
    let ghost vals = values_view(buf@);
    let mut b = buf;
    if b.len() > 0 {
        proof {
            assert(b@ =~= b@.drop_last().push(b@.last()));
            lemma_values_view_push(b@.drop_last(), b@.last());
            assert(vals == values_view(b@.drop_last()).push(b@.last()@));
            assert(vals.drop_last() =~= values_view(b@.drop_last()));
            assert(vals.last() == b@.last()@);
        }
        match b.pop() {
            Some(v) => {
                and_wrap(term, v);
                drain(term, b);
            },
            None => {},
        }
    }
}

/// The terms that carry a specializer's pending lookups back to the
/// caller, each bearing the rewritten specializer's identity.
fn wrap_lookups(id: u64, vals: Vec<Value>) -> (r: Vec<Term>)
    ensures
        terms_view(r@) == wrap_lookups_v(id, values_view(vals@)),
    decreases vals@.len(),
{
    if vals.len() == 0 {
        let r: Vec<Term> = Vec::new();
        proof {
            assert(terms_view(r@) =~= wrap_lookups_v(id, values_view(vals@)));
        }
        r
    } else {
        let ghost a0 = vals@;
        let mut rest = vals;
        let v = rest.remove(0);
        proof {
            assert(a0.remove(0) =~= a0.drop_first());
            assert(values_view(a0)[0] == v@);
            assert(values_view(a0).drop_first() =~= values_view(rest@));
        }
        let mut out = wrap_lookups(id, rest);
        let ghost pre = out@;
        out.insert(0, Term { id, value: v });
        proof {
            assert(out@.drop_first() =~= pre);
            assert(terms_view(out@) =~= seq![out@[0]@] + terms_view(pre));
        }
        out
    }
}

/// Rewrite the specializer term and return all new lookups as a vec of
/// standalone terms; the caller (rule rewriting) is responsible for
/// placing them, since a specializer cannot and-wrap itself in position.
pub fn rewrite_specializer(sp: &mut Term, kb: &mut KnowledgeBase, src_id: u64) -> (r: Vec<Term>)
    ensures
        ({
            let o = m_rewrite_specializer(old(sp)@, old(kb)@, src_id);
            &&& final(sp)@ == o.t
            &&& final(kb)@ == o.kb
            &&& terms_view(r@) == o.lookups
        }),
        crate::props::wf_v(old(sp)@.value) && old(kb)@.counter >= 1 ==> crate::props::dots3_v(
            final(sp)@.value,
        ) && crate::props::quiet_v(final(sp)@.value),
{
    let mut rewrites: Vec<Value> = Vec::new();
    proof {
        assert(values_view(rewrites@) =~= Seq::<ValueV>::empty());
        if crate::props::wf_v(old(sp)@.value) && old(kb)@.counter >= 1 {
            assert(crate::props::good_vals(Seq::<ValueV>::empty()));
            crate::props::post_do_rewrite(old(sp)@, old(kb)@, Seq::empty(), src_id);
        }
    }
    do_rewrite(sp, kb, &mut rewrites, src_id);
    wrap_lookups(sp.id, rewrites)
}

/// Rewrite the term in place: walk it with a top-level buffer, then drain
/// any leftover lookups no logical context consumed onto the term itself.
pub fn rewrite_term(term: &mut Term, kb: &mut KnowledgeBase, src_id: u64)
    ensures
        ({
            let o = m_rewrite_term(old(term)@, old(kb)@, src_id);
            &&& final(term)@ == o.t
            &&& final(kb)@ == o.kb
        }),
        crate::props::wf_v(old(term)@.value) && old(kb)@.counter >= 1 ==> crate::props::dots3_v(
            final(term)@.value,
        ) && crate::props::quiet_v(final(term)@.value),
{
    proof {
        if crate::props::wf_v(old(term)@.value) && old(kb)@.counter >= 1 {
            crate::props::lemma_rewrite_term_arity(old(term)@, old(kb)@, src_id);
        }
    }
    let mut rewrites: Vec<Value> = Vec::new();
    proof {
        assert(values_view(rewrites@) =~= Seq::<ValueV>::empty());
    }
    do_rewrite(term, kb, &mut rewrites, src_id);
    drain(term, rewrites);
}

/// Rewrite each parameter's specializer in order, collecting the emitted
/// lookup terms.
fn rewrite_params(params: Vec<Parameter>, kb: &mut KnowledgeBase, src_id: u64) -> (r: (
    Vec<Parameter>,
    Vec<Term>,
))
    ensures
        ({
            let o = m_params(params_view(params@), old(kb)@, src_id);
            &&& params_view(r.0@) == o.params
            &&& final(kb)@ == o.kb
            &&& terms_view(r.1@) == o.lookups
        }),
    decreases params@.len(),
{
    if params.len() == 0 {
        let lks: Vec<Term> = Vec::new();
        proof {
            assert(terms_view(lks@) =~= Seq::<TermV>::empty());
        }
        (params, lks)
    } else {
        let ghost a0 = params@;
        let mut rest = params;
        let p = rest.remove(0);
        proof {
            assert(a0.remove(0) =~= a0.drop_first());
            assert(params_view(a0)[0] == p@);
            assert(params_view(a0).drop_first() =~= params_view(rest@));
        }
        let Parameter { parameter, specializer } = p;
        match specializer {
            Some(mut sp) => {
                let mut lks = rewrite_specializer(&mut sp, kb, src_id);
                let (mut ps2, mut lk2) = rewrite_params(rest, kb, src_id);
                let ghost pre = ps2@;
                ps2.insert(0, Parameter { parameter, specializer: Some(sp) });
                proof {
                    assert(ps2@.drop_first() =~= pre);
                    assert(params_view(ps2@) =~= seq![ps2@[0]@] + params_view(pre));
                    lemma_terms_view_concat(lks@, lk2@);
                }
                lks.append(&mut lk2);
                (ps2, lks)
            },
            None => {
                let (mut ps2, lk2) = rewrite_params(rest, kb, src_id);
                let ghost pre = ps2@;
                ps2.insert(0, Parameter { parameter, specializer: None });
                proof {
                    assert(ps2@.drop_first() =~= pre);
                    assert(params_view(ps2@) =~= seq![ps2@[0]@] + params_view(pre));
                }
                (ps2, lk2)
            },
        }
    }
}

/// Rewriting a whole-term body that is a top-level conjunction leaves it a
/// conjunction, with no leftover pending lookups to drain.
pub proof fn lemma_rewrite_term_and(t: TermV, kb: KbV, src: u64)
    requires
        is_and(t.value),
    ensures
        is_and(m_rewrite_term(t, kb, src).t.value),
        m_rewrite_term(t, kb, src).t == m_do_rewrite(t, kb, Seq::empty(), src).t,
        m_rewrite_term(t, kb, src).kb == m_do_rewrite(t, kb, Seq::empty(), src).kb,
        m_do_rewrite(t, kb, Seq::empty(), src).buf == Seq::<ValueV>::empty(),
{
    let o = m_do_rewrite(t, kb, Seq::<ValueV>::empty(), src);
    assert(is_and(o.t.value) && o.buf =~= Seq::<ValueV>::empty()) by {
        if t.id == 0 {
            let (n, kb1) = crate::kb::m_new_id(kb);
            let kb2 = crate::kb::m_record_source(kb1, n, src);
            let t1 = TermV { id: n, value: t.value };
            assert(o == m_walk(t1, kb2, Seq::<ValueV>::empty(), src));
        } else {
            assert(o == m_walk(t, kb, Seq::<ValueV>::empty(), src));
        }
    };
    assert(m_drain(o.t, o.buf) == o.t);
}

/// Rewrite a rule: rewrite the body in place, rewrite every parameter's
/// specializer, and append the collected specializer lookups to the body's
/// top-level conjunction. The body must be a conjunction on entry (as the
/// parser guarantees); it is then still one when the lookups are appended,
/// so the internal invariant can never fail.
pub fn rewrite_rule(rule: &mut Rule, kb: &mut KnowledgeBase, src_id: u64)
    requires
        is_and(old(rule)@.body.value),
    ensures
        ({
            let o = m_rewrite_rule(old(rule)@, old(kb)@, src_id);
            &&& final(rule)@ == o.r
            &&& final(kb)@ == o.kb
        }),
        crate::props::wf_v(old(rule)@.body.value) && crate::props::wf_params(old(rule)@.params)
            && old(kb)@.counter >= 1 ==> crate::props::dots3_v(final(rule)@.body.value)
            && crate::props::quiet_v(final(rule)@.body.value),
{
    proof {
        lemma_rewrite_term_and(old(rule)@.body, old(kb)@, src_id);
        if crate::props::wf_v(old(rule)@.body.value) && crate::props::wf_params(old(rule)@.params)
            && old(kb)@.counter >= 1 {
            crate::props::lemma_rewrite_rule_arity(old(rule)@, old(kb)@, src_id);
        }
    }
    rewrite_term(&mut rule.body, kb, src_id);
    let mut ps: Vec<Parameter> = Vec::new();
    core::mem::swap(&mut rule.params, &mut ps);
    let (ps2, mut new_terms) = rewrite_params(ps, kb, src_id);
    rule.params = ps2;
    let mut bv = Value::Boolean(false);
    core::mem::swap(&mut rule.body.value, &mut bv);
    match bv {
        Value::Expression(mut op) => {
            proof {
                lemma_terms_view_concat(op.args@, new_terms@);
            }
            op.args.append(&mut new_terms);
            rule.body.value = Value::Expression(op);
        },
        other => {
            proof {
                assert(false);
            }
            rule.body.value = other;
        },
    }
}

} // verus!

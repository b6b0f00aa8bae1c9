//! The laws of the rewrite pass, proved about the model: after a rewrite
//! every `Dot` expression has exactly three arguments (none has two), a
//! rewritten rule is a fixed point of the pass (idempotence), re-parsing a
//! rewritten term's printed text and rewriting again prints identically
//! (round-trip stability), and the pass is deterministic.
use vstd::prelude::*;
use crate::kb::{m_new_id, KbV};
use crate::model::{
    and_wrap_v, m_do_rewrite, m_drain, m_logical_args, m_params, m_rewrite, m_rewrite_rule,
    m_rewrite_specializer, m_rewrite_term, m_walk, m_walk_args, m_walk_fields, wrap_lookups_v,
    MOut, MPOut, MSOut,
};
use crate::rewrites::is_and;
use crate::terms::{
    d2f, d2s, d2t, fsize, lemma_d2s_push, spec_is_logical, ssize, tsize, FieldV, Operator,
    ParameterV, RuleV, TermV, ValueV,
};

verus! {

// ---------------------------------------------------------------------------
// Shape predicates
// ---------------------------------------------------------------------------

/// Every `Dot` expression in the tree has exactly two or three arguments:
/// the well-formedness the parser guarantees of the pass's input.
pub open spec fn wf_t(t: TermV) -> bool
    decreases t,
{
    wf_v(t.value)
}

pub open spec fn wf_v(v: ValueV) -> bool
    decreases v,
{
    match v {
        ValueV::List(l) => forall|i: int| 0 <= i < l.len() ==> wf_t(#[trigger] l[i]),
        ValueV::Dictionary(f) => forall|i: int| 0 <= i < f.len() ==> wf_t(#[trigger] f[i].value),
        ValueV::InstanceLiteral { tag: _, fields } => forall|i: int|
            0 <= i < fields.len() ==> wf_t(#[trigger] fields[i].value),
        ValueV::Call { name: _, args } => forall|i: int|
            0 <= i < args.len() ==> wf_t(#[trigger] args[i]),
        ValueV::Expression { operator, args } => (operator == Operator::Dot ==> args.len() == 2
            || args.len() == 3) && (forall|i: int| 0 <= i < args.len() ==> wf_t(#[trigger] args[i])),
        _ => true,
    }
}

/// Every `Dot` expression in the tree has exactly three arguments.
pub open spec fn dots3_t(t: TermV) -> bool
    decreases t,
{
    dots3_v(t.value)
}

pub open spec fn dots3_v(v: ValueV) -> bool
    decreases v,
{
    match v {
        ValueV::List(l) => forall|i: int| 0 <= i < l.len() ==> dots3_t(#[trigger] l[i]),
        ValueV::Dictionary(f) => forall|i: int|
            0 <= i < f.len() ==> dots3_t(#[trigger] f[i].value),
        ValueV::InstanceLiteral { tag: _, fields } => forall|i: int|
            0 <= i < fields.len() ==> dots3_t(#[trigger] fields[i].value),
        ValueV::Call { name: _, args } => forall|i: int|
            0 <= i < args.len() ==> dots3_t(#[trigger] args[i]),
        ValueV::Expression { operator, args } => (operator == Operator::Dot ==> args.len() == 3)
            && (forall|i: int| 0 <= i < args.len() ==> dots3_t(#[trigger] args[i])),
        _ => true,
    }
}

/// A tree the pass has nothing left to do to: no two-argument `Dot`
/// remains, and every argument of a logical operator already carries a
/// nonzero identity (so a second pass assigns nothing).
pub open spec fn quiet_t(t: TermV) -> bool
    decreases t,
{
    quiet_v(t.value)
}

pub open spec fn quiet_v(v: ValueV) -> bool
    decreases v,
{
    match v {
        ValueV::List(l) => forall|i: int| 0 <= i < l.len() ==> quiet_t(#[trigger] l[i]),
        ValueV::Dictionary(f) => forall|i: int|
            0 <= i < f.len() ==> quiet_t(#[trigger] f[i].value),
        ValueV::InstanceLiteral { tag: _, fields } => forall|i: int|
            0 <= i < fields.len() ==> quiet_t(#[trigger] fields[i].value),
        ValueV::Call { name: _, args } => forall|i: int|
            0 <= i < args.len() ==> quiet_t(#[trigger] args[i]),
        ValueV::Expression { operator, args } => !(operator == Operator::Dot && args.len() == 2)
            && (forall|i: int| 0 <= i < args.len() ==> quiet_t(#[trigger] args[i])) && (
        spec_is_logical(operator) ==> forall|i: int|
            0 <= i < args.len() ==> (#[trigger] args[i]).id != 0),
        _ => true,
    }
}

/// Every value in a pending-lookup buffer is fully rewritten.
pub open spec fn good_vals(s: Seq<ValueV>) -> bool {
    forall|i: int|
        0 <= i < s.len() ==> quiet_v(#[trigger] s[i]) && dots3_v(s[i])
}

/// Every parameter's specializer, if any, is well formed.
pub open spec fn wf_params(ps: Seq<ParameterV>) -> bool {
    forall|i: int|
        0 <= i < ps.len() ==> match (#[trigger] ps[i]).specializer {
            Some(sp) => wf_t(sp),
            None => true,
        }
}

/// Every parameter's specializer, if any, is fully rewritten and
/// identified.
pub open spec fn quiet_params(ps: Seq<ParameterV>) -> bool {
    forall|i: int|
        0 <= i < ps.len() ==> match (#[trigger] ps[i]).specializer {
            Some(sp) => quiet_t(sp) && sp.id != 0,
            None => true,
        }
}

// ---------------------------------------------------------------------------
// After the pass: outputs are quiet, and well-formed inputs come out with
// every Dot at exactly three arguments
// ---------------------------------------------------------------------------

pub proof fn post_drain(t: TermV, buf: Seq<ValueV>)
    requires
        quiet_v(t.value),
        dots3_v(t.value),
        t.id != 0,
        good_vals(buf),
    ensures
        ({
            let r = m_drain(t, buf);
            r.id == t.id && quiet_v(r.value) && dots3_v(r.value)
        }),
    decreases buf.len(),
{
    if buf.len() > 0 {
        let w = and_wrap_v(t, buf.last());
        assert(quiet_v(buf.last()) && dots3_v(buf.last()));
        let wargs = seq![
            TermV { id: t.id, value: buf.last() },
            TermV { id: t.id, value: t.value },
        ];
        assert forall|i: int| 0 <= i < wargs.len() implies quiet_t(#[trigger] wargs[i])
            && dots3_t(wargs[i]) && wargs[i].id != 0 by {
            if i == 0 {
            } else {
                assert(wargs[i] == TermV { id: t.id, value: t.value });
            }
        }
        assert(quiet_v(w.value));
        assert(dots3_v(w.value));
        assert(good_vals(buf.drop_last()));
        post_drain(w, buf.drop_last());
    }
}

pub proof fn post_do_rewrite(t: TermV, kb: KbV, buf: Seq<ValueV>, src: u64)
    requires
        wf_v(t.value),
        good_vals(buf),
        kb.counter >= 1,
    ensures
        ({
            let o = m_do_rewrite(t, kb, buf, src);
            o.t.id != 0 && quiet_v(o.t.value) && dots3_v(o.t.value) && good_vals(o.buf)
                && o.kb.counter >= 1
        }),
    decreases d2t(t), tsize(t), 3int,
{
    if t.id == 0 {
        let (n, kb1) = m_new_id(kb);
        let kb2 = crate::kb::m_record_source(kb1, n, src);
        post_walk(TermV { id: n, value: t.value }, kb2, buf, src);
    } else {
        post_walk(t, kb, buf, src);
    }
}

pub proof fn post_walk(t: TermV, kb: KbV, buf: Seq<ValueV>, src: u64)
    requires
        wf_v(t.value),
        good_vals(buf),
        kb.counter >= 1,
    ensures
        ({
            let o = m_walk(t, kb, buf, src);
            o.t.id == t.id && quiet_v(o.t.value) && dots3_v(o.t.value) && good_vals(o.buf)
            && o.kb.counter >= 1
        }),
    decreases d2t(t), tsize(t), 2int,
{
    let r = m_rewrite(t.value, kb);
    match r.2 {
        Some(lookup) => {
            match t.value {
                ValueV::Expression { operator, args } => {
                    let (name, kb2) = crate::kb::m_gensym(kb, "value"@);
                    let var_t = TermV { id: args[1].id, value: ValueV::Symbol(name) };
                    lemma_d2s_push(args, var_t);
                    let largs = args.push(var_t);
                    let lt = TermV {
                        id: t.id,
                        value: ValueV::Expression { operator: Operator::Dot, args: largs },
                    };
                    assert forall|i: int| 0 <= i < largs.len() implies wf_t(
                        #[trigger] largs[i],
                    ) by {
                        if i < args.len() {
                            assert(largs[i] == args[i]);
                        } else {
                            assert(largs[i] == var_t);
                        }
                    }
                    assert(wf_v(lt.value));
                    post_do_rewrite(lt, kb2, buf, src);
                    let o = m_do_rewrite(lt, kb2, buf, src);
                    assert(good_vals(o.buf.push(o.t.value)));
                },
                _ => {
                    assert(false);
                },
            }
        },
        None => {
            match t.value {
                ValueV::Expression { operator, args } => {
                    if spec_is_logical(operator) {
                        post_logical_args(args, kb, src);
                        let lo = m_logical_args(args, kb, src);
                        assert(quiet_v(ValueV::Expression { operator, args: lo.s }));
                        assert(dots3_v(ValueV::Expression { operator, args: lo.s }));
                    } else {
                        post_walk_args(args, kb, buf, src);
                        let o = m_walk_args(args, kb, buf, src);
                        assert(o.s.len() == args.len());
                        assert(quiet_v(ValueV::Expression { operator, args: o.s }));
                        assert(dots3_v(ValueV::Expression { operator, args: o.s }));
                    }
                },
                ValueV::Call { name: _, args } => {
                    post_walk_args(args, kb, buf, src);
                },
                ValueV::List(elems) => {
                    post_walk_args(elems, kb, buf, src);
                },
                ValueV::Dictionary(fields) => {
                    post_walk_fields(fields, kb, buf, src);
                },
                ValueV::InstanceLiteral { tag: _, fields } => {
                    post_walk_fields(fields, kb, buf, src);
                },
                _ => {},
            }
        },
    }
}

pub proof fn post_walk_args(s: Seq<TermV>, kb: KbV, buf: Seq<ValueV>, src: u64)
    requires
        forall|i: int| 0 <= i < s.len() ==> wf_t(#[trigger] s[i]),
        good_vals(buf),
        kb.counter >= 1,
    ensures
        ({
            let o = m_walk_args(s, kb, buf, src);
            o.s.len() == s.len() && (forall|i: int|
                0 <= i < o.s.len() ==> quiet_t(#[trigger] o.s[i]) && dots3_t(o.s[i])
                    && o.s[i].id == s[i].id) && good_vals(o.buf) && o.kb.counter >= 1
        }),
    decreases d2s(s), ssize(s), 1int,
{
    if s.len() > 0 {
        post_walk(s[0], kb, buf, src);
        let o = m_walk(s[0], kb, buf, src);
        post_walk_args(s.drop_first(), o.kb, o.buf, src);
        let r = m_walk_args(s.drop_first(), o.kb, o.buf, src);
        let out = seq![o.t] + r.s;
        assert forall|i: int| 0 <= i < out.len() implies quiet_t(#[trigger] out[i]) && dots3_t(
            out[i],
        ) && out[i].id == s[i].id by {
            if i == 0 {
                assert(out[0] == o.t);
            } else {
                assert(out[i] == r.s[i - 1]);
                assert(s.drop_first()[i - 1] == s[i]);
            }
        }
    }
}

pub proof fn post_logical_args(s: Seq<TermV>, kb: KbV, src: u64)
    requires
        forall|i: int| 0 <= i < s.len() ==> wf_t(#[trigger] s[i]),
        kb.counter >= 1,
    ensures
        ({
            let lo = m_logical_args(s, kb, src);
            lo.s.len() == s.len() && (forall|i: int|
                0 <= i < lo.s.len() ==> quiet_t(#[trigger] lo.s[i]) && dots3_t(lo.s[i])
                    && lo.s[i].id != 0) && lo.kb.counter >= 1
        }),
    decreases d2s(s), ssize(s), 1int,
{
    if s.len() > 0 {
        assert(good_vals(Seq::<ValueV>::empty()));
        post_do_rewrite(s[0], kb, Seq::empty(), src);
        let o = m_do_rewrite(s[0], kb, Seq::empty(), src);
        post_drain(o.t, o.buf);
        let t2 = m_drain(o.t, o.buf);
        post_logical_args(s.drop_first(), o.kb, src);
        let r = m_logical_args(s.drop_first(), o.kb, src);
        let out = seq![t2] + r.s;
        assert forall|i: int| 0 <= i < out.len() implies quiet_t(#[trigger] out[i]) && dots3_t(
            out[i],
        ) && out[i].id != 0 by {
            if i == 0 {
                assert(out[0] == t2);
            } else {
                assert(out[i] == r.s[i - 1]);
            }
        }
    }
}

pub proof fn post_walk_fields(s: Seq<FieldV>, kb: KbV, buf: Seq<ValueV>, src: u64)
    requires
        forall|i: int| 0 <= i < s.len() ==> wf_t(#[trigger] s[i].value),
        good_vals(buf),
        kb.counter >= 1,
    ensures
        ({
            let o = m_walk_fields(s, kb, buf, src);
            o.f.len() == s.len() && (forall|i: int|
                0 <= i < o.f.len() ==> quiet_t((#[trigger] o.f[i]).value) && dots3_t(o.f[i].value))
                && good_vals(o.buf) && o.kb.counter >= 1
        }),
    decreases d2f(s), fsize(s), 1int,
{
    if s.len() > 0 {
        post_walk(s[0].value, kb, buf, src);
        let o = m_walk(s[0].value, kb, buf, src);
        post_walk_fields(s.drop_first(), o.kb, o.buf, src);
        let r = m_walk_fields(s.drop_first(), o.kb, o.buf, src);
        let out = seq![FieldV { key: s[0].key, value: o.t }] + r.f;
        assert forall|i: int| 0 <= i < out.len() implies quiet_t((#[trigger] out[i]).value)
            && dots3_t(out[i].value) by {
            if i == 0 {
                assert(out[0] == FieldV { key: s[0].key, value: o.t });
            } else {
                assert(out[i] == r.f[i - 1]);
            }
        }
    }
}

// ---------------------------------------------------------------------------
// A quiet tree is a fixed point of the pass
// ---------------------------------------------------------------------------

pub proof fn noop_do_rewrite(t: TermV, kb: KbV, buf: Seq<ValueV>, src: u64)
    requires
        quiet_v(t.value),
        t.id != 0,
    ensures
        m_do_rewrite(t, kb, buf, src) == (MOut { t, kb, buf }),
    decreases d2t(t), tsize(t), 3int,
{
    noop_walk(t, kb, buf, src);
}

pub proof fn noop_walk(t: TermV, kb: KbV, buf: Seq<ValueV>, src: u64)
    requires
        quiet_v(t.value),
    ensures
        m_walk(t, kb, buf, src) == (MOut { t, kb, buf }),
    decreases d2t(t), tsize(t), 2int,
{
    match t.value {
        ValueV::Expression { operator, args } => {
            if spec_is_logical(operator) {
                noop_logical_args(args, kb, src);
                let lo = m_logical_args(args, kb, src);
                assert(ValueV::Expression { operator, args: lo.s } == t.value);
            } else {
                noop_walk_args(args, kb, buf, src);
                let o = m_walk_args(args, kb, buf, src);
                assert(ValueV::Expression { operator, args: o.s } == t.value);
            }
        },
        ValueV::Call { name, args } => {
            noop_walk_args(args, kb, buf, src);
            let o = m_walk_args(args, kb, buf, src);
            assert(ValueV::Call { name, args: o.s } == t.value);
        },
        ValueV::List(elems) => {
            noop_walk_args(elems, kb, buf, src);
            let o = m_walk_args(elems, kb, buf, src);
            assert(ValueV::List(o.s) == t.value);
        },
        ValueV::Dictionary(fields) => {
            noop_walk_fields(fields, kb, buf, src);
            let o = m_walk_fields(fields, kb, buf, src);
            assert(ValueV::Dictionary(o.f) == t.value);
        },
        ValueV::InstanceLiteral { tag, fields } => {
            noop_walk_fields(fields, kb, buf, src);
            let o = m_walk_fields(fields, kb, buf, src);
            assert(ValueV::InstanceLiteral { tag, fields: o.f } == t.value);
        },
        _ => {},
    }
}

pub proof fn noop_walk_args(s: Seq<TermV>, kb: KbV, buf: Seq<ValueV>, src: u64)
    requires
        forall|i: int| 0 <= i < s.len() ==> quiet_t(#[trigger] s[i]),
    ensures
        m_walk_args(s, kb, buf, src) == (MSOut { s, kb, buf }),
    decreases d2s(s), ssize(s), 1int,
{
    if s.len() > 0 {
        noop_walk(s[0], kb, buf, src);
        assert(forall|i: int|
            0 <= i < s.drop_first().len() ==> quiet_t(#[trigger] s.drop_first()[i]));
        noop_walk_args(s.drop_first(), kb, buf, src);
        assert(seq![s[0]] + s.drop_first() =~= s);
    }
}

pub proof fn noop_logical_args(s: Seq<TermV>, kb: KbV, src: u64)
    requires
        forall|i: int| 0 <= i < s.len() ==> quiet_t(#[trigger] s[i]) && (#[trigger] s[i]).id != 0,
    ensures
        m_logical_args(s, kb, src) == (crate::model::MLOut { s, kb }),
    decreases d2s(s), ssize(s), 1int,
{
    if s.len() > 0 {
        noop_do_rewrite(s[0], kb, Seq::empty(), src);
        assert(m_drain(s[0], Seq::empty()) == s[0]);
        assert(forall|i: int|
            0 <= i < s.drop_first().len() ==> quiet_t(#[trigger] s.drop_first()[i]) && (
            #[trigger] s.drop_first()[i]).id != 0);
        noop_logical_args(s.drop_first(), kb, src);
        assert(seq![s[0]] + s.drop_first() =~= s);
    }
}

pub proof fn noop_walk_fields(s: Seq<FieldV>, kb: KbV, buf: Seq<ValueV>, src: u64)
    requires
        forall|i: int| 0 <= i < s.len() ==> quiet_t((#[trigger] s[i]).value),
    ensures
        m_walk_fields(s, kb, buf, src) == (crate::model::MFOut { f: s, kb, buf }),
    decreases d2f(s), fsize(s), 1int,
{
    if s.len() > 0 {
        noop_walk(s[0].value, kb, buf, src);
        assert(forall|i: int|
            0 <= i < s.drop_first().len() ==> quiet_t((#[trigger] s.drop_first()[i]).value));
        noop_walk_fields(s.drop_first(), kb, buf, src);
        assert(seq![FieldV { key: s[0].key, value: s[0].value }] + s.drop_first() =~= s);
        assert(FieldV { key: s[0].key, value: s[0].value } == s[0]);
    }
}

// ---------------------------------------------------------------------------
// Parameter lists
// ---------------------------------------------------------------------------

proof fn lemma_wrap_lookups_good(id: u64, vals: Seq<ValueV>)
    requires
        good_vals(vals),
        id != 0,
    ensures
        ({
            let w = wrap_lookups_v(id, vals);
            w.len() == vals.len() && forall|i: int|
                0 <= i < w.len() ==> quiet_t(#[trigger] w[i]) && dots3_t(w[i]) && w[i].id != 0
        }),
    decreases vals.len(),
{
    if vals.len() > 0 {
        assert(good_vals(vals.drop_first()));
        lemma_wrap_lookups_good(id, vals.drop_first());
        let w = wrap_lookups_v(id, vals);
        let r = wrap_lookups_v(id, vals.drop_first());
        assert forall|i: int| 0 <= i < w.len() implies quiet_t(#[trigger] w[i]) && dots3_t(w[i])
            && w[i].id != 0 by {
            if i == 0 {
                assert(w[0] == TermV { id, value: vals[0] });
            } else {
                assert(w[i] == r[i - 1]);
            }
        }
    }
}

pub proof fn post_params(ps: Seq<ParameterV>, kb: KbV, src: u64)
    requires
        wf_params(ps),
        kb.counter >= 1,
    ensures
        ({
            let o = m_params(ps, kb, src);
            o.params.len() == ps.len() && quiet_params(o.params) && (forall|i: int|
                0 <= i < o.params.len() ==> match (#[trigger] o.params[i]).specializer {
                    Some(sp) => dots3_t(sp),
                    None => true,
                }) && (forall|i: int|
                0 <= i < o.lookups.len() ==> quiet_t(#[trigger] o.lookups[i]) && dots3_t(
                    o.lookups[i],
                ) && o.lookups[i].id != 0) && o.kb.counter >= 1
        }),
    decreases ps.len(),
{
    if ps.len() > 0 {
        let o = m_params(ps, kb, src);
        match ps[0].specializer {
            Some(sp) => {
                assert(good_vals(Seq::<ValueV>::empty()));
                post_do_rewrite(sp, kb, Seq::empty(), src);
                let od = m_do_rewrite(sp, kb, Seq::empty(), src);
                lemma_wrap_lookups_good(od.t.id, od.buf);
                let o1 = m_rewrite_specializer(sp, kb, src);
                post_params(ps.drop_first(), o1.kb, src);
                let r = m_params(ps.drop_first(), o1.kb, src);
                let outp = seq![
                    ParameterV { parameter: ps[0].parameter, specializer: Some(o1.t) },
                ] + r.params;
                assert forall|i: int| 0 <= i < outp.len() implies match (
                #[trigger] outp[i]).specializer {
                    Some(sp2) => quiet_t(sp2) && sp2.id != 0 && dots3_t(sp2),
                    None => true,
                } by {
                    if i == 0 {
                    } else {
                        assert(outp[i] == r.params[i - 1]);
                    }
                }
                let outl = o1.lookups + r.lookups;
                assert forall|i: int| 0 <= i < outl.len() implies quiet_t(#[trigger] outl[i])
                    && dots3_t(outl[i]) && outl[i].id != 0 by {
                    if i < o1.lookups.len() {
                        assert(outl[i] == o1.lookups[i]);
                    } else {
                        assert(outl[i] == r.lookups[i - o1.lookups.len()]);
                    }
                }
            },
            None => {
                post_params(ps.drop_first(), kb, src);
                let r = m_params(ps.drop_first(), kb, src);
                let outp = seq![ps[0]] + r.params;
                assert forall|i: int| 0 <= i < outp.len() implies match (
                #[trigger] outp[i]).specializer {
                    Some(sp2) => quiet_t(sp2) && sp2.id != 0 && dots3_t(sp2),
                    None => true,
                } by {
                    if i == 0 {
                    } else {
                        assert(outp[i] == r.params[i - 1]);
                    }
                }
            },
        }
    }
}

pub proof fn noop_params(ps: Seq<ParameterV>, kb: KbV, src: u64)
    requires
        quiet_params(ps),
    ensures
        m_params(ps, kb, src) == (MPOut { params: ps, kb, lookups: Seq::<TermV>::empty() }),
    decreases ps.len(),
{
    if ps.len() > 0 {
        assert(forall|i: int|
            0 <= i < ps.drop_first().len() ==> match (#[trigger] ps.drop_first()[i]).specializer {
                Some(sp) => quiet_t(sp) && sp.id != 0,
                None => true,
            });
        match ps[0].specializer {
            Some(sp) => {
                noop_do_rewrite(sp, kb, Seq::empty(), src);
                assert(wrap_lookups_v(sp.id, Seq::empty()) =~= Seq::<TermV>::empty());
                noop_params(ps.drop_first(), kb, src);
                assert(ParameterV { parameter: ps[0].parameter, specializer: Some(sp) } == ps[0]);
                assert(seq![ps[0]] + ps.drop_first() =~= ps);
                assert(Seq::<TermV>::empty() + Seq::<TermV>::empty() =~= Seq::<TermV>::empty());
            },
            None => {
                noop_params(ps.drop_first(), kb, src);
                assert(seq![ps[0]] + ps.drop_first() =~= ps);
            },
        }
    }
}

// ---------------------------------------------------------------------------
// The laws
// ---------------------------------------------------------------------------

/// After a rule rewrite the body is still a conjunction with a nonzero
/// identity, nothing in the rule contains a two-argument `Dot` any more,
/// every `Dot` has exactly three arguments, and every argument of a
/// logical operator is identified: the rule is a fixed point of the pass.
pub proof fn lemma_rewrite_rule_rewritten(r: RuleV, kb: KbV, src: u64)
    requires
        wf_v(r.body.value),
        is_and(r.body.value),
        wf_params(r.params),
        kb.counter >= 1,
    ensures
        ({
            let o = m_rewrite_rule(r, kb, src);
            &&& is_and(o.r.body.value)
            &&& o.r.body.id != 0
            &&& quiet_v(o.r.body.value)
            &&& dots3_v(o.r.body.value)
            &&& quiet_params(o.r.params)
            &&& (forall|i: int|
                0 <= i < o.r.params.len() ==> match (#[trigger] o.r.params[i]).specializer {
                    Some(sp) => dots3_t(sp),
                    None => true,
                })
            &&& o.r.name == r.name
        }),
{
    crate::rewrites::lemma_rewrite_term_and(r.body, kb, src);
    assert(good_vals(Seq::<ValueV>::empty()));
    post_do_rewrite(r.body, kb, Seq::empty(), src);
    let bo = m_rewrite_term(r.body, kb, src);
    post_params(r.params, bo.kb, src);
    let po = m_params(r.params, bo.kb, src);
    match bo.t.value {
        ValueV::Expression { operator, args } => {
            let args2 = args + po.lookups;
            assert forall|i: int| 0 <= i < args2.len() implies quiet_t(#[trigger] args2[i])
                && dots3_t(args2[i]) && args2[i].id != 0 by {
                if i < args.len() {
                    assert(args2[i] == args[i]);
                    assert(quiet_t(args[i]) && args[i].id != 0) by {
                        assert(quiet_v(bo.t.value));
                    }
                    assert(dots3_t(args[i])) by {
                        assert(dots3_v(bo.t.value));
                    }
                } else {
                    assert(args2[i] == po.lookups[i - args.len()]);
                }
            }
            assert(quiet_v(ValueV::Expression { operator: Operator::And, args: args2 }));
            assert(dots3_v(ValueV::Expression { operator: Operator::And, args: args2 }));
        },
        _ => {
            assert(false);
        },
    }
}

/// Idempotence: rewriting an already-rewritten rule, under any knowledge
/// base and source unit, changes neither the rule nor the knowledge base;
/// in particular the twice-rewritten rule prints textually the same.
pub proof fn lemma_rewrite_rule_idempotent(r: RuleV, kb: KbV, src: u64, kb2: KbV, src2: u64)
    requires
        wf_v(r.body.value),
        is_and(r.body.value),
        wf_params(r.params),
        kb.counter >= 1,
    ensures
        ({
            let o = m_rewrite_rule(r, kb, src);
            let o2 = m_rewrite_rule(o.r, kb2, src2);
            o2.r == o.r && o2.kb == kb2 && crate::printer::p_rule(o2.r) == crate::printer::p_rule(
                o.r,
            )
        }),
{
    lemma_rewrite_rule_rewritten(r, kb, src);
    let o = m_rewrite_rule(r, kb, src);
    noop_do_rewrite(o.r.body, kb2, Seq::empty(), src2);
    assert(m_drain(o.r.body, Seq::<ValueV>::empty()) == o.r.body);
    let bo2 = m_rewrite_term(o.r.body, kb2, src2);
    assert(bo2.t == o.r.body && bo2.kb == kb2);
    noop_params(o.r.params, kb2, src2);
    let po2 = m_params(o.r.params, kb2, src2);
    match o.r.body.value {
        ValueV::Expression { operator, args } => {
            assert(args + po2.lookups =~= args);
            assert(ValueV::Expression { operator: Operator::And, args: args + po2.lookups }
                == o.r.body.value);
        },
        _ => {
            assert(false);
        },
    }
}

/// The arity invariant: after rewriting a term, every `Dot` expression in
/// it has exactly three arguments, and none has two.
pub proof fn lemma_rewrite_term_arity(t: TermV, kb: KbV, src: u64)
    requires
        wf_v(t.value),
        kb.counter >= 1,
    ensures
        dots3_v(m_rewrite_term(t, kb, src).t.value),
        quiet_v(m_rewrite_term(t, kb, src).t.value),
{
    assert(good_vals(Seq::<ValueV>::empty()));
    post_do_rewrite(t, kb, Seq::empty(), src);
    let o = m_do_rewrite(t, kb, Seq::empty(), src);
    post_drain(o.t, o.buf);
}

/// The arity invariant for whole rules: after rewriting, every `Dot` in
/// the body and in every specializer has exactly three arguments.
pub proof fn lemma_rewrite_rule_arity(r: RuleV, kb: KbV, src: u64)
    requires
        wf_v(r.body.value),
        is_and(r.body.value),
        wf_params(r.params),
        kb.counter >= 1,
    ensures
        ({
            let o = m_rewrite_rule(r, kb, src);
            dots3_v(o.r.body.value) && quiet_v(o.r.body.value) && (forall|i: int|
                0 <= i < o.r.params.len() ==> match (#[trigger] o.r.params[i]).specializer {
                    Some(sp) => dots3_t(sp) && quiet_t(sp),
                    None => true,
                })
        }),
{
    lemma_rewrite_rule_rewritten(r, kb, src);
}

// ---------------------------------------------------------------------------
// Determinism: everything but the recorded sources depends on the counter
// alone
// ---------------------------------------------------------------------------

pub proof fn det_do_rewrite(t: TermV, kb1: KbV, kb2: KbV, buf: Seq<ValueV>, src1: u64, src2: u64)
    requires
        kb1.counter == kb2.counter,
    ensures
        ({
            let o1 = m_do_rewrite(t, kb1, buf, src1);
            let o2 = m_do_rewrite(t, kb2, buf, src2);
            o1.t == o2.t && o1.buf == o2.buf && o1.kb.counter == o2.kb.counter
        }),
    decreases d2t(t), tsize(t), 3int,
{
    if t.id == 0 {
        let (n, kb1a) = m_new_id(kb1);
        let kb1b = crate::kb::m_record_source(kb1a, n, src1);
        let (_n2, kb2a) = m_new_id(kb2);
        let kb2b = crate::kb::m_record_source(kb2a, _n2, src2);
        det_walk(TermV { id: n, value: t.value }, kb1b, kb2b, buf, src1, src2);
    } else {
        det_walk(t, kb1, kb2, buf, src1, src2);
    }
}

pub proof fn det_walk(t: TermV, kb1: KbV, kb2: KbV, buf: Seq<ValueV>, src1: u64, src2: u64)
    requires
        kb1.counter == kb2.counter,
    ensures
        ({
            let o1 = m_walk(t, kb1, buf, src1);
            let o2 = m_walk(t, kb2, buf, src2);
            o1.t == o2.t && o1.buf == o2.buf && o1.kb.counter == o2.kb.counter
        }),
    decreases d2t(t), tsize(t), 2int,
{
    let r1 = m_rewrite(t.value, kb1);
    let r2 = m_rewrite(t.value, kb2);
    match r1.2 {
        Some(lookup) => {
            match t.value {
                ValueV::Expression { operator, args } => {
                    let (name, _kbg) = crate::kb::m_gensym(kb1, "value"@);
                    let var_t = TermV { id: args[1].id, value: ValueV::Symbol(name) };
                    lemma_d2s_push(args, var_t);
                    assert(r2.0 == r1.0 && r2.2 == r1.2);
                    det_do_rewrite(
                        TermV { id: t.id, value: lookup },
                        r1.1,
                        r2.1,
                        buf,
                        src1,
                        src2,
                    );
                },
                _ => {
                    assert(false);
                },
            }
        },
        None => {
            match t.value {
                ValueV::Expression { operator, args } => {
                    if spec_is_logical(operator) {
                        det_logical_args(args, kb1, kb2, src1, src2);
                    } else {
                        det_walk_args(args, kb1, kb2, buf, src1, src2);
                    }
                },
                ValueV::Call { name: _, args } => {
                    det_walk_args(args, kb1, kb2, buf, src1, src2);
                },
                ValueV::List(elems) => {
                    det_walk_args(elems, kb1, kb2, buf, src1, src2);
                },
                ValueV::Dictionary(fields) => {
                    det_walk_fields(fields, kb1, kb2, buf, src1, src2);
                },
                ValueV::InstanceLiteral { tag: _, fields } => {
                    det_walk_fields(fields, kb1, kb2, buf, src1, src2);
                },
                _ => {},
            }
        },
    }
}

pub proof fn det_walk_args(
    s: Seq<TermV>,
    kb1: KbV,
    kb2: KbV,
    buf: Seq<ValueV>,
    src1: u64,
    src2: u64,
)
    requires
        kb1.counter == kb2.counter,
    ensures
        ({
            let o1 = m_walk_args(s, kb1, buf, src1);
            let o2 = m_walk_args(s, kb2, buf, src2);
            o1.s == o2.s && o1.buf == o2.buf && o1.kb.counter == o2.kb.counter
        }),
    decreases d2s(s), ssize(s), 1int,
{
    if s.len() > 0 {
        det_walk(s[0], kb1, kb2, buf, src1, src2);
        let o1 = m_walk(s[0], kb1, buf, src1);
        let o2 = m_walk(s[0], kb2, buf, src2);
        det_walk_args(s.drop_first(), o1.kb, o2.kb, o1.buf, src1, src2);
    }
}

pub proof fn det_logical_args(s: Seq<TermV>, kb1: KbV, kb2: KbV, src1: u64, src2: u64)
    requires
        kb1.counter == kb2.counter,
    ensures
        ({
            let o1 = m_logical_args(s, kb1, src1);
            let o2 = m_logical_args(s, kb2, src2);
            o1.s == o2.s && o1.kb.counter == o2.kb.counter
        }),
    decreases d2s(s), ssize(s), 1int,
{
    if s.len() > 0 {
        det_do_rewrite(s[0], kb1, kb2, Seq::empty(), src1, src2);
        let o1 = m_do_rewrite(s[0], kb1, Seq::empty(), src1);
        let o2 = m_do_rewrite(s[0], kb2, Seq::empty(), src2);
        det_logical_args(s.drop_first(), o1.kb, o2.kb, src1, src2);
    }
}

pub proof fn det_walk_fields(
    s: Seq<FieldV>,
    kb1: KbV,
    kb2: KbV,
    buf: Seq<ValueV>,
    src1: u64,
    src2: u64,
)
    requires
        kb1.counter == kb2.counter,
    ensures
        ({
            let o1 = m_walk_fields(s, kb1, buf, src1);
            let o2 = m_walk_fields(s, kb2, buf, src2);
            o1.f == o2.f && o1.buf == o2.buf && o1.kb.counter == o2.kb.counter
        }),
    decreases d2f(s), fsize(s), 1int,
{
    if s.len() > 0 {
        det_walk(s[0].value, kb1, kb2, buf, src1, src2);
        let o1 = m_walk(s[0].value, kb1, buf, src1);
        let o2 = m_walk(s[0].value, kb2, buf, src2);
        det_walk_fields(s.drop_first(), o1.kb, o2.kb, o1.buf, src1, src2);
    }
}

pub proof fn det_params(s: Seq<ParameterV>, kb1: KbV, kb2: KbV, src1: u64, src2: u64)
    requires
        kb1.counter == kb2.counter,
    ensures
        ({
            let o1 = m_params(s, kb1, src1);
            let o2 = m_params(s, kb2, src2);
            o1.params == o2.params && o1.lookups == o2.lookups && o1.kb.counter == o2.kb.counter
        }),
    decreases s.len(),
{
    if s.len() > 0 {
        match s[0].specializer {
            Some(sp) => {
                det_do_rewrite(sp, kb1, kb2, Seq::empty(), src1, src2);
                let o1 = m_rewrite_specializer(sp, kb1, src1);
                let o2 = m_rewrite_specializer(sp, kb2, src2);
                det_params(s.drop_first(), o1.kb, o2.kb, src1, src2);
            },
            None => {
                det_params(s.drop_first(), kb1, kb2, src1, src2);
            },
        }
    }
}

/// Determinism: two independent rewrites of structurally identical rules,
/// under knowledge bases whose counters are seeded identically (whatever
/// sources each has recorded, and whatever source units are passed),
/// produce structurally identical rules and leave the counters equal.
pub proof fn lemma_rewrite_rule_deterministic(
    r1: RuleV,
    r2: RuleV,
    kb1: KbV,
    kb2: KbV,
    src1: u64,
    src2: u64,
)
    requires
        r1 == r2,
        kb1.counter == kb2.counter,
    ensures
        ({
            let o1 = m_rewrite_rule(r1, kb1, src1);
            let o2 = m_rewrite_rule(r2, kb2, src2);
            o1.r == o2.r && o1.kb.counter == o2.kb.counter
        }),
{
    det_do_rewrite(r1.body, kb1, kb2, Seq::empty(), src1, src2);
    let b1 = m_do_rewrite(r1.body, kb1, Seq::empty(), src1);
    let b2 = m_do_rewrite(r2.body, kb2, Seq::empty(), src2);
    det_params(r1.params, b1.kb, b2.kb, src1, src2);
}

/// Below saturation, each identity allocation returns the counter and
/// strictly increases it, so identities are never reused.
pub proof fn lemma_new_id_strictly_increasing(kb: KbV)
    requires
        kb.counter < u64::MAX,
    ensures
        ({
            let (n, kb2) = m_new_id(kb);
            n == kb.counter && kb2.counter == kb.counter + 1 && n < kb2.counter
        }),
{
}

// ---------------------------------------------------------------------------
// Round-trip stability
// ---------------------------------------------------------------------------

/// A term's shape: the same tree with every identity erased, which is what
/// re-parsing its printed text produces.
pub open spec fn strip_t(t: TermV) -> TermV
    decreases t,
{
    TermV { id: 0, value: strip_v(t.value) }
}

pub open spec fn strip_v(v: ValueV) -> ValueV
    decreases v,
{
    match v {
        ValueV::List(l) => ValueV::List(strip_s(l)),
        ValueV::Dictionary(f) => ValueV::Dictionary(strip_f(f)),
        ValueV::InstanceLiteral { tag, fields } => ValueV::InstanceLiteral {
            tag,
            fields: strip_f(fields),
        },
        ValueV::Call { name, args } => ValueV::Call { name, args: strip_s(args) },
        ValueV::Expression { operator, args } => ValueV::Expression {
            operator,
            args: strip_s(args),
        },
        other => other,
    }
}

pub open spec fn strip_s(s: Seq<TermV>) -> Seq<TermV>
    decreases s,
{
    if s.len() == 0 {
        Seq::empty()
    } else {
        seq![strip_t(s[0])] + strip_s(s.drop_first())
    }
}

pub open spec fn strip_f(s: Seq<FieldV>) -> Seq<FieldV>
    decreases s,
{
    if s.len() == 0 {
        Seq::empty()
    } else {
        seq![FieldV { key: s[0].key, value: strip_t(s[0].value) }] + strip_f(s.drop_first())
    }
}

pub proof fn lemma_strip_s_index(s: Seq<TermV>, i: int)
    requires
        0 <= i < s.len(),
    ensures
        strip_s(s).len() == s.len(),
        strip_s(s)[i] == strip_t(s[i]),
    decreases s.len(),
{
    lemma_strip_s_len(s);
    if i > 0 {
        lemma_strip_s_index(s.drop_first(), i - 1);
        assert(s.drop_first()[i - 1] == s[i]);
    }
}

pub proof fn lemma_strip_s_len(s: Seq<TermV>)
    ensures
        strip_s(s).len() == s.len(),
    decreases s.len(),
{
    if s.len() > 0 {
        lemma_strip_s_len(s.drop_first());
    }
}

pub proof fn lemma_strip_f_index(s: Seq<FieldV>, i: int)
    requires
        0 <= i < s.len(),
    ensures
        strip_f(s).len() == s.len(),
        strip_f(s)[i] == (FieldV { key: s[i].key, value: strip_t(s[i].value) }),
    decreases s.len(),
{
    lemma_strip_f_len(s);
    if i > 0 {
        lemma_strip_f_index(s.drop_first(), i - 1);
        assert(s.drop_first()[i - 1] == s[i]);
    }
}

pub proof fn lemma_strip_f_len(s: Seq<FieldV>)
    ensures
        strip_f(s).len() == s.len(),
    decreases s.len(),
{
    if s.len() > 0 {
        lemma_strip_f_len(s.drop_first());
    }
}

/// No two-argument `Dot` anywhere in the tree: a shape-level property.
pub open spec fn no_dot2_t(t: TermV) -> bool
    decreases t,
{
    no_dot2_v(t.value)
}

pub open spec fn no_dot2_v(v: ValueV) -> bool
    decreases v,
{
    match v {
        ValueV::List(l) => forall|i: int| 0 <= i < l.len() ==> no_dot2_t(#[trigger] l[i]),
        ValueV::Dictionary(f) => forall|i: int|
            0 <= i < f.len() ==> no_dot2_t(#[trigger] f[i].value),
        ValueV::InstanceLiteral { tag: _, fields } => forall|i: int|
            0 <= i < fields.len() ==> no_dot2_t(#[trigger] fields[i].value),
        ValueV::Call { name: _, args } => forall|i: int|
            0 <= i < args.len() ==> no_dot2_t(#[trigger] args[i]),
        ValueV::Expression { operator, args } => !(operator == Operator::Dot && args.len() == 2)
            && (forall|i: int| 0 <= i < args.len() ==> no_dot2_t(#[trigger] args[i])),
        _ => true,
    }
}

// ---------------------------------------------------------------------------
// On a tree with no two-argument `Dot`, the pass changes shape nowhere:
// it can only assign identities
// ---------------------------------------------------------------------------

pub proof fn shape_do_rewrite(t: TermV, kb: KbV, buf: Seq<ValueV>, src: u64)
    requires
        no_dot2_v(t.value),
    ensures
        ({
            let o = m_do_rewrite(t, kb, buf, src);
            strip_v(o.t.value) == strip_v(t.value) && o.buf == buf
        }),
    decreases d2t(t), tsize(t), 3int,
{
    if t.id == 0 {
        let (n, kb1) = m_new_id(kb);
        let kb2 = crate::kb::m_record_source(kb1, n, src);
        shape_walk(TermV { id: n, value: t.value }, kb2, buf, src);
    } else {
        shape_walk(t, kb, buf, src);
    }
}

pub proof fn shape_walk(t: TermV, kb: KbV, buf: Seq<ValueV>, src: u64)
    requires
        no_dot2_v(t.value),
    ensures
        ({
            let o = m_walk(t, kb, buf, src);
            strip_v(o.t.value) == strip_v(t.value) && o.buf == buf
        }),
    decreases d2t(t), tsize(t), 2int,
{
    match t.value {
        ValueV::Expression { operator, args } => {
            if spec_is_logical(operator) {
                shape_logical_args(args, kb, src);
            } else {
                shape_walk_args(args, kb, buf, src);
            }
        },
        ValueV::Call { name: _, args } => {
            shape_walk_args(args, kb, buf, src);
        },
        ValueV::List(elems) => {
            shape_walk_args(elems, kb, buf, src);
        },
        ValueV::Dictionary(fields) => {
            shape_walk_fields(fields, kb, buf, src);
        },
        ValueV::InstanceLiteral { tag: _, fields } => {
            shape_walk_fields(fields, kb, buf, src);
        },
        _ => {},
    }
}

pub proof fn shape_walk_args(s: Seq<TermV>, kb: KbV, buf: Seq<ValueV>, src: u64)
    requires
        forall|i: int| 0 <= i < s.len() ==> no_dot2_t(#[trigger] s[i]),
    ensures
        ({
            let o = m_walk_args(s, kb, buf, src);
            strip_s(o.s) == strip_s(s) && o.buf == buf
        }),
    decreases d2s(s), ssize(s), 1int,
{
    if s.len() > 0 {
        shape_walk(s[0], kb, buf, src);
        let o = m_walk(s[0], kb, buf, src);
        shape_walk_args(s.drop_first(), o.kb, o.buf, src);
        let r = m_walk_args(s.drop_first(), o.kb, o.buf, src);
        let out = seq![o.t] + r.s;
        assert(out[0] == o.t);
        assert(out.drop_first() =~= r.s);
        assert(strip_t(out[0]) == strip_t(s[0]));
        assert(strip_s(out) =~= strip_s(s));
    }
}

pub proof fn shape_logical_args(s: Seq<TermV>, kb: KbV, src: u64)
    requires
        forall|i: int| 0 <= i < s.len() ==> no_dot2_t(#[trigger] s[i]),
    ensures
        strip_s(m_logical_args(s, kb, src).s) == strip_s(s),
    decreases d2s(s), ssize(s), 1int,
{
    if s.len() > 0 {
        shape_do_rewrite(s[0], kb, Seq::empty(), src);
        let o = m_do_rewrite(s[0], kb, Seq::empty(), src);
        assert(m_drain(o.t, o.buf) == o.t);
        shape_logical_args(s.drop_first(), o.kb, src);
        let r = m_logical_args(s.drop_first(), o.kb, src);
        let out = seq![o.t] + r.s;
        assert(out[0] == o.t);
        assert(out.drop_first() =~= r.s);
        assert(strip_t(out[0]) == strip_t(s[0]));
        assert(strip_s(out) =~= strip_s(s));
    }
}

pub proof fn shape_walk_fields(s: Seq<FieldV>, kb: KbV, buf: Seq<ValueV>, src: u64)
    requires
        forall|i: int| 0 <= i < s.len() ==> no_dot2_t((#[trigger] s[i]).value),
    ensures
        ({
            let o = m_walk_fields(s, kb, buf, src);
            strip_f(o.f) == strip_f(s) && o.buf == buf
        }),
    decreases d2f(s), fsize(s), 1int,
{
    if s.len() > 0 {
        shape_walk(s[0].value, kb, buf, src);
        let o = m_walk(s[0].value, kb, buf, src);
        shape_walk_fields(s.drop_first(), o.kb, o.buf, src);
        let r = m_walk_fields(s.drop_first(), o.kb, o.buf, src);
        let out = seq![FieldV { key: s[0].key, value: o.t }] + r.f;
        assert(out[0] == FieldV { key: s[0].key, value: o.t });
        assert(out.drop_first() =~= r.f);
        assert(strip_t(out[0].value) == strip_t(s[0].value));
        assert(strip_f(out) =~= strip_f(s));
    }
}

/// A fully rewritten tree has no two-argument `Dot` left.
pub proof fn lemma_quiet_no_dot2_v(v: ValueV)
    requires
        quiet_v(v),
    ensures
        no_dot2_v(v),
    decreases v,
{
    match v {
        ValueV::List(l) => {
            assert forall|i: int| 0 <= i < l.len() implies no_dot2_t(#[trigger] l[i]) by {
                lemma_quiet_no_dot2_v(l[i].value);
            }
        },
        ValueV::Dictionary(f) => {
            assert forall|i: int| 0 <= i < f.len() implies no_dot2_t(#[trigger] f[i].value) by {
                lemma_quiet_no_dot2_v(f[i].value.value);
            }
        },
        ValueV::InstanceLiteral { tag: _, fields } => {
            assert forall|i: int| 0 <= i < fields.len() implies no_dot2_t(
                #[trigger] fields[i].value,
            ) by {
                lemma_quiet_no_dot2_v(fields[i].value.value);
            }
        },
        ValueV::Call { name: _, args } => {
            assert forall|i: int| 0 <= i < args.len() implies no_dot2_t(#[trigger] args[i]) by {
                lemma_quiet_no_dot2_v(args[i].value);
            }
        },
        ValueV::Expression { operator: _, args } => {
            assert forall|i: int| 0 <= i < args.len() implies no_dot2_t(#[trigger] args[i]) by {
                lemma_quiet_no_dot2_v(args[i].value);
            }
        },
        _ => {},
    }
}

/// Erasing identities removes no two-argument `Dot` and creates none.
pub proof fn lemma_no_dot2_to_strip_v(v: ValueV)
    requires
        no_dot2_v(v),
    ensures
        no_dot2_v(strip_v(v)),
    decreases v,
{
    match v {
        ValueV::List(l) => {
            lemma_strip_s_len(l);
            assert forall|i: int| 0 <= i < strip_s(l).len() implies no_dot2_t(
                #[trigger] strip_s(l)[i],
            ) by {
                lemma_strip_s_index(l, i);
                assert(no_dot2_t(l[i]));
                lemma_no_dot2_to_strip_v(l[i].value);
            }
        },
        ValueV::Dictionary(f) => {
            lemma_strip_f_len(f);
            assert forall|i: int| 0 <= i < strip_f(f).len() implies no_dot2_t(
                (#[trigger] strip_f(f)[i]).value,
            ) by {
                lemma_strip_f_index(f, i);
                assert(no_dot2_t(f[i].value));
                lemma_no_dot2_to_strip_v(f[i].value.value);
            }
        },
        ValueV::InstanceLiteral { tag: _, fields } => {
            lemma_strip_f_len(fields);
            assert forall|i: int| 0 <= i < strip_f(fields).len() implies no_dot2_t(
                (#[trigger] strip_f(fields)[i]).value,
            ) by {
                lemma_strip_f_index(fields, i);
                assert(no_dot2_t(fields[i].value));
                lemma_no_dot2_to_strip_v(fields[i].value.value);
            }
        },
        ValueV::Call { name: _, args } => {
            lemma_strip_s_len(args);
            assert forall|i: int| 0 <= i < strip_s(args).len() implies no_dot2_t(
                #[trigger] strip_s(args)[i],
            ) by {
                lemma_strip_s_index(args, i);
                assert(no_dot2_t(args[i]));
                lemma_no_dot2_to_strip_v(args[i].value);
            }
        },
        ValueV::Expression { operator: _, args } => {
            lemma_strip_s_len(args);
            assert forall|i: int| 0 <= i < strip_s(args).len() implies no_dot2_t(
                #[trigger] strip_s(args)[i],
            ) by {
                lemma_strip_s_index(args, i);
                assert(no_dot2_t(args[i]));
                lemma_no_dot2_to_strip_v(args[i].value);
            }
        },
        _ => {},
    }
}

/// A tree whose shape holds no two-argument `Dot` holds none itself:
/// restoring identities to a shape changes no operator and no arity.
pub proof fn lemma_no_dot2_from_strip_v(v: ValueV)
    requires
        no_dot2_v(strip_v(v)),
    ensures
        no_dot2_v(v),
    decreases v,
{
    match v {
        ValueV::List(l) => {
            lemma_strip_s_len(l);
            match strip_v(v) {
                ValueV::List(ls) => {
                    assert(ls == strip_s(l));
                    assert forall|i: int| 0 <= i < l.len() implies no_dot2_t(#[trigger] l[i]) by {
                        lemma_strip_s_index(l, i);
                        assert(no_dot2_t(ls[i]));
                        lemma_no_dot2_from_strip_v(l[i].value);
                    }
                },
                _ => {
                    assert(false);
                },
            }
        },
        ValueV::Dictionary(f) => {
            lemma_strip_f_len(f);
            match strip_v(v) {
                ValueV::Dictionary(fs) => {
                    assert(fs == strip_f(f));
                    assert forall|i: int| 0 <= i < f.len() implies no_dot2_t(
                        (#[trigger] f[i]).value,
                    ) by {
                        lemma_strip_f_index(f, i);
                        assert(no_dot2_t(fs[i].value));
                        lemma_no_dot2_from_strip_v(f[i].value.value);
                    }
                },
                _ => {
                    assert(false);
                },
            }
        },
        ValueV::InstanceLiteral { tag: _, fields } => {
            lemma_strip_f_len(fields);
            match strip_v(v) {
                ValueV::InstanceLiteral { tag: _, fields: fs } => {
                    assert(fs == strip_f(fields));
                    assert forall|i: int| 0 <= i < fields.len() implies no_dot2_t(
                        (#[trigger] fields[i]).value,
                    ) by {
                        lemma_strip_f_index(fields, i);
                        assert(no_dot2_t(fs[i].value));
                        lemma_no_dot2_from_strip_v(fields[i].value.value);
                    }
                },
                _ => {
                    assert(false);
                },
            }
        },
        ValueV::Call { name: _, args } => {
            lemma_strip_s_len(args);
            match strip_v(v) {
                ValueV::Call { name: _, args: args2 } => {
                    assert(args2 == strip_s(args));
                    assert forall|i: int| 0 <= i < args.len() implies no_dot2_t(
                        #[trigger] args[i],
                    ) by {
                        lemma_strip_s_index(args, i);
                        assert(no_dot2_t(args2[i]));
                        lemma_no_dot2_from_strip_v(args[i].value);
                    }
                },
                _ => {
                    assert(false);
                },
            }
        },
        ValueV::Expression { operator, args } => {
            lemma_strip_s_len(args);
            match strip_v(v) {
                ValueV::Expression { operator: op2, args: args2 } => {
                    assert(op2 == operator);
                    assert(args2 == strip_s(args));
                    assert(args2.len() == args.len());
                    assert(!(operator == Operator::Dot && args.len() == 2));
                    assert forall|i: int| 0 <= i < args.len() implies no_dot2_t(
                        #[trigger] args[i],
                    ) by {
                        lemma_strip_s_index(args, i);
                        assert(no_dot2_t(args2[i]));
                        lemma_no_dot2_from_strip_v(args[i].value);
                    }
                },
                _ => {
                    assert(false);
                },
            }
        },
        _ => {},
    }
}

// ---------------------------------------------------------------------------
// The printed text never reads identities
// ---------------------------------------------------------------------------

pub proof fn print_strip_t(t: TermV)
    ensures
        crate::printer::p_term(strip_t(t)) == crate::printer::p_term(t),
    decreases tsize(t), 0int,
{
    match t.value {
        ValueV::List(l) => {
            print_strip_s(l, ","@);
        },
        ValueV::Dictionary(f) => {
            print_strip_f(f);
        },
        ValueV::InstanceLiteral { tag: _, fields } => {
            print_strip_f(fields);
        },
        ValueV::Call { name: _, args } => {
            print_strip_s(args, ","@);
        },
        ValueV::Expression { operator, args } => {
            lemma_strip_s_len(args);
            if operator == Operator::Dot && args.len() == 2 {
                lemma_strip_s_index(args, 0);
                lemma_strip_s_index(args, 1);
                crate::terms::lemma_ssize_elem(args, 0);
                crate::terms::lemma_ssize_elem(args, 1);
                print_strip_t(args[0]);
                print_strip_t(args[1]);
            } else if operator == Operator::Dot {
                print_strip_s(args, ","@);
            } else if operator == Operator::Not {
                print_strip_s(args, ","@);
            } else {
                print_strip_s(args, crate::printer::op_sep(operator));
            }
        },
        _ => {},
    }
}

pub proof fn print_strip_s(s: Seq<TermV>, sep: Seq<char>)
    ensures
        crate::printer::p_terms(strip_s(s), sep) == crate::printer::p_terms(s, sep),
    decreases ssize(s), 1int,
{
    lemma_strip_s_len(s);
    if s.len() == 0 {
    } else if s.len() == 1 {
        lemma_strip_s_index(s, 0);
        print_strip_t(s[0]);
    } else {
        lemma_strip_s_index(s, 0);
        print_strip_t(s[0]);
        print_strip_s(s.drop_first(), sep);
        assert(strip_s(s).drop_first() =~= strip_s(s.drop_first()));
    }
}

pub proof fn print_strip_f(s: Seq<FieldV>)
    ensures
        crate::printer::p_fields(strip_f(s)) == crate::printer::p_fields(s),
    decreases fsize(s), 1int,
{
    lemma_strip_f_len(s);
    if s.len() == 0 {
    } else if s.len() == 1 {
        lemma_strip_f_index(s, 0);
        print_strip_t(s[0].value);
    } else {
        lemma_strip_f_index(s, 0);
        print_strip_t(s[0].value);
        print_strip_f(s.drop_first());
        assert(strip_f(s).drop_first() =~= strip_f(s.drop_first()));
    }
}

/// Round-trip stability: re-parsing a rewritten term's printed text yields
/// a tree of the same shape with every identity back at the unassigned
/// sentinel; rewriting that tree again, under any knowledge base and
/// source unit, prints identically to the first rewrite's output.
pub proof fn lemma_round_trip_stable(t: TermV, kb: KbV, src: u64, t2: TermV, kb2: KbV, src2: u64)
    requires
        wf_v(t.value),
        kb.counter >= 1,
        strip_t(t2) == strip_t(m_rewrite_term(t, kb, src).t),
    ensures
        crate::printer::p_term(m_rewrite_term(t2, kb2, src2).t) == crate::printer::p_term(
            m_rewrite_term(t, kb, src).t,
        ),
{
    let o1 = m_rewrite_term(t, kb, src);
    lemma_rewrite_term_arity(t, kb, src);
    lemma_quiet_no_dot2_v(o1.t.value);
    lemma_no_dot2_to_strip_v(o1.t.value);
    assert(strip_v(t2.value) == strip_v(o1.t.value));
    lemma_no_dot2_from_strip_v(t2.value);
    shape_do_rewrite(t2, kb2, Seq::empty(), src2);
    let od2 = m_do_rewrite(t2, kb2, Seq::empty(), src2);
    assert(m_drain(od2.t, od2.buf) == od2.t);
    let o2 = m_rewrite_term(t2, kb2, src2);
    print_strip_t(od2.t);
    assert(strip_t(od2.t) == strip_t(t2));
    print_strip_t(o1.t);
}

} // verus!

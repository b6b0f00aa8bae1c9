//! The mathematical model of the rewrite pass. Every executable function of
//! the pass is proved to return exactly what these specification functions
//! say; the pass's laws (idempotence, the lookup-arity invariant,
//! determinism) are proved about this model.
use vstd::prelude::*;
use crate::kb::{m_gensym, m_new_id, m_record_source, KbV};
use crate::terms::{
    d2f, d2s, d2t, d2v, fsize, spec_is_logical, ssize, tsize, FieldV, Operator, ParameterV, RuleV,
    TermV, ValueV,
};

verus! {

/// Result of walking one term: the rewritten term, the knowledge base, and
/// the pending-lookup buffer (the caller's buffer plus anything appended).
pub struct MOut {
    pub t: TermV,
    pub kb: KbV,
    pub buf: Seq<ValueV>,
}

/// Result of walking a sequence of argument terms.
pub struct MSOut {
    pub s: Seq<TermV>,
    pub kb: KbV,
    pub buf: Seq<ValueV>,
}

/// Result of walking the arguments of a logical operator: their pending
/// lookups are inlined in place, so no buffer escapes.
pub struct MLOut {
    pub s: Seq<TermV>,
    pub kb: KbV,
}

/// Result of walking a sequence of dictionary or instance-literal fields.
pub struct MFOut {
    pub f: Seq<FieldV>,
    pub kb: KbV,
    pub buf: Seq<ValueV>,
}

/// Result of a whole-term rewrite.
pub struct MTOut {
    pub t: TermV,
    pub kb: KbV,
}

/// Result of a specializer rewrite: the rewritten specializer and its
/// pending lookups as standalone terms, handed to the caller to place.
pub struct MSpOut {
    pub t: TermV,
    pub kb: KbV,
    pub lookups: Seq<TermV>,
}

/// Result of rewriting a parameter list.
pub struct MPOut {
    pub params: Seq<ParameterV>,
    pub kb: KbV,
    pub lookups: Seq<TermV>,
}

/// Result of a rule rewrite.
pub struct MROut {
    pub r: RuleV,
    pub kb: KbV,
}

/// The dot-lookup detector: a two-argument `Dot` value becomes a fresh
/// symbol in place, and the three-argument lookup (the original arguments
/// plus a clone of the second argument carrying the fresh symbol) is handed
/// back as a pending lookup. Any other value is left alone.
pub open spec fn m_rewrite(v: ValueV, kb: KbV) -> (ValueV, KbV, Option<ValueV>) {
    match v {
        ValueV::Expression { operator, args } => {
            if operator == Operator::Dot && args.len() == 2 {
                let (name, kb2) = m_gensym(kb, "value"@);
                let var_t = TermV { id: args[1].id, value: ValueV::Symbol(name) };
                (
                    ValueV::Symbol(name),
                    kb2,
                    Some(
                        ValueV::Expression { operator: Operator::Dot, args: args.push(var_t) },
                    ),
                )
            } else {
                (v, kb, None::<ValueV>)
            }
        },
        _ => (v, kb, None::<ValueV>),
    }
}

/// Replace a term by the conjunction of a pending lookup and the term.
pub open spec fn and_wrap_v(t: TermV, b: ValueV) -> TermV {
    TermV {
        id: t.id,
        value: ValueV::Expression {
            operator: Operator::And,
            args: seq![TermV { id: t.id, value: b }, TermV { id: t.id, value: t.value }],
        },
    }
}

/// Drain a buffer of pending lookups into a term, most recently generated
/// innermost, so that earlier-produced lookups execute first.
pub open spec fn m_drain(t: TermV, buf: Seq<ValueV>) -> TermV
    decreases buf.len(),
{
    if buf.len() == 0 {
        t
    } else {
        m_drain(and_wrap_v(t, buf.last()), buf.drop_last())
    }
}

/// Identify a term on first visit, then walk it.
pub open spec fn m_do_rewrite(t: TermV, kb: KbV, buf: Seq<ValueV>, src: u64) -> MOut
    decreases d2t(t), tsize(t), 3int,
{
    if t.id == 0 {
        let (n, kb1) = m_new_id(kb);
        let kb2 = m_record_source(kb1, n, src);
        m_walk(TermV { id: n, value: t.value }, kb2, buf, src)
    } else {
        m_walk(t, kb, buf, src)
    }
}

/// The recursive tree walker: desugar this node if it is a two-argument
/// `Dot` (recursively rewriting the emitted lookup, then appending it to
/// the buffer); otherwise recurse structurally, inlining each logical
/// argument's lookups immediately and letting all others bubble up.
pub open spec fn m_walk(t: TermV, kb: KbV, buf: Seq<ValueV>, src: u64) -> MOut
    decreases d2t(t), tsize(t), 2int,
    via m_walk_decreases
{
    let r = m_rewrite(t.value, kb);
    match r.2 {
        Some(lookup) => {
            let o = m_do_rewrite(TermV { id: t.id, value: lookup }, r.1, buf, src);
            MOut { t: TermV { id: t.id, value: r.0 }, kb: o.kb, buf: o.buf.push(o.t.value) }
        },
        None => match t.value {
            ValueV::Expression { operator, args } => {
                if spec_is_logical(operator) {
                    let lo = m_logical_args(args, kb, src);
                    MOut {
                        t: TermV { id: t.id, value: ValueV::Expression { operator, args: lo.s } },
                        kb: lo.kb,
                        buf,
                    }
                } else {
                    let o = m_walk_args(args, kb, buf, src);
                    MOut {
                        t: TermV { id: t.id, value: ValueV::Expression { operator, args: o.s } },
                        kb: o.kb,
                        buf: o.buf,
                    }
                }
            },
            ValueV::Call { name, args } => {
                let o = m_walk_args(args, kb, buf, src);
                MOut {
                    t: TermV { id: t.id, value: ValueV::Call { name, args: o.s } },
                    kb: o.kb,
                    buf: o.buf,
                }
            },
            ValueV::List(elems) => {
                let o = m_walk_args(elems, kb, buf, src);
                MOut { t: TermV { id: t.id, value: ValueV::List(o.s) }, kb: o.kb, buf: o.buf }
            },
            ValueV::Dictionary(fields) => {
                let o = m_walk_fields(fields, kb, buf, src);
                MOut { t: TermV { id: t.id, value: ValueV::Dictionary(o.f) }, kb: o.kb, buf: o.buf }
            },
            ValueV::InstanceLiteral { tag, fields } => {
                let o = m_walk_fields(fields, kb, buf, src);
                MOut {
                    t: TermV { id: t.id, value: ValueV::InstanceLiteral { tag, fields: o.f } },
                    kb: o.kb,
                    buf: o.buf,
                }
            },
            _ => MOut { t, kb, buf },
        },
    }
}

/// Walk argument terms left to right, threading the ambient buffer.
pub open spec fn m_walk_args(s: Seq<TermV>, kb: KbV, buf: Seq<ValueV>, src: u64) -> MSOut
    decreases d2s(s), ssize(s), 1int,
{
    if s.len() == 0 {
        MSOut { s, kb, buf }
    } else {
        let o = m_walk(s[0], kb, buf, src);
        let r = m_walk_args(s.drop_first(), o.kb, o.buf, src);
        MSOut { s: seq![o.t] + r.s, kb: r.kb, buf: r.buf }
    }
}

/// Walk the arguments of a logical operator: each argument is rewritten
/// with a fresh, private buffer which is immediately drained into it, so
/// its lookups are evaluated before the argument itself.
pub open spec fn m_logical_args(s: Seq<TermV>, kb: KbV, src: u64) -> MLOut
    decreases d2s(s), ssize(s), 1int,
{
    if s.len() == 0 {
        MLOut { s, kb }
    } else {
        let o = m_do_rewrite(s[0], kb, Seq::empty(), src);
        let t2 = m_drain(o.t, o.buf);
        let r = m_logical_args(s.drop_first(), o.kb, src);
        MLOut { s: seq![t2] + r.s, kb: r.kb }
    }
}

/// Walk dictionary or instance-literal field values left to right.
pub open spec fn m_walk_fields(s: Seq<FieldV>, kb: KbV, buf: Seq<ValueV>, src: u64) -> MFOut
    decreases d2f(s), fsize(s), 1int,
{
    if s.len() == 0 {
        MFOut { f: s, kb, buf }
    } else {
        let o = m_walk(s[0].value, kb, buf, src);
        let r = m_walk_fields(s.drop_first(), o.kb, o.buf, src);
        MFOut { f: seq![FieldV { key: s[0].key, value: o.t }] + r.f, kb: r.kb, buf: r.buf }
    }
}

#[via_fn]
proof fn m_walk_decreases(t: TermV, kb: KbV, buf: Seq<ValueV>, src: u64) {
    let r = m_rewrite(t.value, kb);
    if r.2 is Some {
        match t.value {
            ValueV::Expression { operator, args } => {
                let (name, kb2) = m_gensym(kb, "value"@);
                let var_t = TermV { id: args[1].id, value: ValueV::Symbol(name) };
                crate::terms::lemma_d2s_push(args, var_t);
                assert(d2t(var_t) == 0);
                assert(d2v(t.value) == 1 + d2s(args));
            },
            _ => {},
        }
    }
}

/// The terms that carry a specializer's pending lookups back to the caller,
/// each bearing the rewritten specializer's identity.
pub open spec fn wrap_lookups_v(id: u64, vals: Seq<ValueV>) -> Seq<TermV>
    decreases vals.len(),
{
    if vals.len() == 0 {
        Seq::empty()
    } else {
        seq![TermV { id, value: vals[0] }] + wrap_lookups_v(id, vals.drop_first())
    }
}

/// Rewrite a whole term: walk it with a fresh top-level buffer, then drain
/// whatever lookups no logical context consumed onto the term itself.
pub open spec fn m_rewrite_term(t: TermV, kb: KbV, src: u64) -> MTOut {
    let o = m_do_rewrite(t, kb, Seq::empty(), src);
    MTOut { t: m_drain(o.t, o.buf), kb: o.kb }
}

/// Rewrite a specializer: walk it, and return the collected pending lookups
/// as standalone terms for the caller to place.
pub open spec fn m_rewrite_specializer(t: TermV, kb: KbV, src: u64) -> MSpOut {
    let o = m_do_rewrite(t, kb, Seq::empty(), src);
    MSpOut { t: o.t, kb: o.kb, lookups: wrap_lookups_v(o.t.id, o.buf) }
}

/// Rewrite each parameter's specializer, collecting all emitted lookups in
/// parameter order.
pub open spec fn m_params(ps: Seq<ParameterV>, kb: KbV, src: u64) -> MPOut
    decreases ps.len(),
{
    if ps.len() == 0 {
        MPOut { params: ps, kb, lookups: Seq::empty() }
    } else {
        match ps[0].specializer {
            Some(sp) => {
                let o = m_rewrite_specializer(sp, kb, src);
                let r = m_params(ps.drop_first(), o.kb, src);
                MPOut {
                    params: seq![
                        ParameterV { parameter: ps[0].parameter, specializer: Some(o.t) },
                    ] + r.params,
                    kb: r.kb,
                    lookups: o.lookups + r.lookups,
                }
            },
            None => {
                let r = m_params(ps.drop_first(), kb, src);
                MPOut { params: seq![ps[0]] + r.params, kb: r.kb, lookups: r.lookups }
            },
        }
    }
}

/// Rewrite a rule: rewrite the body, rewrite every specializer, and append
/// the specializer lookups to the body's top-level conjunction. A body that
/// is not a conjunction at that point is an internal invariant violation
/// (the executable entry point excludes it by precondition); the model
/// leaves such a body unchanged.
pub open spec fn m_rewrite_rule(r: RuleV, kb: KbV, src: u64) -> MROut {
    let bo = m_rewrite_term(r.body, kb, src);
    let po = m_params(r.params, bo.kb, src);
    match bo.t.value {
        ValueV::Expression { operator, args } => {
            if operator == Operator::And {
                MROut {
                    r: RuleV {
                        name: r.name,
                        params: po.params,
                        body: TermV {
                            id: bo.t.id,
                            value: ValueV::Expression {
                                operator: Operator::And,
                                args: args + po.lookups,
                            },
                        },
                    },
                    kb: po.kb,
                }
            } else {
                MROut { r: RuleV { name: r.name, params: po.params, body: bo.t }, kb: po.kb }
            }
        },
        _ => MROut { r: RuleV { name: r.name, params: po.params, body: bo.t }, kb: po.kb },
    }
}

} // verus!

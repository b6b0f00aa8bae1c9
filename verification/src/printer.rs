//! Serialization of terms and rules back to source syntax, used to
//! illustrate and test the rewrite pass. `p_term` and friends are the
//! specification of the text; the executable printers are proved to
//! produce exactly it.
use vstd::prelude::*;
use vstd::string::StringExecFns;
use crate::kb::{spec_digits, u64_to_string};
use crate::terms::{
    fields_view, fsize, lemma_fields_view_index, lemma_params_view_index, lemma_terms_view_index,
    params_view, ssize, terms_view, tsize, Field, Operator, Parameter, ParameterV, Rule, RuleV,
    Term, TermV, Value, ValueV,
};

verus! {

/// A signed integer in decimal.
pub open spec fn p_int(n: i64) -> Seq<char> {
    if n >= 0 {
        spec_digits(n as nat)
    } else {
        "-"@ + spec_digits((-(n as int)) as nat)
    }
}

/// The separator an infix operator is printed with.
pub open spec fn op_sep(op: Operator) -> Seq<char> {
    match op {
        Operator::And => ","@,
        Operator::Or => "|"@,
        Operator::Mul => "*"@,
        Operator::Div => "/"@,
        Operator::Add => "+"@,
        Operator::Sub => "-"@,
        Operator::Geq => ">="@,
        Operator::Leq => "<="@,
        Operator::Neq => "!="@,
        Operator::Gt => ">"@,
        Operator::Lt => "<"@,
        Operator::Unify => "="@,
        _ => ","@,
    }
}

/// The source text of a term.
pub open spec fn p_term(t: TermV) -> Seq<char>
    decreases tsize(t), 0int,
    via p_term_decreases
{
    match t.value {
        ValueV::Number(n) => p_int(n),
        ValueV::Str(s) => "\""@ + s + "\""@,
        ValueV::Boolean(b) => if b {
            "true"@
        } else {
            "false"@
        },
        ValueV::Symbol(name) => name,
        ValueV::List(l) => "["@ + p_terms(l, ","@) + "]"@,
        ValueV::Dictionary(f) => "{"@ + p_fields(f) + "}"@,
        ValueV::InstanceLiteral { tag, fields } => tag + "{"@ + p_fields(fields) + "}"@,
        ValueV::Call { name, args } => name + "("@ + p_terms(args, ","@) + ")"@,
        ValueV::Expression { operator, args } => {
            if operator == Operator::Dot {
                if args.len() == 2 {
                    p_term(args[0]) + "."@ + p_term(args[1])
                } else {
                    ".("@ + p_terms(args, ","@) + ")"@
                }
            } else if operator == Operator::Not {
                "!"@ + p_terms(args, ","@)
            } else {
                p_terms(args, op_sep(operator))
            }
        },
    }
}

#[via_fn]
proof fn p_term_decreases(t: TermV) {
    match t.value {
        ValueV::Expression { operator, args } => {
            if operator == Operator::Dot && args.len() == 2 {
                crate::terms::lemma_ssize_elem(args, 0);
                crate::terms::lemma_ssize_elem(args, 1);
            }
        },
        _ => {},
    }
}

/// Terms joined by a separator.
pub open spec fn p_terms(s: Seq<TermV>, sep: Seq<char>) -> Seq<char>
    decreases ssize(s), 1int,
{
    if s.len() == 0 {
        Seq::empty()
    } else if s.len() == 1 {
        p_term(s[0])
    } else {
        p_term(s[0]) + sep + p_terms(s.drop_first(), sep)
    }
}

/// Dictionary or instance-literal fields, `key: value`, comma-separated.
pub open spec fn p_fields(s: Seq<crate::terms::FieldV>) -> Seq<char>
    decreases fsize(s), 1int,
{
    if s.len() == 0 {
        Seq::empty()
    } else if s.len() == 1 {
        s[0].key + ": "@ + p_term(s[0].value)
    } else {
        s[0].key + ": "@ + p_term(s[0].value) + ", "@ + p_fields(s.drop_first())
    }
}

/// A parameter: its term, its specializer, or `term: specializer`.
pub open spec fn p_param(p: ParameterV) -> Seq<char> {
    match (p.parameter, p.specializer) {
        (Some(t), Some(sp)) => p_term(t) + ": "@ + p_term(sp),
        (Some(t), None) => p_term(t),
        (None, Some(sp)) => p_term(sp),
        (None, None) => Seq::empty(),
    }
}

pub open spec fn p_params(s: Seq<ParameterV>) -> Seq<char>
    decreases s.len(),
{
    if s.len() == 0 {
        Seq::empty()
    } else if s.len() == 1 {
        p_param(s[0])
    } else {
        p_param(s[0]) + ","@ + p_params(s.drop_first())
    }
}

/// Whether a rule body is an empty conjunction, printed as a bare head.
pub open spec fn body_is_empty_and(t: TermV) -> bool {
    match t.value {
        ValueV::Expression { operator, args } => operator == Operator::And && args.len() == 0,
        _ => false,
    }
}

/// The source text of a rule.
pub open spec fn p_rule(r: RuleV) -> Seq<char> {
    let head = r.name + "("@ + p_params(r.params) + ")"@;
    if body_is_empty_and(r.body) {
        head + ";"@
    } else {
        head + " := "@ + p_term(r.body) + ";"@
    }
}

fn int_str(n: i64) -> (s: String)
    ensures
        s@ == p_int(n),
{
    if n >= 0 {
        u64_to_string(n as u64)
    } else {
        let mut s = String::new();
        s.append("-");
        let m: u64 = (-(n as i128)) as u64;
        let d = u64_to_string(m);
        s.append(d.as_str());
        proof {
            assert(s@ =~= p_int(n));
        }
        s
    }
}

fn terms_str(ts: &Vec<Term>, i: usize, sep: &str) -> (s: String)
    requires
        i <= ts@.len(),
    ensures
        s@ == p_terms(terms_view(ts@.subrange(i as int, ts@.len() as int)), sep@),
    decreases ssize(terms_view(ts@.subrange(i as int, ts@.len() as int))), 1int,
{
    let n = ts.len();
    let ghost sub = ts@.subrange(i as int, ts@.len() as int);
    let ghost sv = terms_view(sub);
    proof {
        crate::terms::lemma_terms_view_len(sub);
    }
    if i == n {
        let s = String::new();
        proof {
            assert(s@ =~= p_terms(sv, sep@));
        }
        s
    } else {
        proof {
            assert(sub[0] == ts@[i as int]);
            assert(sv[0] == ts@[i as int]@);
            assert(sub.drop_first() =~= ts@.subrange(i as int + 1, ts@.len() as int));
            assert(sv.drop_first() =~= terms_view(sub.drop_first()));
        }
        let first = term_str(&ts[i]);
        if i + 1 == n {
            proof {
                assert(sv.len() == 1);
                assert(first@ =~= p_terms(sv, sep@));
            }
            first
        } else {
            let mut s = first;
            s.append(sep);
            let rest = terms_str(ts, i + 1, sep);
            s.append(rest.as_str());
            proof {
                assert(s@ =~= p_terms(sv, sep@));
            }
            s
        }
    }
}

fn fields_str(fs: &Vec<Field>, i: usize) -> (s: String)
    requires
        i <= fs@.len(),
    ensures
        s@ == p_fields(fields_view(fs@.subrange(i as int, fs@.len() as int))),
    decreases fsize(fields_view(fs@.subrange(i as int, fs@.len() as int))), 1int,
{
    let n = fs.len();
    let ghost sub = fs@.subrange(i as int, fs@.len() as int);
    let ghost fv = fields_view(sub);
    proof {
        crate::terms::lemma_fields_view_len(sub);
    }
    if i == n {
        let s = String::new();
        proof {
            assert(s@ =~= p_fields(fv));
        }
        s
    } else {
        proof {
            assert(sub[0] == fs@[i as int]);
            lemma_fields_view_index(sub, 0);
            assert(sub.drop_first() =~= fs@.subrange(i as int + 1, fs@.len() as int));
            assert(fv.drop_first() =~= fields_view(sub.drop_first()));
        }
        let mut s = String::new();
        s.append(fs[i].key.name.as_str());
        s.append(": ");
        let vs = term_str(&fs[i].value);
        s.append(vs.as_str());
        if i + 1 == n {
            proof {
                assert(fv.len() == 1);
                assert(s@ =~= p_fields(fv));
            }
            s
        } else {
            s.append(", ");
            let rest = fields_str(fs, i + 1);
            s.append(rest.as_str());
            proof {
                assert(s@ =~= p_fields(fv));
            }
            s
        }
    }
}

fn term_str(t: &Term) -> (s: String)
    ensures
        s@ == p_term(t@),
    decreases tsize(t@), 0int,
{
    match &t.value {
        Value::Number(n) => int_str(*n),
        Value::Str(st) => {
            let mut s = String::new();
            s.append("\"");
            s.append(st.as_str());
            s.append("\"");
            proof {
                assert(s@ =~= p_term(t@));
            }
            s
        },
        Value::Boolean(b) => {
            let mut s = String::new();
            if *b {
                s.append("true");
            } else {
                s.append("false");
            }
            s
        },
        Value::Symbol(sym) => {
            let mut s = String::new();
            s.append(sym.name.as_str());
            s
        },
        Value::List(l) => {
            let mut s = String::new();
            s.append("[");
            proof {
                assert(l@.subrange(0, l@.len() as int) =~= l@);
            }
            let inner = terms_str(l, 0, ",");
            s.append(inner.as_str());
            s.append("]");
            proof {
                assert(s@ =~= p_term(t@));
            }
            s
        },
        Value::Dictionary(f) => {
            let mut s = String::new();
            s.append("{");
            proof {
                assert(f@.subrange(0, f@.len() as int) =~= f@);
            }
            let inner = fields_str(f, 0);
            s.append(inner.as_str());
            s.append("}");
            proof {
                assert(s@ =~= p_term(t@));
            }
            s
        },
        Value::InstanceLiteral(inst) => {
            let mut s = String::new();
            s.append(inst.tag.name.as_str());
            s.append("{");
            proof {
                assert(inst.fields@.subrange(0, inst.fields@.len() as int) =~= inst.fields@);
            }
            let inner = fields_str(&inst.fields, 0);
            s.append(inner.as_str());
            s.append("}");
            proof {
                assert(s@ =~= p_term(t@));
            }
            s
        },
        Value::Call(p) => {
            let mut s = String::new();
            s.append(p.name.name.as_str());
            s.append("(");
            proof {
                assert(p.args@.subrange(0, p.args@.len() as int) =~= p.args@);
            }
            let inner = terms_str(&p.args, 0, ",");
            s.append(inner.as_str());
            s.append(")");
            proof {
                assert(s@ =~= p_term(t@));
            }
            s
        },
        Value::Expression(op) => {
            proof {
                crate::terms::lemma_terms_view_len(op.args@);
                assert(op.args@.subrange(0, op.args@.len() as int) =~= op.args@);
            }
            if matches!(op.operator, Operator::Dot) {
                if op.args.len() == 2 {
                    proof {
                        lemma_terms_view_index(op.args@, 0);
                        lemma_terms_view_index(op.args@, 1);
                        crate::terms::lemma_ssize_elem(terms_view(op.args@), 0);
                        crate::terms::lemma_ssize_elem(terms_view(op.args@), 1);
                    }
                    let mut s = term_str(&op.args[0]);
                    s.append(".");
                    let second = term_str(&op.args[1]);
                    s.append(second.as_str());
                    proof {
                        assert(s@ =~= p_term(t@));
                    }
                    s
                } else {
                    let mut s = String::new();
                    s.append(".(");
                    let inner = terms_str(&op.args, 0, ",");
                    s.append(inner.as_str());
                    s.append(")");
                    proof {
                        assert(s@ =~= p_term(t@));
                    }
                    s
                }
            } else if matches!(op.operator, Operator::Not) {
                let mut s = String::new();
                s.append("!");
                let inner = terms_str(&op.args, 0, ",");
                s.append(inner.as_str());
                proof {
                    assert(s@ =~= p_term(t@));
                }
                s
            } else {
                let sep: &str = match op.operator {
                    Operator::And => ",",
                    Operator::Or => "|",
                    Operator::Mul => "*",
                    Operator::Div => "/",
                    Operator::Add => "+",
                    Operator::Sub => "-",
                    Operator::Geq => ">=",
                    Operator::Leq => "<=",
                    Operator::Neq => "!=",
                    Operator::Gt => ">",
                    Operator::Lt => "<",
                    Operator::Unify => "=",
                    _ => ",",
                };
                let s = terms_str(&op.args, 0, sep);
                proof {
                    assert(s@ =~= p_term(t@));
                }
                s
            }
        },
    }
}

fn param_str(p: &Parameter) -> (s: String)
    ensures
        s@ == p_param(p@),
{
    match (&p.parameter, &p.specializer) {
        (Some(t), Some(sp)) => {
            let mut s = term_str(t);
            s.append(": ");
            let sps = term_str(sp);
            s.append(sps.as_str());
            proof {
                assert(s@ =~= p_param(p@));
            }
            s
        },
        (Some(t), None) => term_str(t),
        (None, Some(sp)) => term_str(sp),
        (None, None) => String::new(),
    }
}

fn params_str(ps: &Vec<Parameter>, i: usize) -> (s: String)
    requires
        i <= ps@.len(),
    ensures
        s@ == p_params(params_view(ps@.subrange(i as int, ps@.len() as int))),
    decreases ps@.len() - i,
{
    let n = ps.len();
    let ghost sub = ps@.subrange(i as int, ps@.len() as int);
    let ghost pv = params_view(sub);
    proof {
        crate::terms::lemma_params_view_len(sub);
    }
    if i == n {
        let s = String::new();
        proof {
            assert(s@ =~= p_params(pv));
        }
        s
    } else {
        proof {
            assert(sub[0] == ps@[i as int]);
            lemma_params_view_index(sub, 0);
            assert(sub.drop_first() =~= ps@.subrange(i as int + 1, ps@.len() as int));
            assert(pv.drop_first() =~= params_view(sub.drop_first()));
        }
        let first = param_str(&ps[i]);
        if i + 1 == n {
            proof {
                assert(pv.len() == 1);
                assert(first@ =~= p_params(pv));
            }
            first
        } else {
            let mut s = first;
            s.append(",");
            let rest = params_str(ps, i + 1);
            s.append(rest.as_str());
            proof {
                assert(s@ =~= p_params(pv));
            }
            s
        }
    }
}

impl Term {
    /// The source text of this term.
    pub fn to_polar(&self) -> (s: String)
        ensures
            s@ == p_term(self@),
    {
        term_str(self)
    }
}

impl Rule {
    /// The source text of this rule.
    pub fn to_polar(&self) -> (s: String)
        ensures
            s@ == p_rule(self@),
    {
        let mut s = String::new();
        s.append(self.name.name.as_str());
        s.append("(");
        proof {
            assert(self.params@.subrange(0, self.params@.len() as int) =~= self.params@);
        }
        let ps = params_str(&self.params, 0);
        s.append(ps.as_str());
        s.append(")");
        let mut empty_and = false;
        match &self.body.value {
            Value::Expression(op) => {
                proof {
                    crate::terms::lemma_terms_view_len(op.args@);
                }
                if matches!(op.operator, Operator::And) && op.args.len() == 0 {
                    empty_and = true;
                }
            },
            _ => {},
        }
        if empty_and {
            s.append(";");
            proof {
                assert(s@ =~= p_rule(self@));
            }
            s
        } else {
            s.append(" := ");
            let bs = term_str(&self.body);
            s.append(bs.as_str());
            s.append(";");
            proof {
                assert(s@ =~= p_rule(self@));
            }
            s
        }
    }
}

} // verus!

//! The knowledge base collaborator: a monotonic identity counter, a
//! fresh-symbol (gensym) allocator derived from it, and the record of which
//! source unit produced each identified term.
use vstd::prelude::*;
use vstd::string::StringExecFns;
use crate::terms::Symbol;

verus! {

/// View of the knowledge base: the counter and the recorded
/// (term identity, source unit) associations.
pub struct KbV {
    pub counter: u64,
    pub sources: Seq<(u64, u64)>,
}

/// The identity counter starts above the sentinel identity 0. At the
/// numeric limit the allocator saturates instead of wrapping, so allocation
/// is total; below the limit identities are strictly increasing and never
/// reused.
pub struct KnowledgeBase {
    pub counter: u64,
    pub sources: Vec<(u64, u64)>,
}

impl View for KnowledgeBase {
    type V = KbV;

    open spec fn view(&self) -> KbV {
        KbV { counter: self.counter, sources: self.sources@ }
    }
}

pub open spec fn m_new_id(kb: KbV) -> (u64, KbV) {
    if kb.counter == u64::MAX {
        (kb.counter, kb)
    } else {
        (kb.counter, KbV { counter: (kb.counter + 1) as u64, sources: kb.sources })
    }
}

pub open spec fn m_record_source(kb: KbV, term_id: u64, src_id: u64) -> KbV {
    KbV { counter: kb.counter, sources: kb.sources.push((term_id, src_id)) }
}

/// The decimal digits of `n`, most significant first.
pub open spec fn spec_digits(n: nat) -> Seq<char>
    decreases n,
{
    if n < 10 {
        seq![digit_char(n)]
    } else {
        spec_digits(n / 10).push(digit_char(n % 10))
    }
}

pub open spec fn digit_char(d: nat) -> char {
    if d == 0 {
        '0'
    } else if d == 1 {
        '1'
    } else if d == 2 {
        '2'
    } else if d == 3 {
        '3'
    } else if d == 4 {
        '4'
    } else if d == 5 {
        '5'
    } else if d == 6 {
        '6'
    } else if d == 7 {
        '7'
    } else if d == 8 {
        '8'
    } else {
        '9'
    }
}

/// The name a gensym call yields for a given prefix and counter value:
/// an underscore, the prefix, an underscore, and the counter in decimal.
pub open spec fn gensym_name(prefix: Seq<char>, n: u64) -> Seq<char> {
    seq!['_'] + prefix + seq!['_'] + spec_digits(n as nat)
}

pub open spec fn m_gensym(kb: KbV, prefix: Seq<char>) -> (Seq<char>, KbV) {
    let (n, kb2) = m_new_id(kb);
    (gensym_name(prefix, n), kb2)
}

pub fn digit_str(d: u64) -> (s: &'static str)
    requires
        d < 10,
    ensures
        s@ == seq![digit_char(d as nat)],
{
    proof {
        reveal_strlit("0");
        reveal_strlit("1");
        reveal_strlit("2");
        reveal_strlit("3");
        reveal_strlit("4");
        reveal_strlit("5");
        reveal_strlit("6");
        reveal_strlit("7");
        reveal_strlit("8");
        reveal_strlit("9");
    }
    let s = if d == 0 {
        "0"
    } else if d == 1 {
        "1"
    } else if d == 2 {
        "2"
    } else if d == 3 {
        "3"
    } else if d == 4 {
        "4"
    } else if d == 5 {
        "5"
    } else if d == 6 {
        "6"
    } else if d == 7 {
        "7"
    } else if d == 8 {
        "8"
    } else {
        "9"
    };
    proof {
        assert(s@ =~= seq![digit_char(d as nat)]);
    }
    s
}

/// `n` written in decimal.
pub fn u64_to_string(n: u64) -> (s: String)
    ensures
        s@ == spec_digits(n as nat),
    decreases n,
{
    if n < 10 {
        let mut s = String::new();
        s.append(digit_str(n));
        proof {
            assert(s@ =~= spec_digits(n as nat));
        }
        s
    } else {
        let mut s = u64_to_string(n / 10);
        s.append(digit_str(n % 10));
        proof {
            assert(s@ =~= spec_digits(n as nat));
        }
        s
    }
}

impl KnowledgeBase {
    /// A fresh knowledge base: no recorded sources, counter just past the
    /// "unassigned" sentinel identity 0.
    pub fn new() -> (kb: KnowledgeBase)
        ensures
            kb@ == (KbV { counter: 1, sources: Seq::<(u64, u64)>::empty() }),
    {
        let kb = KnowledgeBase { counter: 1, sources: Vec::new() };
        proof {
            assert(kb@.sources =~= Seq::<(u64, u64)>::empty());
        }
        kb
    }

    /// The next identity; strictly increasing until the counter saturates.
    pub fn new_id(&mut self) -> (id: u64)
        ensures
            (id, final(self)@) == m_new_id(old(self)@),
    {
        let id = self.counter;
        if self.counter < u64::MAX {
            self.counter = self.counter + 1;
        }
        id
    }

    /// A fresh symbol, `_<prefix>_<n>`, unique per counter value.
    pub fn gensym(&mut self, prefix: &str) -> (s: Symbol)
        ensures
            (s.name@, final(self)@) == m_gensym(old(self)@, prefix@),
    {
        let n = self.new_id();
        let digits = u64_to_string(n);
        let mut name = String::new();
        name.append("_");
        name.append(prefix);
        name.append("_");
        name.append(digits.as_str());
        proof {
            reveal_strlit("_");
            assert(name@ =~= gensym_name(prefix@, n));
        }
        Symbol { name }
    }

    /// Record which source unit produced the term with the given identity.
    pub fn record_source(&mut self, term_id: u64, src_id: u64)
        ensures
            final(self)@ == m_record_source(old(self)@, term_id, src_id),
    {
        self.sources.push((term_id, src_id));
    }
}

} // verus!

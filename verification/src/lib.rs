//! Desugaring pass of a logic-programming rule engine's term compiler:
//! rewrites dotted-access expressions (`a.b`, `a.b(c)`) in rule bodies and
//! specializers into flat three-argument lookup operations threaded through
//! fresh variables, preserving the left-to-right, short-circuiting
//! evaluation order of logical conjunction, disjunction and negation.
pub mod kb;
pub mod model;
pub mod printer;
pub mod props;
pub mod rewrites;
pub mod terms;

pub use kb::KnowledgeBase;
pub use terms::{Field, Instance, Operation, Operator, Parameter, Predicate, Rule, Symbol, Term, Value};

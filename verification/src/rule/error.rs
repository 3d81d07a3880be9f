use vstd::prelude::*;

verus! {

/// What can go wrong while rules are registered or resolved.
#[derive(Debug, Clone, Copy, PartialEq, Eq, Structural)]
pub enum RuleError {
    /// A rule refers to an identifier under which the registry holds no rule.
    UnresolvedReference(i32),
    /// A rule that says it has this identifier was offered to the registry, whose next free
    /// identifier is another one.
    IdOutOfSequence(i32),
}

} // verus!

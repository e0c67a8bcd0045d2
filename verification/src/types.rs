use vstd::prelude::*;

verus! {

/// How the environment treats access to undefined variables while a template
/// renders.
#[derive(Clone, Copy, PartialEq, Eq, Structural, Debug)]
pub enum mj_undefined_behavior {
    /// The default, lenient policy: an undefined value renders as empty
    /// output and raises no error.
    MJ_UNDEFINED_BEHAVIOR_LENIENT,
    /// The strict policy: any access to an undefined value is an immediate
    /// error.
    MJ_UNDEFINED_BEHAVIOR_STRICT,
    /// Like the lenient policy, but attribute or index access on an undefined
    /// value stays undefined instead of failing, so `a.b.c` renders as empty
    /// when `a` is undefined.
    MJ_UNDEFINED_BEHAVIOR_CHAINABLE,
}

} // verus!

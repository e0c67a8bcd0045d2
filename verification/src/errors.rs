use vstd::prelude::*;

use crate::engine::chain_of;
use crate::engine::engine_error_chain;
use crate::engine::engine_error_kind_text;
use crate::engine::kind_text_of;
use crate::text::str_eq;

verus! {

/// Stable codes for the failures that can cross the boundary.  Each code
/// corresponds to one kind of engine-level failure; usage-contract violations
/// (null handles, shape mismatches) are faults, not codes.
#[derive(Clone, Copy, PartialEq, Eq, Structural, Debug)]
pub enum mj_code {
    /// A composite value was used where a primitive was required.
    MJ_NON_PRIMITIVE,
    /// A value cannot serve as a map key.
    MJ_NON_KEY,
    /// An unsupported operation was attempted on a value.
    MJ_INVALID_OPERATION,
    /// Template source failed to compile.
    MJ_SYNTAX_ERROR,
    /// A named template lookup failed.
    MJ_TEMPLATE_NOT_FOUND,
    /// Too many arguments were passed to a filter, test or function.
    MJ_TOO_MANY_ARGUMENTS,
    /// A required argument of a filter, test or function is missing.
    MJ_MISSING_ARGUMENT,
    /// A filter named in a template is not registered.
    MJ_UNKNOWN_FILTER,
    /// A test named in a template is not registered.
    MJ_UNKNOWN_TEST,
    /// A function named in a template is not registered.
    MJ_UNKNOWN_FUNCTION,
    /// A method called on a value does not exist.
    MJ_UNKNOWN_METHOD,
    /// A string literal in template source holds a malformed escape sequence.
    MJ_BAD_ESCAPE,
    /// An undefined variable was accessed under the strict policy.
    MJ_UNDEFINED_ERROR,
    /// A value could not be serialized.
    MJ_BAD_SERIALIZATION,
    /// Raw context bytes could not be decoded into a value.
    MJ_CANNOT_DESERIALIZE,
    /// Resolving or rendering an included template failed.
    MJ_BAD_INCLUDE,
    /// Evaluating a template block failed.
    MJ_EVAL_BLOCK,
    /// A destructuring assignment did not match the value's arity.
    MJ_CANNOT_UNPACK,
    /// Appending rendered output to the sink failed.
    MJ_WRITE_FAILURE,
    /// A block named in a template does not exist.
    MJ_UNKNOWN_BLOCK,
}

/// The fixed separator that precedes each cause in an error message's causal
/// chain.
pub open spec fn caused_by_text() -> Seq<char> {
    "\nCaused by: "@
}

/// The message of a causal chain: the most proximate description first, then
/// every earlier cause, each prefixed by the fixed separator.
pub open spec fn chain_text(parts: Seq<Seq<char>>) -> Seq<char>
    decreases parts.len(),
{
    if parts.len() == 0 {
        Seq::empty()
    } else if parts.len() == 1 {
        parts[0]
    } else {
        chain_text(parts.drop_last()) + caused_by_text() + parts.last()
    }
}

/// An engine-level failure as it is reported across the boundary: a stable
/// code and a message holding the full causal chain.
#[derive(Debug)]
pub struct mj_error {
    /// The code that categorizes the failure.
    pub code: mj_code,
    /// The description of the failure and of every causal predecessor,
    /// most-proximate first, each further cause prefixed by the fixed
    /// separator.
    pub message: String,
}

/// The boundary code for the engine's one-line description of an error kind.
/// The descriptions are the engine's closed set; one outside it reports as
/// the invalid-operation code.
pub open spec fn code_of_kind_text(t: Seq<char>) -> mj_code {
    if t == "not a primitive"@ {
        mj_code::MJ_NON_PRIMITIVE
    } else if t == "not a key type"@ {
        mj_code::MJ_NON_KEY
    } else if t == "syntax error"@ {
        mj_code::MJ_SYNTAX_ERROR
    } else if t == "template not found"@ {
        mj_code::MJ_TEMPLATE_NOT_FOUND
    } else if t == "too many arguments"@ {
        mj_code::MJ_TOO_MANY_ARGUMENTS
    } else if t == "missing argument"@ {
        mj_code::MJ_MISSING_ARGUMENT
    } else if t == "unknown filter"@ {
        mj_code::MJ_UNKNOWN_FILTER
    } else if t == "unknown test"@ {
        mj_code::MJ_UNKNOWN_TEST
    } else if t == "unknown function"@ {
        mj_code::MJ_UNKNOWN_FUNCTION
    } else if t == "unknown method"@ {
        mj_code::MJ_UNKNOWN_METHOD
    } else if t == "bad string escape"@ {
        mj_code::MJ_BAD_ESCAPE
    } else if t == "undefined value"@ {
        mj_code::MJ_UNDEFINED_ERROR
    } else if t == "could not serialize to value"@ {
        mj_code::MJ_BAD_SERIALIZATION
    } else if t == "cannot deserialize"@ {
        mj_code::MJ_CANNOT_DESERIALIZE
    } else if t == "could not render include"@ {
        mj_code::MJ_BAD_INCLUDE
    } else if t == "could not render block"@ {
        mj_code::MJ_EVAL_BLOCK
    } else if t == "cannot unpack"@ {
        mj_code::MJ_CANNOT_UNPACK
    } else if t == "failed to write output"@ {
        mj_code::MJ_WRITE_FAILURE
    } else if t == "unknown block"@ {
        mj_code::MJ_UNKNOWN_BLOCK
    } else {
        mj_code::MJ_INVALID_OPERATION
    }
}

/// Maps the engine's one-line description of an error kind to its boundary
/// code.
pub fn kind_code(t: &str) -> (r: mj_code)
    ensures
        r == code_of_kind_text(t@),
{
    if str_eq(t, "not a primitive") {
        mj_code::MJ_NON_PRIMITIVE
    } else if str_eq(t, "not a key type") {
        mj_code::MJ_NON_KEY
    } else if str_eq(t, "syntax error") {
        mj_code::MJ_SYNTAX_ERROR
    } else if str_eq(t, "template not found") {
        mj_code::MJ_TEMPLATE_NOT_FOUND
    } else if str_eq(t, "too many arguments") {
        mj_code::MJ_TOO_MANY_ARGUMENTS
    } else if str_eq(t, "missing argument") {
        mj_code::MJ_MISSING_ARGUMENT
    } else if str_eq(t, "unknown filter") {
        mj_code::MJ_UNKNOWN_FILTER
    } else if str_eq(t, "unknown test") {
        mj_code::MJ_UNKNOWN_TEST
    } else if str_eq(t, "unknown function") {
        mj_code::MJ_UNKNOWN_FUNCTION
    } else if str_eq(t, "unknown method") {
        mj_code::MJ_UNKNOWN_METHOD
    } else if str_eq(t, "bad string escape") {
        mj_code::MJ_BAD_ESCAPE
    } else if str_eq(t, "undefined value") {
        mj_code::MJ_UNDEFINED_ERROR
    } else if str_eq(t, "could not serialize to value") {
        mj_code::MJ_BAD_SERIALIZATION
    } else if str_eq(t, "cannot deserialize") {
        mj_code::MJ_CANNOT_DESERIALIZE
    } else if str_eq(t, "could not render include") {
        mj_code::MJ_BAD_INCLUDE
    } else if str_eq(t, "could not render block") {
        mj_code::MJ_EVAL_BLOCK
    } else if str_eq(t, "cannot unpack") {
        mj_code::MJ_CANNOT_UNPACK
    } else if str_eq(t, "failed to write output") {
        mj_code::MJ_WRITE_FAILURE
    } else if str_eq(t, "unknown block") {
        mj_code::MJ_UNKNOWN_BLOCK
    } else {
        mj_code::MJ_INVALID_OPERATION
    }
}

/// The compiler's two failure descriptions map to the syntax-error-class
/// codes.  The reasoning needs the literal texts: once revealed, their
/// lengths separate them from every earlier description in the mapping.
pub proof fn lemma_compile_failure_codes()
    ensures
        code_of_kind_text("syntax error"@) == mj_code::MJ_SYNTAX_ERROR,
        code_of_kind_text("bad string escape"@) == mj_code::MJ_BAD_ESCAPE,
{
    reveal_strlit("syntax error");
    reveal_strlit("bad string escape");
    reveal_strlit("not a primitive");
    reveal_strlit("not a key type");
    reveal_strlit("template not found");
    reveal_strlit("too many arguments");
    reveal_strlit("missing argument");
    reveal_strlit("unknown filter");
    reveal_strlit("unknown test");
    reveal_strlit("unknown function");
    reveal_strlit("unknown method");
    assert(("syntax error"@).len() == 12);
    assert(("bad string escape"@).len() == 17);
    assert(("not a primitive"@).len() == 15);
    assert(("not a key type"@).len() == 14);
    assert(("template not found"@).len() == 18);
    assert(("too many arguments"@).len() == 18);
    assert(("missing argument"@).len() == 16);
    assert(("unknown filter"@).len() == 14);
    assert(("unknown test"@).len() == 12);
    assert(("unknown function"@).len() == 16);
    assert(("unknown method"@).len() == 14);
}

impl mj_error {
    /// Captures an engine failure as the boundary reports it: the stable
    /// code for the failure's kind, and a message holding its description
    /// followed by the description of every cause in its chain, each cause
    /// prefixed by the fixed separator.
    pub fn new(source: &minijinja::Error) -> (r: mj_error)
        ensures
            r.code == code_of_kind_text(kind_text_of(*source)),
            r.message@ == chain_text(chain_of(*source)),
    {
        let kind_text = engine_error_kind_text(source);
        let code = kind_code(kind_text.as_str());
        let parts = engine_error_chain(source);
        mj_error::from_parts(code, &parts)
    }

    /// Assembles the error for a failure whose descriptions are already at
    /// hand: `parts[0]` describes the failure itself and each later entry the
    /// next cause in its chain.
    pub fn from_parts(code: mj_code, parts: &Vec<String>) -> (r: mj_error)
        ensures
            r.code == code,
            r.message@ == chain_text(parts.deep_view()),
    {
        let message = chain_message(parts);
        mj_error { code, message }
    }
}

/// Concatenates failure descriptions into the single chain message, inserting
/// the fixed separator before every description but the first.
pub fn chain_message(parts: &Vec<String>) -> (r: String)
    ensures
        r@ == chain_text(parts.deep_view()),
{
    let ghost model: Seq<Seq<char>> = parts.deep_view();
    let mut r = String::new();
    let mut i: usize = 0;
    while i < parts.len()
        invariant
            i <= parts.len(),
            model == parts.deep_view(),
            r@ == chain_text(model.take(i as int)),
        decreases parts.len() - i,
    {
        if i > 0 {
            r.append("\nCaused by: ");
        }
        r.append(parts[i].as_str());
        proof {
            assert(model.take(i + 1).drop_last() =~= model.take(i as int));
            assert(model.take(i + 1).last() == model[i as int]);
            assert(model[i as int] == parts[i as int]@);
        }
        i = i + 1;
    }
    proof {
        assert(model.take(parts.len() as int) =~= model);
    }
    r
}

} // verus!

//! Trusted declarations for the two collaborators: the minijinja template
//! engine and the sonic_rs JSON decoder.  Everything the verified library
//! assumes about them is stated here, one item per outside function, and each
//! doc comment names what is relied on.
use vstd::prelude::*;

use crate::types::mj_undefined_behavior;

verus! {

#[verifier::external_type_specification]
#[verifier::external_body]
pub struct ExEnvironment<'source>(minijinja::Environment<'source>);

#[verifier::external_type_specification]
#[verifier::external_body]
pub struct ExTemplate<'env: 'source, 'source>(minijinja::Template<'env, 'source>);

#[verifier::external_type_specification]
#[verifier::external_body]
pub struct ExEngineError(minijinja::Error);

#[verifier::external_type_specification]
#[verifier::external_body]
pub struct ExEngineValue(minijinja::Value);

#[verifier::external_type_specification]
#[verifier::external_body]
pub struct ExDecodeError(sonic_rs::Error);

/// The empty template registry.
pub open spec fn no_templates() -> Map<Seq<char>, Seq<char>> {
    Map::empty()
}

/// The registry of an engine environment: each registered template's name,
/// mapped to the source text it was compiled from.
pub uninterp spec fn env_templates(e: minijinja::Environment) -> Map<Seq<char>, Seq<char>>;

/// Whether an engine environment is plain: built by `Environment::new`, with
/// no template loader registered and every template added with owned name and
/// source.  Every environment this crate builds stays plain.
pub uninterp spec fn env_plain(e: minijinja::Environment) -> bool;

/// Whether the engine compiles the template source under the environment's
/// current flags.  Acceptance is a function of the environment value and the
/// source alone, and registry mutations do not change it.
pub uninterp spec fn compile_ok(e: minijinja::Environment, source: Seq<char>) -> bool;

/// The engine's fixed one-line description of an error's kind, as its
/// `ErrorKind` prints.
pub uninterp spec fn kind_text_of(e: minijinja::Error) -> Seq<char>;

/// The causal chain of an engine error: the failure's own description first,
/// then the description of each transitive cause in order.
pub uninterp spec fn chain_of(e: minijinja::Error) -> Seq<Seq<char>>;

/// What the JSON decoder makes of the bytes: the engine value for one
/// complete document it accepts, or nothing.  Decoding is a function of the
/// bytes alone.
pub uninterp spec fn decoded(b: Seq<u8>) -> Option<minijinja::Value>;

/// What the JSON decoder makes of the text: the engine value for one
/// complete document it accepts, or nothing.  Decoding is a function of the
/// text alone.
pub uninterp spec fn decoded_text(s: Seq<char>) -> Option<minijinja::Value>;

/// Whether the JSON decoder accepts the bytes as one complete document for
/// the engine's value type.
pub open spec fn decode_accepts(b: Seq<u8>) -> bool {
    decoded(b) is Some
}

/// Whether the JSON decoder accepts the text as one complete document for
/// the engine's value type.
pub open spec fn decode_accepts_text(s: Seq<char>) -> bool {
    decoded_text(s) is Some
}

/// The outcome of rendering the template registered under `name` in `e`
/// against the context value `ctx`: the rendered text, or the kind
/// description of the engine's failure.  The outcome is a function of the
/// three arguments alone: the engine's default globals, filters and tests
/// draw on no randomness, time or environment, and its value maps iterate in
/// a fixed order.
pub uninterp spec fn rendered(
    e: minijinja::Environment,
    name: Seq<char>,
    ctx: minijinja::Value,
) -> Result<Seq<char>, Seq<char>>;

/// The outcome of compiling the transient source under `e`'s current flags,
/// labelled `name`, and rendering it against the context value `ctx`: the
/// rendered text, or the kind description of the engine's failure.  The
/// label is a parameter because the engine's debug helpers can surface it in
/// output.  Deterministic for the same reason as `rendered`.
pub uninterp spec fn rendered_str(
    e: minijinja::Environment,
    name: Seq<char>,
    source: Seq<char>,
    ctx: minijinja::Value,
) -> Result<Seq<char>, Seq<char>>;

/// Relies on minijinja's `Environment::new`: a fresh environment holds no
/// templates, has no loader, and carries the engine's default flags.
#[verifier::external_body]
pub(crate) fn engine_new() -> (e: minijinja::Environment<'static>)
    ensures
        env_plain(e),
        env_templates(e) == no_templates(),
{
    minijinja::Environment::new()
}

/// Relies on minijinja's `Environment::add_template_owned`: the source is
/// compiled under the environment's current flags and succeeds exactly when
/// the compiler accepts it; on success the template registers under the
/// name, replacing any prior entry; on a compile error the error comes back
/// (its kind is the compiler's syntax-error or bad-escape kind, the only two
/// the lexer and parser raise) and a plain environment's registry is
/// unchanged (the owned-insert path compiles before it touches the
/// owned-template map, and a plain environment has no borrowed templates to
/// displace).  Registering a template leaves the compile flags alone, so
/// compile acceptance is unchanged.
#[verifier::external_body]
pub(crate) fn engine_add_template(
    e: &mut minijinja::Environment<'static>,
    name: &str,
    source: &str,
) -> (r: Result<(), minijinja::Error>)
    requires
        env_plain(*old(e)),
    ensures
        env_plain(*final(e)),
        r is Ok <==> compile_ok(*old(e), source@),
        r is Ok ==> env_templates(*final(e)) == env_templates(*old(e)).insert(name@, source@),
        r is Err ==> env_templates(*final(e)) == env_templates(*old(e)),
        r matches Result::Err(err) ==> (kind_text_of(err) == "syntax error"@ || kind_text_of(err)
            == "bad string escape"@),
        forall|s: Seq<char>| #[trigger] compile_ok(*final(e), s) == compile_ok(*old(e), s),
{
    e.add_template_owned(name.to_string(), source.to_string())
}

/// Relies on minijinja's `Environment::remove_template`: the named entry
/// leaves the registry; an absent name is a no-op; the compile flags are
/// untouched.
#[verifier::external_body]
pub(crate) fn engine_remove_template(e: &mut minijinja::Environment<'static>, name: &str)
    requires
        env_plain(*old(e)),
    ensures
        env_plain(*final(e)),
        env_templates(*final(e)) == env_templates(*old(e)).remove(name@),
        forall|s: Seq<char>| #[trigger] compile_ok(*final(e), s) == compile_ok(*old(e), s),
{
    e.remove_template(name);
}

/// Relies on minijinja's `Environment::clear_templates`: the registry
/// empties; the compile flags are untouched.
#[verifier::external_body]
pub(crate) fn engine_clear_templates(e: &mut minijinja::Environment<'static>)
    requires
        env_plain(*old(e)),
    ensures
        env_plain(*final(e)),
        env_templates(*final(e)) == no_templates(),
        forall|s: Seq<char>| #[trigger] compile_ok(*final(e), s) == compile_ok(*old(e), s),
{
    e.clear_templates();
}

/// Relies on minijinja's `Environment::get_template`: with no loader
/// registered, the lookup hands back a compiled template exactly when the
/// name is registered, and a template-not-found error otherwise.
#[verifier::external_body]
pub(crate) fn engine_get_template<'e>(e: &'e minijinja::Environment<'static>, name: &str) -> (r:
    Result<minijinja::Template<'e, 'e>, minijinja::Error>)
    requires
        env_plain(*e),
    ensures
        r is Ok <==> env_templates(*e).contains_key(name@),
        r matches Result::Err(err) ==> kind_text_of(err) == "template not found"@,
{
    e.get_template(name)
}

/// Relies on minijinja's `Environment::get_template` and `Template::render`:
/// the registered template binds `ctx` as the root context and the engine
/// hands back its rendered text, or its error, whose kind description the
/// named outcome fixes.  The two engine calls stand in one wrapper because
/// the template handle borrows the environment for the whole render.
#[verifier::external_body]
pub(crate) fn engine_render_template(
    e: &minijinja::Environment<'static>,
    name: &str,
    ctx: &minijinja::Value,
) -> (r: Result<String, minijinja::Error>)
    requires
        env_plain(*e),
        env_templates(*e).contains_key(name@),
    ensures
        r is Ok <==> rendered(*e, name@, *ctx) is Ok,
        r matches Result::Ok(s) ==> (rendered(*e, name@, *ctx) matches Result::Ok(t) && s@ == t),
        r matches Result::Err(err) ==> (rendered(*e, name@, *ctx) matches Result::Err(k)
            && kind_text_of(err) == k),
{
    match e.get_template(name) {
        Ok(t) => t.render(ctx),
        Err(err) => Err(err),
    }
}

/// Relies on minijinja's `Environment::render_named_str`: the source is
/// compiled transiently under the environment's current flags and, when the
/// compiler accepts it, rendered against the value; nothing registers and
/// the receiver is shared, so the registry cannot change.  A source the
/// compiler rejects fails with the compiler's syntax-error or bad-escape
/// kind before any rendering.
#[verifier::external_body]
pub(crate) fn engine_render_named_str(
    e: &minijinja::Environment<'static>,
    name: &str,
    source: &str,
    ctx: &minijinja::Value,
) -> (r: Result<String, minijinja::Error>)
    ensures
        r is Ok <==> rendered_str(*e, name@, source@, *ctx) is Ok,
        r matches Result::Ok(s) ==> (rendered_str(*e, name@, source@, *ctx) matches Result::Ok(t)
            && s@ == t),
        r matches Result::Err(err) ==> (rendered_str(*e, name@, source@, *ctx)
            matches Result::Err(k) && kind_text_of(err) == k),
        r is Ok ==> compile_ok(*e, source@),
        r matches Result::Err(err) ==> (compile_ok(*e, source@) || kind_text_of(err)
            == "syntax error"@ || kind_text_of(err) == "bad string escape"@),
{
    e.render_named_str(name, source, ctx)
}

/// Relies on minijinja's `Environment::set_lstrip_blocks`: only the
/// whitespace flag changes; the registry is untouched.
#[verifier::external_body]
pub(crate) fn engine_set_lstrip_blocks(e: &mut minijinja::Environment<'static>, v: bool)
    requires
        env_plain(*old(e)),
    ensures
        env_plain(*final(e)),
        env_templates(*final(e)) == env_templates(*old(e)),
{
    e.set_lstrip_blocks(v);
}

/// Relies on minijinja's `Environment::set_trim_blocks`: only the whitespace
/// flag changes; the registry is untouched.
#[verifier::external_body]
pub(crate) fn engine_set_trim_blocks(e: &mut minijinja::Environment<'static>, v: bool)
    requires
        env_plain(*old(e)),
    ensures
        env_plain(*final(e)),
        env_templates(*final(e)) == env_templates(*old(e)),
{
    e.set_trim_blocks(v);
}

/// Relies on minijinja's `Environment::set_keep_trailing_newline`: only the
/// newline flag changes; the registry is untouched.
#[verifier::external_body]
pub(crate) fn engine_set_keep_trailing_newline(e: &mut minijinja::Environment<'static>, v: bool)
    requires
        env_plain(*old(e)),
    ensures
        env_plain(*final(e)),
        env_templates(*final(e)) == env_templates(*old(e)),
{
    e.set_keep_trailing_newline(v);
}

/// Relies on minijinja's `Environment::set_recursion_limit`: only the limit
/// changes (capped by the engine at its safe maximum of 500); the registry is
/// untouched.
#[verifier::external_body]
pub(crate) fn engine_set_recursion_limit(e: &mut minijinja::Environment<'static>, v: usize)
    requires
        env_plain(*old(e)),
    ensures
        env_plain(*final(e)),
        env_templates(*final(e)) == env_templates(*old(e)),
{
    e.set_recursion_limit(v);
}

/// Relies on minijinja's `Environment::set_debug`: only the debug flag
/// changes; the registry is untouched.
#[verifier::external_body]
pub(crate) fn engine_set_debug(e: &mut minijinja::Environment<'static>, v: bool)
    requires
        env_plain(*old(e)),
    ensures
        env_plain(*final(e)),
        env_templates(*final(e)) == env_templates(*old(e)),
{
    e.set_debug(v);
}

/// Relies on minijinja's `Environment::set_undefined_behavior`: only the
/// undefined-variable policy changes; the registry is untouched.  The
/// boundary's three policies map onto the engine's, one arm each.
#[verifier::external_body]
pub(crate) fn engine_set_undefined_behavior(
    e: &mut minijinja::Environment<'static>,
    b: mj_undefined_behavior,
)
    requires
        env_plain(*old(e)),
    ensures
        env_plain(*final(e)),
        env_templates(*final(e)) == env_templates(*old(e)),
{
    let ub = match b {
        mj_undefined_behavior::MJ_UNDEFINED_BEHAVIOR_LENIENT => minijinja::UndefinedBehavior::Lenient,
        mj_undefined_behavior::MJ_UNDEFINED_BEHAVIOR_STRICT => minijinja::UndefinedBehavior::Strict,
        mj_undefined_behavior::MJ_UNDEFINED_BEHAVIOR_CHAINABLE => minijinja::UndefinedBehavior::Chainable,
    };
    e.set_undefined_behavior(ub);
}

/// Relies on `ErrorKind`'s `Display` via `Error::kind`: each kind of engine
/// failure prints one fixed description, which the verified mapping in
/// `errors` turns into the boundary code.
#[verifier::external_body]
pub(crate) fn engine_error_kind_text(e: &minijinja::Error) -> (r: String)
    ensures
        r@ == kind_text_of(*e),
{
    e.kind().to_string()
}

/// Relies on minijinja `Error`'s `Display` and std's `Error::source` chain:
/// the failure's own description first, then the description of each cause in
/// order.
#[verifier::external_body]
pub(crate) fn engine_error_chain(e: &minijinja::Error) -> (r: Vec<String>)
    ensures
        r@.len() >= 1,
        r.deep_view() == chain_of(*e),
{
    let mut parts = vec![e.to_string()];
    let mut cur: &dyn std::error::Error = e;
    while let Some(cause) = cur.source() {
        parts.push(cause.to_string());
        cur = cause;
    }
    parts
}

/// Relies on `sonic_rs::Error`'s `Display`: the decoder's description of why
/// the bytes were rejected.
#[verifier::external_body]
pub(crate) fn decode_error_message(e: &sonic_rs::Error) -> (r: String) {
    e.to_string()
}

/// Relies on `sonic_rs::from_slice` deserializing into the engine's value
/// type: the result is a function of the bytes alone, and the decoded value
/// comes back exactly when the decoder accepts the bytes as one complete
/// document.
#[verifier::external_body]
pub(crate) fn decode_value(data: &[u8]) -> (r: Result<minijinja::Value, sonic_rs::Error>)
    ensures
        r is Ok <==> decode_accepts(data@),
        r matches Result::Ok(v) ==> (decoded(data@) matches Option::Some(w) && v == w),
{
    sonic_rs::from_slice::<minijinja::Value>(data)
}

/// Relies on `sonic_rs::from_str` deserializing into the engine's value
/// type: the result is a function of the text alone, and the decoded value
/// comes back exactly when the decoder accepts the text as one complete
/// document.
#[verifier::external_body]
pub(crate) fn decode_value_text(s: &str) -> (r: Result<minijinja::Value, sonic_rs::Error>)
    ensures
        r is Ok <==> decode_accepts_text(s@),
        r matches Result::Ok(v) ==> (decoded_text(s@) matches Option::Some(w) && v == w),
{
    sonic_rs::from_str::<minijinja::Value>(s)
}

} // verus!

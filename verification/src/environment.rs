use vstd::prelude::*;

use crate::engine::compile_ok;
use crate::engine::decode_accepts;
use crate::engine::decode_accepts_text;
use crate::engine::decode_error_message;
use crate::engine::decode_value;
use crate::engine::decode_value_text;
use crate::engine::decoded;
use crate::engine::decoded_text;
use crate::engine::engine_add_template;
use crate::engine::engine_clear_templates;
use crate::engine::engine_get_template;
use crate::engine::engine_new;
use crate::engine::engine_remove_template;
use crate::engine::engine_render_named_str;
use crate::engine::engine_render_template;
use crate::engine::rendered;
use crate::engine::rendered_str;
use crate::engine::engine_set_debug;
use crate::engine::engine_set_keep_trailing_newline;
use crate::engine::engine_set_lstrip_blocks;
use crate::engine::engine_set_recursion_limit;
use crate::engine::engine_set_trim_blocks;
use crate::engine::engine_set_undefined_behavior;
use crate::engine::env_plain;
use crate::engine::env_templates;
use crate::engine::no_templates;
use crate::errors::chain_message;
use crate::errors::code_of_kind_text;
use crate::errors::lemma_compile_failure_codes;
use crate::errors::mj_code;
use crate::errors::mj_error;
use crate::json::json_of;
use crate::types::mj_undefined_behavior;
use crate::value::Val;
use crate::value::mj_value;

verus! {

/// The engine's default recursion limit, and the most it allows.
pub const MAX_RECURSION_LIMIT: usize = 500;

/// The owner of a named-template registry and of the rendering-behavior
/// flags.  Registry mutations and flag changes take effect immediately and
/// are read by later compile and render calls; a template compiled earlier
/// keeps the whitespace handling that was baked in when it was added.
pub struct TemplateEnv {
    engine: minijinja::Environment<'static>,
    lstrip: bool,
    trim: bool,
    keep_nl: bool,
    rec_limit: usize,
    dbg: bool,
    undefined: mj_undefined_behavior,
}

impl TemplateEnv {
    /// Well-formedness: the engine environment behind the store is plain
    /// (built by this crate, no loader registered).  Constructors establish
    /// it and every method preserves it.
    pub closed spec fn wf(self) -> bool {
        env_plain(self.engine)
    }

    /// The registry: each registered template's name, mapped to the source
    /// text it was compiled from.
    pub closed spec fn templates(self) -> Map<Seq<char>, Seq<char>> {
        env_templates(self.engine)
    }

    /// Whether the engine compiles `source` under the store's current flags.
    pub closed spec fn compiles(self, source: Seq<char>) -> bool {
        compile_ok(self.engine, source)
    }

    /// The engine's outcome for rendering the template registered under
    /// `name` against the context decoded from the raw JSON bytes: the
    /// rendered text, or the kind description of the engine's failure.
    /// Meaningful when the name is registered and the bytes decode.
    pub closed spec fn render_outcome(self, name: Seq<char>, data: Seq<u8>) -> Result<
        Seq<char>,
        Seq<char>,
    > {
        match decoded(data) {
            Option::Some(v) => rendered(self.engine, name, v),
            Option::None => Result::Err(Seq::empty()),
        }
    }

    /// The engine's outcome for rendering the template registered under
    /// `name` against the given context value, bound through its JSON text.
    pub closed spec fn render_value_outcome(self, name: Seq<char>, ctx: Val) -> Result<
        Seq<char>,
        Seq<char>,
    > {
        match decoded_text(json_of(ctx)) {
            Option::Some(v) => rendered(self.engine, name, v),
            Option::None => Result::Err(Seq::empty()),
        }
    }

    /// The engine's outcome for compiling the transient `source`, labelled
    /// `name`, and rendering it against the context decoded from the raw
    /// JSON bytes.
    pub closed spec fn named_str_outcome(
        self,
        name: Seq<char>,
        source: Seq<char>,
        data: Seq<u8>,
    ) -> Result<Seq<char>, Seq<char>> {
        match decoded(data) {
            Option::Some(v) => rendered_str(self.engine, name, source, v),
            Option::None => Result::Err(Seq::empty()),
        }
    }

    /// The engine's outcome for compiling the transient `source`, labelled
    /// `name`, and rendering it against the given context value, bound
    /// through its JSON text.
    pub closed spec fn named_str_value_outcome(
        self,
        name: Seq<char>,
        source: Seq<char>,
        ctx: Val,
    ) -> Result<Seq<char>, Seq<char>> {
        match decoded_text(json_of(ctx)) {
            Option::Some(v) => rendered_str(self.engine, name, source, v),
            Option::None => Result::Err(Seq::empty()),
        }
    }

    /// Whether leading whitespace is stripped from block lines.
    pub closed spec fn lstrip_blocks(self) -> bool {
        self.lstrip
    }

    /// Whether the first newline after a block is trimmed.
    pub closed spec fn trim_blocks(self) -> bool {
        self.trim
    }

    /// Whether a trailing newline of the template survives rendering.
    pub closed spec fn keep_trailing_newline(self) -> bool {
        self.keep_nl
    }

    /// The rendering recursion limit.
    pub closed spec fn recursion_limit(self) -> usize {
        self.rec_limit
    }

    /// Whether debug mode is on.
    pub closed spec fn debug(self) -> bool {
        self.dbg
    }

    /// The undefined-variable policy.
    pub closed spec fn undefined_behavior(self) -> mj_undefined_behavior {
        self.undefined
    }

    /// Whether all the flags of the two environments agree.
    pub open spec fn same_flags(self, other: TemplateEnv) -> bool {
        &&& self.lstrip_blocks() == other.lstrip_blocks()
        &&& self.trim_blocks() == other.trim_blocks()
        &&& self.keep_trailing_newline() == other.keep_trailing_newline()
        &&& self.recursion_limit() == other.recursion_limit()
        &&& self.debug() == other.debug()
        &&& self.undefined_behavior() == other.undefined_behavior()
    }

    /// Creates a new, empty environment carrying the documented defaults: no
    /// whitespace control, trailing newline removed, the engine's default
    /// recursion limit, debug off, and the lenient undefined-variable policy.
    pub fn new() -> (r: TemplateEnv)
        ensures
            r.wf(),
            r.templates() == no_templates(),
            !r.lstrip_blocks(),
            !r.trim_blocks(),
            !r.keep_trailing_newline(),
            r.recursion_limit() == MAX_RECURSION_LIMIT,
            !r.debug(),
            r.undefined_behavior() == mj_undefined_behavior::MJ_UNDEFINED_BEHAVIOR_LENIENT,
    {
        let mut engine = engine_new();
        engine_set_lstrip_blocks(&mut engine, false);
        engine_set_trim_blocks(&mut engine, false);
        engine_set_keep_trailing_newline(&mut engine, false);
        engine_set_recursion_limit(&mut engine, MAX_RECURSION_LIMIT);
        engine_set_debug(&mut engine, false);
        engine_set_undefined_behavior(
            &mut engine,
            mj_undefined_behavior::MJ_UNDEFINED_BEHAVIOR_LENIENT,
        );
        TemplateEnv {
            engine,
            lstrip: false,
            trim: false,
            keep_nl: false,
            rec_limit: MAX_RECURSION_LIMIT,
            dbg: false,
            undefined: mj_undefined_behavior::MJ_UNDEFINED_BEHAVIOR_LENIENT,
        }
    }

    /// Compiles `source` under the current flags and registers it under
    /// `name`, replacing any prior template of that name.  A compile failure
    /// reports the error and leaves the registry exactly as it was: the
    /// replacement is atomic.
    pub fn add_template(&mut self, name: &str, source: &str) -> (r: Result<(), mj_error>)
        requires
            old(self).wf(),
        ensures
            final(self).wf(),
            r is Ok <==> old(self).compiles(source@),
            r is Ok ==> final(self).templates() == old(self).templates().insert(name@, source@),
            r is Ok ==> final(self).templates()[name@] == source@,
            r is Err ==> final(self).templates() == old(self).templates(),
            r matches Result::Err(e) ==> (e.code == mj_code::MJ_SYNTAX_ERROR || e.code
                == mj_code::MJ_BAD_ESCAPE),
            final(self).same_flags(*old(self)),
            forall|s: Seq<char>| #[trigger] final(self).compiles(s) == old(self).compiles(s),
    {
        proof {
            lemma_compile_failure_codes();
        }
        let r = engine_add_template(&mut self.engine, name, source);
        match r {
            Result::Ok(()) => Ok(()),
            Result::Err(e) => Err(mj_error::new(&e)),
        }
    }

    /// Removes the template registered under `name`; an absent name is a
    /// no-op.
    pub fn remove_template(&mut self, name: &str)
        requires
            old(self).wf(),
        ensures
            final(self).wf(),
            final(self).templates() == old(self).templates().remove(name@),
            final(self).same_flags(*old(self)),
            forall|s: Seq<char>| #[trigger] final(self).compiles(s) == old(self).compiles(s),
    {
        engine_remove_template(&mut self.engine, name);
    }

    /// Empties the registry.
    pub fn clear_templates(&mut self)
        requires
            old(self).wf(),
        ensures
            final(self).wf(),
            final(self).templates() == no_templates(),
            final(self).same_flags(*old(self)),
            forall|s: Seq<char>| #[trigger] final(self).compiles(s) == old(self).compiles(s),
    {
        engine_clear_templates(&mut self.engine);
    }

    /// Whether a template is registered under `name`.
    pub fn has_template(&self, name: &str) -> (r: bool)
        requires
            self.wf(),
        ensures
            r == self.templates().contains_key(name@),
    {
        match engine_get_template(&self.engine, name) {
            Result::Ok(_) => true,
            Result::Err(_) => false,
        }
    }

    /// Renders the template registered under `name` against a context decoded
    /// from the raw JSON bytes.  A missing name reports template-not-found; a
    /// registered name with bytes the decoder rejects reports
    /// cannot-deserialize; otherwise the engine's own outcome comes back, a
    /// failure wrapped exactly once.
    pub fn render(&self, name: &str, data: &[u8]) -> (r: Result<String, mj_error>)
        requires
            self.wf(),
        ensures
            !self.templates().contains_key(name@) ==> (r matches Result::Err(e) && e.code
                == mj_code::MJ_TEMPLATE_NOT_FOUND),
            self.templates().contains_key(name@) && !decode_accepts(data@) ==> (r
                matches Result::Err(e) && e.code == mj_code::MJ_CANNOT_DESERIALIZE),
            self.templates().contains_key(name@) && decode_accepts(data@) ==> ((r is Ok)
                <==> self.render_outcome(name@, data@) is Ok),
            self.templates().contains_key(name@) && decode_accepts(data@) ==> (r
                matches Result::Ok(s) ==> (self.render_outcome(name@, data@)
                matches Result::Ok(t) && s@ == t)),
            self.templates().contains_key(name@) && decode_accepts(data@) ==> (r
                matches Result::Err(e) ==> (self.render_outcome(name@, data@)
                matches Result::Err(k) && e.code == code_of_kind_text(k))),
    {
        match engine_get_template(&self.engine, name) {
            Result::Ok(_) => (),
            Result::Err(e) => {
                let message = chain_message(&crate::engine::engine_error_chain(&e));
                return Err(mj_error { code: mj_code::MJ_TEMPLATE_NOT_FOUND, message });
            },
        };
        let ctx = match decode_value(data) {
            Result::Ok(v) => v,
            Result::Err(e) => {
                let message = decode_error_message(&e);
                return Err(mj_error { code: mj_code::MJ_CANNOT_DESERIALIZE, message });
            },
        };
        match engine_render_template(&self.engine, name, &ctx) {
            Result::Ok(s) => Ok(s),
            Result::Err(e) => Err(mj_error::new(&e)),
        }
    }

    /// Renders the template registered under `name` against the given
    /// context value, handing the engine the value's JSON text.  A missing
    /// name reports template-not-found; a value whose text the decoder
    /// rejects reports cannot-deserialize.
    pub fn render_value(&self, name: &str, ctx: &mj_value) -> (r: Result<String, mj_error>)
        requires
            self.wf(),
        ensures
            !self.templates().contains_key(name@) ==> (r matches Result::Err(e) && e.code
                == mj_code::MJ_TEMPLATE_NOT_FOUND),
            self.templates().contains_key(name@) && !decode_accepts_text(json_of(ctx@)) ==> (r
                matches Result::Err(e) && e.code == mj_code::MJ_CANNOT_DESERIALIZE),
            self.templates().contains_key(name@) && decode_accepts_text(json_of(ctx@)) ==> ((r
                is Ok) <==> self.render_value_outcome(name@, ctx@) is Ok),
            self.templates().contains_key(name@) && decode_accepts_text(json_of(ctx@)) ==> (r
                matches Result::Ok(s) ==> (self.render_value_outcome(name@, ctx@)
                matches Result::Ok(t) && s@ == t)),
            self.templates().contains_key(name@) && decode_accepts_text(json_of(ctx@)) ==> (r
                matches Result::Err(e) ==> (self.render_value_outcome(name@, ctx@)
                matches Result::Err(k) && e.code == code_of_kind_text(k))),
    {
        match engine_get_template(&self.engine, name) {
            Result::Ok(_) => (),
            Result::Err(e) => {
                let message = chain_message(&crate::engine::engine_error_chain(&e));
                return Err(mj_error { code: mj_code::MJ_TEMPLATE_NOT_FOUND, message });
            },
        };
        let json = ctx.to_json();
        let engine_ctx = match decode_value_text(json.as_str()) {
            Result::Ok(v) => v,
            Result::Err(e) => {
                let message = decode_error_message(&e);
                return Err(mj_error { code: mj_code::MJ_CANNOT_DESERIALIZE, message });
            },
        };
        match engine_render_template(&self.engine, name, &engine_ctx) {
            Result::Ok(s) => Ok(s),
            Result::Err(e) => Err(mj_error::new(&e)),
        }
    }

    /// Compiles the inline `source` transiently under the current flags and
    /// renders it against a context decoded from the raw JSON bytes; `name`
    /// only labels error messages and nothing registers.  Bytes the decoder
    /// rejects report cannot-deserialize.
    pub fn render_named_str(&self, name: &str, source: &str, data: &[u8]) -> (r: Result<
        String,
        mj_error,
    >)
        requires
            self.wf(),
        ensures
            !decode_accepts(data@) ==> (r matches Result::Err(e) && e.code
                == mj_code::MJ_CANNOT_DESERIALIZE),
            decode_accepts(data@) ==> ((r is Ok) <==> self.named_str_outcome(
                name@,
                source@,
                data@,
            ) is Ok),
            decode_accepts(data@) ==> (r matches Result::Ok(s) ==> (self.named_str_outcome(
                name@,
                source@,
                data@,
            ) matches Result::Ok(t) && s@ == t)),
            decode_accepts(data@) ==> (r matches Result::Err(e) ==> (self.named_str_outcome(
                name@,
                source@,
                data@,
            ) matches Result::Err(k) && e.code == code_of_kind_text(k))),
            decode_accepts(data@) && !self.compiles(source@) ==> (r matches Result::Err(e) && (
            e.code == mj_code::MJ_SYNTAX_ERROR || e.code == mj_code::MJ_BAD_ESCAPE)),
    {
        proof {
            lemma_compile_failure_codes();
        }
        let ctx = match decode_value(data) {
            Result::Ok(v) => v,
            Result::Err(e) => {
                let message = decode_error_message(&e);
                return Err(mj_error { code: mj_code::MJ_CANNOT_DESERIALIZE, message });
            },
        };
        match engine_render_named_str(&self.engine, name, source, &ctx) {
            Result::Ok(s) => Ok(s),
            Result::Err(e) => Err(mj_error::new(&e)),
        }
    }

    /// Compiles the inline `source` transiently under the current flags and
    /// renders it against the given context value; `name` only labels error
    /// messages and nothing registers.  A value whose JSON text the decoder
    /// rejects reports cannot-deserialize.
    pub fn render_named_str_value(&self, name: &str, source: &str, ctx: &mj_value) -> (r: Result<
        String,
        mj_error,
    >)
        requires
            self.wf(),
        ensures
            !decode_accepts_text(json_of(ctx@)) ==> (r matches Result::Err(e) && e.code
                == mj_code::MJ_CANNOT_DESERIALIZE),
            decode_accepts_text(json_of(ctx@)) ==> ((r is Ok) <==> self.named_str_value_outcome(
                name@,
                source@,
                ctx@,
            ) is Ok),
            decode_accepts_text(json_of(ctx@)) ==> (r matches Result::Ok(s) ==> (
            self.named_str_value_outcome(name@, source@, ctx@) matches Result::Ok(t) && s@ == t)),
            decode_accepts_text(json_of(ctx@)) ==> (r matches Result::Err(e) ==> (
            self.named_str_value_outcome(name@, source@, ctx@) matches Result::Err(k) && e.code
                == code_of_kind_text(k))),
            decode_accepts_text(json_of(ctx@)) && !self.compiles(source@) ==> (r
                matches Result::Err(e) && (e.code == mj_code::MJ_SYNTAX_ERROR || e.code
                == mj_code::MJ_BAD_ESCAPE)),
    {
        proof {
            lemma_compile_failure_codes();
        }
        let json = ctx.to_json();
        let engine_ctx = match decode_value_text(json.as_str()) {
            Result::Ok(v) => v,
            Result::Err(e) => {
                let message = decode_error_message(&e);
                return Err(mj_error { code: mj_code::MJ_CANNOT_DESERIALIZE, message });
            },
        };
        match engine_render_named_str(&self.engine, name, source, &engine_ctx) {
            Result::Ok(s) => Ok(s),
            Result::Err(e) => Err(mj_error::new(&e)),
        }
    }

    /// Sets whether leading whitespace is stripped from block lines; read by
    /// later compile and render calls.
    pub fn set_lstrip_blocks(&mut self, v: bool)
        requires
            old(self).wf(),
        ensures
            final(self).wf(),
            final(self).lstrip_blocks() == v,
            final(self).templates() == old(self).templates(),
            final(self).trim_blocks() == old(self).trim_blocks(),
            final(self).keep_trailing_newline() == old(self).keep_trailing_newline(),
            final(self).recursion_limit() == old(self).recursion_limit(),
            final(self).debug() == old(self).debug(),
            final(self).undefined_behavior() == old(self).undefined_behavior(),
    {
        engine_set_lstrip_blocks(&mut self.engine, v);
        self.lstrip = v;
    }

    /// Sets whether the first newline after a block is trimmed; read by
    /// later compile and render calls.
    pub fn set_trim_blocks(&mut self, v: bool)
        requires
            old(self).wf(),
        ensures
            final(self).wf(),
            final(self).trim_blocks() == v,
            final(self).templates() == old(self).templates(),
            final(self).lstrip_blocks() == old(self).lstrip_blocks(),
            final(self).keep_trailing_newline() == old(self).keep_trailing_newline(),
            final(self).recursion_limit() == old(self).recursion_limit(),
            final(self).debug() == old(self).debug(),
            final(self).undefined_behavior() == old(self).undefined_behavior(),
    {
        engine_set_trim_blocks(&mut self.engine, v);
        self.trim = v;
    }

    /// Sets whether a trailing newline of the template survives rendering;
    /// read by later compile and render calls.
    pub fn set_keep_trailing_newline(&mut self, v: bool)
        requires
            old(self).wf(),
        ensures
            final(self).wf(),
            final(self).keep_trailing_newline() == v,
            final(self).templates() == old(self).templates(),
            final(self).lstrip_blocks() == old(self).lstrip_blocks(),
            final(self).trim_blocks() == old(self).trim_blocks(),
            final(self).recursion_limit() == old(self).recursion_limit(),
            final(self).debug() == old(self).debug(),
            final(self).undefined_behavior() == old(self).undefined_behavior(),
    {
        engine_set_keep_trailing_newline(&mut self.engine, v);
        self.keep_nl = v;
    }

    /// Sets the rendering recursion limit; the engine caps it at its safe
    /// maximum.
    pub fn set_recursion_limit(&mut self, v: usize)
        requires
            old(self).wf(),
        ensures
            final(self).wf(),
            final(self).recursion_limit() == (if v < MAX_RECURSION_LIMIT {
                v
            } else {
                MAX_RECURSION_LIMIT
            }),
            final(self).templates() == old(self).templates(),
            final(self).lstrip_blocks() == old(self).lstrip_blocks(),
            final(self).trim_blocks() == old(self).trim_blocks(),
            final(self).keep_trailing_newline() == old(self).keep_trailing_newline(),
            final(self).debug() == old(self).debug(),
            final(self).undefined_behavior() == old(self).undefined_behavior(),
    {
        engine_set_recursion_limit(&mut self.engine, v);
        self.rec_limit = if v < MAX_RECURSION_LIMIT {
            v
        } else {
            MAX_RECURSION_LIMIT
        };
    }

    /// Sets debug mode, which enriches error reports from later operations.
    pub fn set_debug(&mut self, v: bool)
        requires
            old(self).wf(),
        ensures
            final(self).wf(),
            final(self).debug() == v,
            final(self).templates() == old(self).templates(),
            final(self).lstrip_blocks() == old(self).lstrip_blocks(),
            final(self).trim_blocks() == old(self).trim_blocks(),
            final(self).keep_trailing_newline() == old(self).keep_trailing_newline(),
            final(self).recursion_limit() == old(self).recursion_limit(),
            final(self).undefined_behavior() == old(self).undefined_behavior(),
    {
        engine_set_debug(&mut self.engine, v);
        self.dbg = v;
    }

    /// Sets the undefined-variable policy; read by later render calls.
    pub fn set_undefined_behavior(&mut self, b: mj_undefined_behavior)
        requires
            old(self).wf(),
        ensures
            final(self).wf(),
            final(self).undefined_behavior() == b,
            final(self).templates() == old(self).templates(),
            final(self).lstrip_blocks() == old(self).lstrip_blocks(),
            final(self).trim_blocks() == old(self).trim_blocks(),
            final(self).keep_trailing_newline() == old(self).keep_trailing_newline(),
            final(self).recursion_limit() == old(self).recursion_limit(),
            final(self).debug() == old(self).debug(),
    {
        engine_set_undefined_behavior(&mut self.engine, b);
        self.undefined = b;
    }

    /// Reads whether leading whitespace is stripped from block lines.
    pub fn get_lstrip_blocks(&self) -> (r: bool)
        ensures
            r == self.lstrip_blocks(),
    {
        self.lstrip
    }

    /// Reads whether the first newline after a block is trimmed.
    pub fn get_trim_blocks(&self) -> (r: bool)
        ensures
            r == self.trim_blocks(),
    {
        self.trim
    }

    /// Reads whether a trailing newline of the template survives rendering.
    pub fn get_keep_trailing_newline(&self) -> (r: bool)
        ensures
            r == self.keep_trailing_newline(),
    {
        self.keep_nl
    }

    /// Reads the rendering recursion limit.
    pub fn get_recursion_limit(&self) -> (r: usize)
        ensures
            r == self.recursion_limit(),
    {
        self.rec_limit
    }

    /// Reads whether debug mode is on.
    pub fn get_debug(&self) -> (r: bool)
        ensures
            r == self.debug(),
    {
        self.dbg
    }

    /// Reads the undefined-variable policy.
    pub fn get_undefined_behavior(&self) -> (r: mj_undefined_behavior)
        ensures
            r == self.undefined_behavior(),
    {
        self.undefined
    }
}

} // verus!

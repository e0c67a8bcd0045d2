use mjcore::environment::TemplateEnv;
use mjcore::environment::MAX_RECURSION_LIMIT;
use mjcore::errors::mj_code;
use mjcore::types::mj_undefined_behavior;
use mjcore::value::mj_value;

#[test]
fn new_environment_is_empty_with_defaults() {
    let env = TemplateEnv::new();
    assert!(!env.has_template("t"));
    assert!(!env.get_lstrip_blocks());
    assert!(!env.get_trim_blocks());
    assert!(!env.get_keep_trailing_newline());
    assert!(!env.get_debug());
    assert_eq!(env.get_recursion_limit(), MAX_RECURSION_LIMIT);
    assert_eq!(
        env.get_undefined_behavior(),
        mj_undefined_behavior::MJ_UNDEFINED_BEHAVIOR_LENIENT
    );
}

#[test]
fn render_round_trip_with_default_flags() {
    let mut env = TemplateEnv::new();
    env.add_template("hello", "Hello {{ name }}").expect("template compiles");
    let out = env.render("hello", b"{\"name\":\"World\"}").expect("render succeeds");
    assert_eq!(out, "Hello World");
}

#[test]
fn trailing_newline_is_dropped_by_default() {
    let mut env = TemplateEnv::new();
    env.add_template("t", "Hi\n").expect("template compiles");
    assert_eq!(env.render("t", b"{}").expect("render succeeds"), "Hi");
    env.set_keep_trailing_newline(true);
    env.add_template("t2", "Hi\n").expect("template compiles");
    assert_eq!(env.render("t2", b"{}").expect("render succeeds"), "Hi\n");
}

#[test]
fn replacing_a_template_renders_only_the_new_source() {
    let mut env = TemplateEnv::new();
    env.add_template("t", "one {{ n }}").expect("first version compiles");
    assert_eq!(env.render("t", b"{\"n\":1}").expect("render succeeds"), "one 1");
    env.add_template("t", "two {{ n }}").expect("second version compiles");
    assert_eq!(env.render("t", b"{\"n\":2}").expect("render succeeds"), "two 2");
}

#[test]
fn syntax_error_leaves_registry_unchanged() {
    let mut env = TemplateEnv::new();
    let e = env.add_template("t", "{{ bad syntax").expect_err("compile fails");
    assert_eq!(e.code, mj_code::MJ_SYNTAX_ERROR);
    assert!(!env.has_template("t"));
    let r = env.render("t", b"{}").expect_err("nothing is registered");
    assert_eq!(r.code, mj_code::MJ_TEMPLATE_NOT_FOUND);
}

#[test]
fn failed_replacement_keeps_the_prior_template() {
    let mut env = TemplateEnv::new();
    env.add_template("t", "good {{ n }}").expect("template compiles");
    let e = env.add_template("t", "{{ bad syntax").expect_err("compile fails");
    assert_eq!(e.code, mj_code::MJ_SYNTAX_ERROR);
    assert!(env.has_template("t"));
    assert_eq!(env.render("t", b"{\"n\":3}").expect("render succeeds"), "good 3");
}

#[test]
fn re_adding_the_same_template_succeeds_again() {
    let mut env = TemplateEnv::new();
    env.add_template("t", "same {{ n }}").expect("first add compiles");
    env.add_template("t", "same {{ n }}").expect("second add of the same source compiles");
    assert_eq!(env.render("t", b"{\"n\":1}").expect("render succeeds"), "same 1");
}

#[test]
fn bad_escape_in_source_reports_its_code() {
    let mut env = TemplateEnv::new();
    let e = env.add_template("t", "{{ \"\\uZZZZ\" }}").expect_err("escape is malformed");
    assert_eq!(e.code, mj_code::MJ_BAD_ESCAPE);
    assert!(!env.has_template("t"));
}

#[test]
fn missing_template_reports_not_found() {
    let env = TemplateEnv::new();
    let e = env.render("absent", b"{}").expect_err("lookup fails");
    assert_eq!(e.code, mj_code::MJ_TEMPLATE_NOT_FOUND);
}

#[test]
fn malformed_context_bytes_report_cannot_deserialize() {
    let mut env = TemplateEnv::new();
    env.add_template("t", "x").expect("template compiles");
    let e = env.render("t", b"this is not json").expect_err("decode fails");
    assert_eq!(e.code, mj_code::MJ_CANNOT_DESERIALIZE);
    assert!(!e.message.is_empty());
    let e2 = env
        .render_named_str("n", "x", b"{\"unclosed\":")
        .expect_err("decode fails");
    assert_eq!(e2.code, mj_code::MJ_CANNOT_DESERIALIZE);
}

#[test]
fn undefined_variable_policies() {
    let mut env = TemplateEnv::new();
    // lenient by default: undefined renders as empty
    let out = env.render_named_str("t", "{{ missing }}", b"{}").expect("lenient render");
    assert_eq!(out, "");
    env.set_undefined_behavior(mj_undefined_behavior::MJ_UNDEFINED_BEHAVIOR_STRICT);
    let e = env
        .render_named_str("t", "{{ missing }}", b"{}")
        .expect_err("strict render fails");
    assert_eq!(e.code, mj_code::MJ_UNDEFINED_ERROR);
    env.set_undefined_behavior(mj_undefined_behavior::MJ_UNDEFINED_BEHAVIOR_CHAINABLE);
    let out = env
        .render_named_str("t", "{{ missing.a.b }}", b"{}")
        .expect("chainable render");
    assert_eq!(out, "");
}

#[test]
fn render_named_str_registers_nothing() {
    let env = TemplateEnv::new();
    let out = env
        .render_named_str("adhoc", "A {{ v }}", b"{\"v\":9}")
        .expect("render succeeds");
    assert_eq!(out, "A 9");
    assert!(!env.has_template("adhoc"));
}

#[test]
fn remove_and_clear_templates() {
    let mut env = TemplateEnv::new();
    env.add_template("a", "1").expect("compiles");
    env.add_template("b", "2").expect("compiles");
    env.remove_template("a");
    assert!(!env.has_template("a"));
    assert!(env.has_template("b"));
    // removing an absent name is a no-op
    env.remove_template("a");
    env.clear_templates();
    assert!(!env.has_template("b"));
}

#[test]
fn render_value_binds_the_container() {
    let mut env = TemplateEnv::new();
    env.add_template("t", "{{ name }} is {{ age }}").expect("compiles");
    let mut ctx = mj_value::new_map();
    ctx.set_str("name", "Ada");
    ctx.set_u64("age", 36);
    let out = env.render_value("t", &ctx).expect("render succeeds");
    assert_eq!(out, "Ada is 36");
}

#[test]
fn render_value_reaches_nested_data() {
    let env = TemplateEnv::new();
    let mut ctx = mj_value::new_map();
    ctx.set_list_i64("xs", &vec![10, 20, 30]);
    let mut person = mj_value::new_map();
    person.set_str("name", "Grace");
    ctx.set_value("p", &person);
    ctx.set_f64_text("score", "2.5");
    let out = env
        .render_named_str_value("t", "{{ xs[1] }} {{ p.name }} {{ score }}", &ctx)
        .expect("render succeeds");
    assert_eq!(out, "20 Grace 2.5");
}

#[test]
fn escaped_strings_survive_the_value_path() {
    let env = TemplateEnv::new();
    let mut ctx = mj_value::new_map();
    ctx.set_str("s", "a\"b\\c\nd");
    let out = env.render_named_str_value("t", "{{ s }}", &ctx).expect("render succeeds");
    assert_eq!(out, "a\"b\\c\nd");
}

#[test]
fn unknown_filter_reports_its_code() {
    let env = TemplateEnv::new();
    let e = env
        .render_named_str("t", "{{ 1|nosuchfilter }}", b"{}")
        .expect_err("filter is unknown");
    assert_eq!(e.code, mj_code::MJ_UNKNOWN_FILTER);
}

#[test]
fn include_failure_carries_a_causal_chain() {
    let mut env = TemplateEnv::new();
    env.add_template("inner", "{{ 1|nosuchfilter }}").expect("inner compiles");
    env.add_template("outer", "{% include \"inner\" %}").expect("outer compiles");
    let e = env.render("outer", b"{}").expect_err("included template fails");
    assert_eq!(e.code, mj_code::MJ_BAD_INCLUDE);
    assert!(e.message.contains("\nCaused by: "));
    assert!(e.message.contains("unknown filter"));
}

#[test]
fn missing_include_reports_not_found() {
    let env = TemplateEnv::new();
    let e = env
        .render_named_str("t", "{% include \"missing\" %}", b"{}")
        .expect_err("include target is absent");
    assert_eq!(e.code, mj_code::MJ_TEMPLATE_NOT_FOUND);
}

#[test]
fn whitespace_flags_change_later_renders() {
    let mut env = TemplateEnv::new();
    let src = "{% if true %}\n  x\n{% endif %}\n";
    let plain = env.render_named_str("t", src, b"{}").expect("render succeeds");
    env.set_trim_blocks(true);
    env.set_lstrip_blocks(true);
    let trimmed = env.render_named_str("t", src, b"{}").expect("render succeeds");
    assert_ne!(plain, trimmed);
    assert_eq!(trimmed, "  x\n");
    assert!(env.get_trim_blocks());
    assert!(env.get_lstrip_blocks());
}

#[test]
fn low_recursion_limit_fails_an_include() {
    let mut env = TemplateEnv::new();
    env.add_template("inner", "x").expect("inner compiles");
    env.add_template("outer", "{% include \"inner\" %}").expect("outer compiles");
    assert_eq!(env.render("outer", b"{}").expect("within the default limit"), "x");
    env.set_recursion_limit(5);
    let e = env.render("outer", b"{}").expect_err("limit too low for an include");
    assert_eq!(e.code, mj_code::MJ_INVALID_OPERATION);
    assert!(e.message.contains("recursion limit exceeded"));
}

#[test]
fn type_mismatched_arithmetic_reports_invalid_operation() {
    let env = TemplateEnv::new();
    let e = env
        .render_named_str("t", "{{ 1 + \"a\" }}", b"{}")
        .expect_err("mismatched operands");
    assert_eq!(e.code, mj_code::MJ_INVALID_OPERATION);
}

#[test]
fn unknown_test_reports_its_code() {
    let env = TemplateEnv::new();
    let e = env
        .render_named_str("t", "{{ 1 is nosuchtest }}", b"{}")
        .expect_err("test is unknown");
    assert_eq!(e.code, mj_code::MJ_UNKNOWN_TEST);
}

#[test]
fn unpacking_mismatch_reports_cannot_unpack() {
    let env = TemplateEnv::new();
    let e = env
        .render_named_str("t", "{% for a, b in [1, 2] %}x{% endfor %}", b"{}")
        .expect_err("items do not unpack into pairs");
    assert_eq!(e.code, mj_code::MJ_CANNOT_UNPACK);
}

#[test]
fn recursion_limit_is_capped() {
    let mut env = TemplateEnv::new();
    env.set_recursion_limit(100);
    assert_eq!(env.get_recursion_limit(), 100);
    env.set_recursion_limit(1000000);
    assert_eq!(env.get_recursion_limit(), MAX_RECURSION_LIMIT);
}

#[test]
fn set_debug_is_recorded() {
    let mut env = TemplateEnv::new();
    env.set_debug(true);
    assert!(env.get_debug());
    env.set_debug(false);
    assert!(!env.get_debug());
}

use mjcore::errors::chain_message;
use mjcore::errors::kind_code;
use mjcore::errors::mj_code;
use mjcore::errors::mj_error;

#[test]
fn single_part_is_the_message_itself() {
    let parts = vec!["boom".to_string()];
    assert_eq!(chain_message(&parts), "boom");
}

#[test]
fn causes_are_separated_by_the_fixed_prefix() {
    let parts = vec!["a".to_string(), "b".to_string(), "c".to_string()];
    assert_eq!(chain_message(&parts), "a\nCaused by: b\nCaused by: c");
}

#[test]
fn empty_chain_gives_empty_message() {
    let parts: Vec<String> = vec![];
    assert_eq!(chain_message(&parts), "");
}

#[test]
fn from_parts_carries_code_and_message() {
    let parts = vec!["first".to_string(), "second".to_string()];
    let e = mj_error::from_parts(mj_code::MJ_SYNTAX_ERROR, &parts);
    assert_eq!(e.code, mj_code::MJ_SYNTAX_ERROR);
    assert_eq!(e.message, "first\nCaused by: second");
}

#[test]
fn kind_descriptions_map_to_their_codes() {
    assert_eq!(kind_code("not a primitive"), mj_code::MJ_NON_PRIMITIVE);
    assert_eq!(kind_code("not a key type"), mj_code::MJ_NON_KEY);
    assert_eq!(kind_code("invalid operation"), mj_code::MJ_INVALID_OPERATION);
    assert_eq!(kind_code("syntax error"), mj_code::MJ_SYNTAX_ERROR);
    assert_eq!(kind_code("template not found"), mj_code::MJ_TEMPLATE_NOT_FOUND);
    assert_eq!(kind_code("too many arguments"), mj_code::MJ_TOO_MANY_ARGUMENTS);
    assert_eq!(kind_code("missing argument"), mj_code::MJ_MISSING_ARGUMENT);
    assert_eq!(kind_code("unknown filter"), mj_code::MJ_UNKNOWN_FILTER);
    assert_eq!(kind_code("unknown test"), mj_code::MJ_UNKNOWN_TEST);
    assert_eq!(kind_code("unknown function"), mj_code::MJ_UNKNOWN_FUNCTION);
    assert_eq!(kind_code("unknown method"), mj_code::MJ_UNKNOWN_METHOD);
    assert_eq!(kind_code("bad string escape"), mj_code::MJ_BAD_ESCAPE);
    assert_eq!(kind_code("undefined value"), mj_code::MJ_UNDEFINED_ERROR);
    assert_eq!(
        kind_code("could not serialize to value"),
        mj_code::MJ_BAD_SERIALIZATION
    );
    assert_eq!(kind_code("cannot deserialize"), mj_code::MJ_CANNOT_DESERIALIZE);
    assert_eq!(kind_code("could not render include"), mj_code::MJ_BAD_INCLUDE);
    assert_eq!(kind_code("could not render block"), mj_code::MJ_EVAL_BLOCK);
    assert_eq!(kind_code("cannot unpack"), mj_code::MJ_CANNOT_UNPACK);
    assert_eq!(kind_code("failed to write output"), mj_code::MJ_WRITE_FAILURE);
    assert_eq!(kind_code("unknown block"), mj_code::MJ_UNKNOWN_BLOCK);
}

#[test]
fn unrecognized_description_reports_invalid_operation() {
    assert_eq!(kind_code("something new"), mj_code::MJ_INVALID_OPERATION);
    assert_eq!(kind_code(""), mj_code::MJ_INVALID_OPERATION);
}

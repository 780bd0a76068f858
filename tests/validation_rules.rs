use blog_api::rejection::{Rejection, ValidationError};
use blog_api::request::{parse_i16, path_segments};
use blog_api::validation::{validate, validate_all_params, MAX_FIELD_LEN};

fn invalid(e: ValidationError) -> Rejection {
    Rejection::InvalidInput(e)
}

#[test]
fn plain_name_is_valid() {
    assert_eq!(validate("Ada"), Ok(()));
}

#[test]
fn empty_field_is_rejected() {
    assert_eq!(validate(""), Err(invalid(ValidationError::Empty)));
}

#[test]
fn whitespace_only_field_is_rejected() {
    assert_eq!(validate(" \t\u{3000} "), Err(invalid(ValidationError::Empty)));
}

#[test]
fn longest_field_is_valid() {
    let s = "x".repeat(MAX_FIELD_LEN);
    assert_eq!(validate(&s), Ok(()));
}

#[test]
fn overlong_field_is_rejected() {
    let s = "x".repeat(MAX_FIELD_LEN + 1);
    assert_eq!(validate(&s), Err(invalid(ValidationError::TooLong)));
}

#[test]
fn overlong_blank_field_reports_empty_first() {
    let s = " ".repeat(MAX_FIELD_LEN + 10);
    assert_eq!(validate(&s), Err(invalid(ValidationError::Empty)));
}

#[test]
fn delimiters_and_controls_are_rejected() {
    for s in ["a;b", "O'Brien", "say \"hi\"", "back\\slash", "tab\there", "bell\u{7}"] {
        assert_eq!(validate(s), Err(invalid(ValidationError::ForbiddenChar)), "{s}");
    }
}

#[test]
fn non_ascii_letters_are_valid() {
    assert_eq!(validate("Zoë Ñandú"), Ok(()));
}

#[test]
fn all_params_valid_gives_true() {
    assert_eq!(validate_all_params(vec!["alice".to_string(), "s3cret".to_string()]), Ok(true));
    assert_eq!(validate_all_params(vec![]), Ok(true));
}

#[test]
fn all_params_reports_first_failure_only() {
    let r = validate_all_params(vec!["".to_string(), "a;b".to_string()]);
    assert_eq!(r, Err(invalid(ValidationError::Empty)));
    let r = validate_all_params(vec!["a;b".to_string(), "".to_string()]);
    assert_eq!(r, Err(invalid(ValidationError::ForbiddenChar)));
    let r = validate_all_params(vec!["ok".to_string(), "x".repeat(300), "".to_string()]);
    assert_eq!(r, Err(invalid(ValidationError::TooLong)));
}

#[test]
fn ids_parse_like_i16() {
    assert_eq!(parse_i16("5"), Some(5));
    assert_eq!(parse_i16("+7"), Some(7));
    assert_eq!(parse_i16("-12"), Some(-12));
    assert_eq!(parse_i16("00042"), Some(42));
    assert_eq!(parse_i16("32767"), Some(32767));
    assert_eq!(parse_i16("-32768"), Some(-32768));
    assert_eq!(parse_i16("9999"), Some(9999));
}

#[test]
fn bad_ids_are_refused() {
    for s in ["", "-", "+", "abc", "12a", "32768", "-32769", "1 ", "99999999999999999999", "--1"] {
        assert_eq!(parse_i16(s), None, "{s}");
        assert_eq!(s.parse::<i16>().ok(), None, "{s}");
    }
}

#[test]
fn paths_split_into_segments() {
    assert_eq!(path_segments("/posts/delete/5"), vec!["posts", "delete", "5"]);
    assert_eq!(path_segments("/authors/"), vec!["authors"]);
    assert_eq!(path_segments("//users//login"), vec!["users", "login"]);
    assert_eq!(path_segments("/"), Vec::<String>::new());
    assert_eq!(path_segments(""), Vec::<String>::new());
    assert_eq!(path_segments("/café/ü"), vec!["café", "ü"]);
}

//! Tests of the title and template-name normalizers.

use std::iter;
use wiktionary_data::title::{
    normalize_template_name, normalize_title, TitleNormalizationError, TITLE_MAX,
};

fn rep(c: char, n: usize) -> String {
    iter::repeat(c).take(n).collect()
}

#[test]
fn lib_test_normalize_title() {
    let cases: Vec<(String, Result<String, TitleNormalizationError>)> = vec![
        (
            rep('_', TITLE_MAX) + "l" + &rep(' ', TITLE_MAX),
            Ok("l".to_string()),
        ),
        (
            rep('_', TITLE_MAX) + "auto" + &rep(' ', TITLE_MAX) + "cat" + &rep(' ', TITLE_MAX),
            Ok("auto_cat".to_string()),
        ),
        (rep('a', TITLE_MAX), Ok(rep('a', TITLE_MAX))),
        (rep('a', TITLE_MAX) + " ", Ok(rep('a', TITLE_MAX))),
        (rep('a', TITLE_MAX + 1), Err(TitleNormalizationError::TooLong)),
        ("\u{0}".to_string(), Err(TitleNormalizationError::IllegalChar)),
    ];
    for (name, expected) in &cases {
        let got = normalize_title(name.as_bytes()).map(|v| String::from_utf8(v).unwrap());
        assert_eq!(&got, expected, "input {:?}", name);
    }
}

#[test]
fn test_normalize_template_name() {
    let name = "__test_test__  \t";
    assert_eq!(
        normalize_template_name(name.as_bytes()).unwrap(),
        b"test test".to_vec()
    );

    let name = "test test\u{a0}";
    // This is actually an invalid template name.
    assert_eq!(
        normalize_template_name(name.as_bytes()).unwrap(),
        name.as_bytes().to_vec()
    );
}

#[test]
fn normalize_collapses_runs_to_underscores() {
    assert_eq!(
        normalize_title(b"__test_test__  \t").unwrap(),
        b"test_test".to_vec()
    );
}

#[test]
fn normalize_is_idempotent_on_examples() {
    for input in [
        "__test_test__  \t",
        "  Foo bar  ",
        "a",
        "x_y z",
    ] {
        let once = normalize_title(input.as_bytes()).unwrap();
        let twice = normalize_title(&once).unwrap();
        assert_eq!(once, twice, "input {:?}", input);
    }
}

#[test]
fn normalize_rejects_interior_control_character() {
    assert_eq!(
        normalize_title(b"a\x01b"),
        Err(TitleNormalizationError::IllegalChar)
    );
}

#[test]
fn normalize_all_whitespace_is_empty() {
    assert_eq!(normalize_title(b"___  \t"), Ok(Vec::new()));
    assert_eq!(normalize_template_name(b"___  \t"), None);
}

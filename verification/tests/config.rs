use textutils::bounded::Limit;
use textutils::catr;
use textutils::config::{files_or_stdin, ConfigError};
use textutils::counting::Selection;
use textutils::headr;
use textutils::numbering::NumberMode;
use textutils::wcr;

fn names(list: &[&str]) -> Vec<String> {
    list.iter().map(|s| s.to_string()).collect()
}

#[test]
fn no_file_named_means_standard_input() {
    assert_eq!(files_or_stdin(Vec::new()), names(&["-"]));
    assert_eq!(files_or_stdin(names(&["a", "b"])), names(&["a", "b"]));
    assert_eq!(files_or_stdin(names(&["-", "-"])), names(&["-", "-"]));
}

#[test]
fn cat_config_picks_the_mode() {
    let plain = catr::Config::new(names(&["a"]), false, false).unwrap();
    assert_eq!(plain.mode(), NumberMode::Plain);
    assert!(!plain.number_lines());
    assert!(!plain.number_nonblank_lines());
    assert_eq!(plain.files(), &names(&["a"]));

    let all = catr::Config::new(Vec::new(), true, false).unwrap();
    assert_eq!(all.mode(), NumberMode::NumberAll);
    assert!(all.number_lines());
    assert_eq!(all.files(), &names(&["-"]));

    let nonblank = catr::Config::new(names(&["x", "y"]), false, true).unwrap();
    assert_eq!(nonblank.mode(), NumberMode::NumberNonBlank);
    assert!(nonblank.number_nonblank_lines());
    assert_eq!(nonblank.files(), &names(&["x", "y"]));
}

#[test]
fn cat_config_refuses_both_numberings() {
    let made = catr::Config::new(names(&["a"]), true, true);
    assert!(matches!(made, Err(ConfigError::BothNumberings)));
}

#[test]
fn head_config_defaults_to_ten_lines() {
    let config = headr::Config::new(Vec::new(), None, None).unwrap();
    assert_eq!(config.lines(), 10);
    assert_eq!(config.bytes(), None);
    assert_eq!(config.limit(), Limit::Lines(10));
    assert_eq!(config.files(), &names(&["-"]));
}

#[test]
fn head_config_takes_one_limit() {
    let config = headr::Config::new(names(&["a"]), Some("3"), None).unwrap();
    assert_eq!(config.lines(), 3);
    assert_eq!(config.limit(), Limit::Lines(3));

    let config = headr::Config::new(names(&["a", "b"]), None, Some("100")).unwrap();
    assert_eq!(config.lines(), 10);
    assert_eq!(config.bytes(), Some(100));
    assert_eq!(config.limit(), Limit::Bytes(100));
    assert_eq!(config.files(), &names(&["a", "b"]));
}

#[test]
fn head_config_refuses_two_limits() {
    let made = headr::Config::new(names(&["a"]), Some("3"), Some("4"));
    assert!(matches!(made, Err(ConfigError::BothLimits)));
    let made = headr::Config::new(names(&["a"]), Some("x"), Some("y"));
    assert!(matches!(made, Err(ConfigError::BothLimits)));
}

#[test]
fn head_config_refuses_a_limit_that_is_no_positive_number() {
    for text in ["0", "-1", "foo", "", "1.5"] {
        match headr::Config::new(names(&["a"]), Some(text), None) {
            Err(ConfigError::IllegalLineCount(given)) => assert_eq!(given, text),
            other => panic!("{:?}", other),
        }
        match headr::Config::new(names(&["a"]), None, Some(text)) {
            Err(ConfigError::IllegalByteCount(given)) => assert_eq!(given, text),
            other => panic!("{:?}", other),
        }
    }
}

#[test]
fn count_config_defaults_to_lines_words_bytes() {
    let config = wcr::Config::new(Vec::new(), false, false, false, false).unwrap();
    assert_eq!(config.selection(), Selection { lines: true, words: true, bytes: true, chars: false });
    assert_eq!(config.files(), &names(&["-"]));
}

#[test]
fn count_config_keeps_the_options_given() {
    let config = wcr::Config::new(names(&["a"]), true, false, false, false).unwrap();
    assert_eq!(config.selection(), Selection { lines: true, words: false, bytes: false, chars: false });
    let config = wcr::Config::new(names(&["a"]), false, true, false, true).unwrap();
    assert_eq!(config.selection(), Selection { lines: false, words: true, bytes: false, chars: true });
    let config = wcr::Config::new(names(&["a"]), false, false, true, false).unwrap();
    assert_eq!(config.selection(), Selection { lines: false, words: false, bytes: true, chars: false });
    let config = wcr::Config::new(names(&["a"]), false, false, false, true).unwrap();
    assert_eq!(config.selection(), Selection { lines: false, words: false, bytes: false, chars: true });
}

#[test]
fn count_config_refuses_bytes_with_chars() {
    let made = wcr::Config::new(names(&["a"]), false, false, true, true);
    assert!(matches!(made, Err(ConfigError::BothSizes)));
    let made = wcr::Config::new(names(&["a"]), true, true, true, true);
    assert!(matches!(made, Err(ConfigError::BothSizes)));
}

#[test]
fn config_errors_have_their_messages() {
    assert_eq!(ConfigError::IllegalLineCount("foo".to_string()).message(), "illegal line count -- foo");
    assert_eq!(ConfigError::IllegalByteCount("0".to_string()).message(), "illegal byte count -- 0");
    assert_eq!(ConfigError::BothNumberings.message(), "--number-nonblank cannot be used with --number");
    assert_eq!(ConfigError::BothLimits.message(), "--bytes cannot be used with --lines");
    assert_eq!(ConfigError::BothSizes.message(), "--bytes cannot be used with --chars");
}

use rmolder::{parse_decimal, Args, ConfigError, FaultKind};

fn words(line: &[&str]) -> Vec<String> {
    line.iter().map(|word| word.to_string()).collect()
}

fn fault(line: &[&str]) -> (FaultKind, String) {
    match Args::new_from_args(&words(line), ".") {
        Err(ConfigError::BadArguments(fault)) => (fault.kind, fault.option),
        Err(_) => panic!("another error"),
        Ok(_) => panic!("a configuration"),
    }
}

#[test]
fn a_full_command_line_is_read() {
    let args = Args::new_from_args(&words(&["-a", "3600", "-d", "/tmp/stale", "--dry"]), ".");
    let args = args.ok().unwrap();
    assert!(!args.help);
    assert!(args.dry);
    assert_eq!(args.age, 3600);
    assert_eq!(args.directory, "/tmp/stale");
}

#[test]
fn long_names_are_read_like_short_ones() {
    let line = words(&["--age=42", "--directory", "archives", "--help"]);
    let args = Args::new_from_args(&line, ".").ok().unwrap();
    assert!(args.help);
    assert!(!args.dry);
    assert_eq!(args.age, 42);
    assert_eq!(args.directory, "archives");
}

#[test]
fn the_directory_falls_back_to_the_one_offered() {
    let args = Args::new_from_args(&words(&["-a", "0"]), "/home/me").ok().unwrap();
    assert_eq!(args.directory, "/home/me");
    assert_eq!(args.age, 0);
    assert!(!args.help);
    assert!(!args.dry);
}

#[test]
fn free_words_are_passed_over() {
    let args = Args::new_from_args(&words(&["left", "-a", "7", "right"]), ".").ok().unwrap();
    assert_eq!(args.age, 7);
    assert!(!args.dry);
}

#[test]
fn a_missing_age_is_an_error() {
    assert!(matches!(Args::new_from_args(&words(&[]), "."), Err(ConfigError::MissingAge)));
    assert!(matches!(
        Args::new_from_args(&words(&["--dry", "-d", "x"]), "."),
        Err(ConfigError::MissingAge)
    ));
    assert!(matches!(Args::new_from_args(&words(&["-h"]), "."), Err(ConfigError::MissingAge)));
}

#[test]
fn an_age_that_is_no_number_is_an_error() {
    for age in ["old", "-1", "+5", "1.5", "12a", " 5", "5 ", "0x10", "18446744073709551616", "٣"] {
        let line = vec![String::from("--age"), age.to_string()];
        assert!(
            matches!(Args::new_from_args(&line, "."), Err(ConfigError::UnparseableAge)),
            "{:?}",
            age
        );
    }
    let line = words(&["--age="]);
    assert!(matches!(Args::new_from_args(&line, "."), Err(ConfigError::UnparseableAge)));
}

#[test]
fn a_command_line_that_does_not_fit_names_the_option_at_fault() {
    assert_eq!(fault(&["-x"]), (FaultKind::UnrecognizedOption, String::from("x")));
    assert_eq!(fault(&["--wet"]), (FaultKind::UnrecognizedOption, String::from("wet")));
    assert_eq!(fault(&["-a"]), (FaultKind::ArgumentMissing, String::from("a")));
    assert_eq!(fault(&["-a", "1", "--age", "2"]), (FaultKind::OptionDuplicated, String::from("age")));
    assert_eq!(fault(&["--dry=yes", "-a", "1"]), (FaultKind::UnexpectedArgument, String::from("dry")));
    assert_ne!(FaultKind::OptionMissing, FaultKind::ArgumentMissing);
}

#[test]
fn the_options_are_put_together_as_they_were_read() {
    let args = Args::from_options(
        true,
        false,
        Some(String::from("100")),
        Some(String::from("d")),
        "fallback",
    );
    let args = args.ok().unwrap();
    assert!(args.help);
    assert!(!args.dry);
    assert_eq!(args.age, 100);
    assert_eq!(args.directory, "d");

    let args = Args::from_options(false, true, Some(String::from("5")), None, "fallback");
    let args = args.ok().unwrap();
    assert!(!args.help);
    assert!(args.dry);
    assert_eq!(args.directory, "fallback");

    assert!(matches!(
        Args::from_options(false, false, None, None, "."),
        Err(ConfigError::MissingAge)
    ));
    assert!(matches!(
        Args::from_options(false, false, Some(String::new()), None, "."),
        Err(ConfigError::UnparseableAge)
    ));
}

#[test]
fn compute_age_reads_decimal_seconds() {
    assert!(matches!(Args::compute_age(Some(String::from("42"))), Ok(42)));
    assert!(matches!(Args::compute_age(Some(String::from("0"))), Ok(0)));
    assert!(matches!(Args::compute_age(Some(String::from("007"))), Ok(7)));
    assert!(matches!(
        Args::compute_age(Some(String::from("18446744073709551615"))),
        Ok(u64::MAX)
    ));
    assert!(matches!(
        Args::compute_age(Some(String::from("18446744073709551616"))),
        Err(ConfigError::UnparseableAge)
    ));
    assert!(matches!(
        Args::compute_age(Some(String::from("forty-two"))),
        Err(ConfigError::UnparseableAge)
    ));
    assert!(matches!(Args::compute_age(None), Err(ConfigError::MissingAge)));
}

#[test]
fn compute_directory_prefers_the_option() {
    assert_eq!(Args::compute_directory(Some(String::from("./archives/")), "."), "./archives/");
    assert_eq!(Args::compute_directory(None, "/var/tmp"), "/var/tmp");
    assert_eq!(Args::compute_directory(Some(String::new()), "/var/tmp"), "");
}

#[test]
fn parse_decimal_takes_digits_and_nothing_else() {
    assert_eq!(parse_decimal("0"), Some(0));
    assert_eq!(parse_decimal("9"), Some(9));
    assert_eq!(parse_decimal("10"), Some(10));
    assert_eq!(parse_decimal("1234567890"), Some(1_234_567_890));
    assert_eq!(parse_decimal("00000000000000000000000001"), Some(1));
    assert_eq!(parse_decimal("18446744073709551615"), Some(u64::MAX));
    assert_eq!(parse_decimal("18446744073709551616"), None);
    assert_eq!(parse_decimal("99999999999999999999"), None);
    assert_eq!(parse_decimal("184467440737095516150"), None);
    assert_eq!(parse_decimal(""), None);
    assert_eq!(parse_decimal("+1"), None);
    assert_eq!(parse_decimal("-1"), None);
    assert_eq!(parse_decimal("1 "), None);
    assert_eq!(parse_decimal("/"), None);
    assert_eq!(parse_decimal(":"), None);
    assert_eq!(parse_decimal("1e3"), None);
    assert_eq!(parse_decimal("１２"), None);
}

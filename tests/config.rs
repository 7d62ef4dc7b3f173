use logana::config::{Args, InputKind, ParserKind};

#[test]
fn parser_names() {
    assert_eq!(ParserKind::from_str("maven"), Ok(ParserKind::Maven));
    assert_eq!(ParserKind::from_str("java"), Ok(ParserKind::Java));
    assert_eq!(ParserKind::from_str("karma-jasmine"), Ok(ParserKind::KarmaJasmine));
    assert_eq!(ParserKind::from_str("cargo"), Ok(ParserKind::Cargo));
    assert_eq!(ParserKind::from_str("typos"), Ok(ParserKind::Cargo));
    assert_eq!(ParserKind::from_str("gradle"), Ok(ParserKind::Gradle));
    assert_eq!(ParserKind::from_str("./gradlew"), Ok(ParserKind::Gradle));
    assert_eq!(ParserKind::from_str("dune"), Ok(ParserKind::Dune));
    assert_eq!(ParserKind::from_str("go"), Ok(ParserKind::Go));
    assert_eq!(ParserKind::from_str("make"), Err(()));
    assert_eq!(ParserKind::from_str(""), Err(()));
}

#[test]
fn validate_guesses_parser_and_input_from_the_command() {
    let mut args = Args { command: Some("cargo build --release".to_string()), ..Default::default() };
    Args::validate(&mut args);
    assert_eq!(args.parser, Some(ParserKind::Cargo));
    assert_eq!(args.input, Some(InputKind::Command));

    let mut args = Args { command: Some("go".to_string()), ..Default::default() };
    Args::validate(&mut args);
    assert_eq!(args.parser, Some(ParserKind::Go));
}

#[test]
fn validate_keeps_what_is_given() {
    let mut args = Args {
        parser: Some(ParserKind::Zig),
        input: Some(InputKind::Tmux),
        command: Some("cargo test".to_string()),
        ..Default::default()
    };
    Args::validate(&mut args);
    assert_eq!(args.parser, Some(ParserKind::Zig));
    assert_eq!(args.input, Some(InputKind::Tmux));
}

#[test]
fn validate_without_command_changes_nothing() {
    let mut args = Args::default();
    Args::validate(&mut args);
    assert_eq!(args.parser, None);
    assert_eq!(args.input, None);
    assert!(args.clear && args.print_input);
}

#[test]
fn validate_unknown_command_leaves_parser_empty() {
    let mut args = Args { command: Some("make all".to_string()), ..Default::default() };
    Args::validate(&mut args);
    assert_eq!(args.parser, None);
    assert_eq!(args.input, Some(InputKind::Command));
}

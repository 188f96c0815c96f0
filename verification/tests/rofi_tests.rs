use rofi::Error;
use rofi::Format;
use rofi::Rofi;
use rofi::Width;

fn options_abcd() -> Vec<String> {
    vec!["a".to_string(), "b".to_string(), "c".to_string(), "d".to_string()]
}

#[test]
fn simple_test() {
    let options = options_abcd();
    let empty_options: Vec<String> = Vec::new();
    match Rofi::new(&options).prompt("choose c".to_string()).run(true, "c\n") {
        Ok(ret) => assert!(ret == "c"),
        _ => assert!(false),
    }
    match Rofi::new(&options).prompt("chose c".to_string()).run_index(true, "2\n") {
        Ok(ret) => assert!(ret == 2),
        _ => assert!(false),
    }
    match Rofi::new(&options)
        .prompt("press escape".to_string())
        .width(Width::Percentage(15))
        .unwrap()
        .run_index(false, "")
    {
        Err(Error::Interrupted) => assert!(true),
        _ => assert!(false),
    }
    match Rofi::new(&options).prompt("Enter something wrong".to_string()).run_index(true, "-1\n") {
        Err(Error::NotFound) => assert!(true),
        _ => assert!(false),
    }
    match Rofi::new(&empty_options)
        .prompt("Enter password".to_string())
        .password()
        .return_format(Format::UserInput)
        .run(true, "password\n")
    {
        Ok(ret) => assert!(ret == "password"),
        _ => assert!(false),
    }
}

#[test]
fn percentage_at_most_100_is_valid() {
    assert!(Width::Percentage(0).check().is_ok());
    assert!(Width::Percentage(50).check().is_ok());
    assert!(Width::Percentage(100).check().is_ok());
    assert!(matches!(Width::Percentage(101).check(), Err(Error::InvalidWidth(_))));
    assert!(matches!(Width::Percentage(150).check(), Err(Error::InvalidWidth(_))));
}

#[test]
fn pixels_above_100_is_valid() {
    assert!(Width::Pixels(101).check().is_ok());
    assert!(Width::Pixels(1920).check().is_ok());
    assert!(matches!(Width::Pixels(100).check(), Err(Error::InvalidWidth(_))));
    assert!(matches!(Width::Pixels(0).check(), Err(Error::InvalidWidth(_))));
}

#[test]
fn unset_and_characters_always_valid() {
    assert!(Width::Unset.check().is_ok());
    assert!(Width::Characters(0).check().is_ok());
    assert!(Width::Characters(7).check().is_ok());
}

#[test]
fn format_protocol_tokens() {
    assert_eq!(Format::Text.as_arg(), "s");
    assert_eq!(Format::StrippedText.as_arg(), "p");
    assert_eq!(Format::UserInput.as_arg(), "f");
    assert_eq!(Format::Index.as_arg(), "i");
}

#[test]
fn failing_exit_is_interrupted_whatever_the_output() {
    let options = options_abcd();
    let r = Rofi::new(&options);
    assert!(matches!(r.run(false, "c\n"), Err(Error::Interrupted)));
    assert!(matches!(r.run(false, ""), Err(Error::Interrupted)));
    let mut ri = Rofi::new(&options);
    assert!(matches!(ri.run_index(false, "2\n"), Err(Error::Interrupted)));
    assert!(matches!(ri.run_index(false, "garbage"), Err(Error::Interrupted)));
}

#[test]
fn empty_output_is_blank() {
    let options = options_abcd();
    let r = Rofi::new(&options);
    assert!(matches!(r.run(true, ""), Err(Error::Blank)));
    assert!(matches!(r.run(true, "\n"), Err(Error::Blank)));
    let mut ri = Rofi::new(&options);
    assert!(matches!(ri.run_index(true, ""), Err(Error::Blank)));
    assert!(matches!(ri.run_index(true, "\n"), Err(Error::Blank)));
}

#[test]
fn index_above_candidate_count_is_not_found() {
    let options = options_abcd();
    let mut r = Rofi::new(&options);
    assert!(matches!(r.run_index(true, "5\n"), Err(Error::NotFound)));
    // The recorded count itself still passes the strict bound.
    assert!(matches!(r.run_index(true, "4\n"), Ok(4)));
    assert!(matches!(r.run_index(true, "-1\n"), Err(Error::NotFound)));
    // The lowest machine integer parses fine and is negative.
    assert!(matches!(r.run_index(true, "-9223372036854775808\n"), Err(Error::NotFound)));
}

#[test]
fn non_numeric_index_output_is_a_parse_error() {
    let options = options_abcd();
    let mut r = Rofi::new(&options);
    assert!(matches!(r.run_index(true, "abc\n"), Err(Error::ParseIntError)));
    assert!(matches!(r.run_index(true, "2x\n"), Err(Error::ParseIntError)));
    assert!(matches!(r.run_index(true, "-\n"), Err(Error::ParseIntError)));
    assert!(matches!(r.run_index(true, "+\n"), Err(Error::ParseIntError)));
    assert!(matches!(r.run_index(true, " 2\n"), Err(Error::ParseIntError)));
    // One above the largest machine integer overflows the parse.
    assert!(matches!(r.run_index(true, "9223372036854775808\n"), Err(Error::ParseIntError)));
    assert!(matches!(r.run_index(true, "-9223372036854775809\n"), Err(Error::ParseIntError)));
}

#[test]
fn index_parse_accepts_signs_and_leading_zeros() {
    let options = options_abcd();
    let mut r = Rofi::new(&options);
    assert!(matches!(r.run_index(true, "+2\n"), Ok(2)));
    assert!(matches!(r.run_index(true, "0002\n"), Ok(2)));
    assert!(matches!(r.run_index(true, "-0\n"), Ok(0)));
    assert!(matches!(r.run_index(true, "0\n"), Ok(0)));
}

#[test]
fn trailing_newline_is_stripped_once() {
    let options = options_abcd();
    let r = Rofi::new(&options);
    match r.run(true, "c\n\n") {
        Ok(ret) => assert_eq!(ret, "c\n"),
        _ => assert!(false),
    }
    match r.run(true, "c") {
        Ok(ret) => assert_eq!(ret, "c"),
        _ => assert!(false),
    }
}

#[test]
fn invalid_width_leaves_prior_configuration() {
    let options = options_abcd();
    let mut r = Rofi::new(&options);
    assert!(r.width(Width::Percentage(50)).is_ok());
    assert!(matches!(r.width(Width::Percentage(150)), Err(Error::InvalidWidth(_))));
    let args = r.command_args();
    let n = args.len();
    assert_eq!(args[n - 2], "-width");
    assert_eq!(args[n - 1], "50");
}

#[test]
fn one_builder_serves_two_runs() {
    let options = options_abcd();
    let r = Rofi::new(&options);
    match r.run(true, "b\n") {
        Ok(ret) => assert_eq!(ret, "b"),
        _ => assert!(false),
    }
    match r.run(true, "d\n") {
        Ok(ret) => assert_eq!(ret, "d"),
        _ => assert!(false),
    }
    let mut ri = Rofi::new(&options);
    assert!(matches!(ri.run_index(true, "1\n"), Ok(1)));
    assert!(matches!(ri.run_index(true, "3\n"), Ok(3)));
}

#[test]
fn command_args_layout() {
    let options = options_abcd();
    let mut r = Rofi::new(&options);
    r.prompt("pick".to_string());
    r.case_sensitive(true);
    r.lines(15);
    assert!(r.width(Width::Pixels(400)).is_ok());
    let args = r.command_args();
    let expected: Vec<String> = vec![
        "-dmenu".to_string(),
        "-p".to_string(),
        "pick".to_string(),
        "-format".to_string(),
        "s".to_string(),
        "-lines".to_string(),
        "15".to_string(),
        "-case-sensitive".to_string(),
        "-width".to_string(),
        "400".to_string(),
    ];
    assert_eq!(args, expected);
}

#[test]
fn command_args_defaults() {
    let options = options_abcd();
    let r = Rofi::new(&options);
    let expected: Vec<String> = vec![
        "-dmenu".to_string(),
        "-format".to_string(),
        "s".to_string(),
        "-lines".to_string(),
        "4".to_string(),
        "-i".to_string(),
    ];
    assert_eq!(r.command_args(), expected);
}

#[test]
fn character_width_is_negated() {
    let options = options_abcd();
    let mut r = Rofi::new(&options);
    assert!(r.width(Width::Characters(25)).is_ok());
    let args = r.command_args();
    let n = args.len();
    assert_eq!(args[n - 2], "-width");
    assert_eq!(args[n - 1], "-25");
}

#[test]
fn theme_with_no_name_is_a_no_op() {
    let options = options_abcd();
    let mut with_none = Rofi::new(&options);
    with_none.theme(None::<String>);
    let plain = Rofi::new(&options);
    assert_eq!(with_none.command_args(), plain.command_args());
    let mut with_theme = Rofi::new(&options);
    with_theme.theme(Some("dark".to_string()));
    let args = with_theme.command_args();
    assert_eq!(args[1], "-theme");
    assert_eq!(args[2], "dark");
}

#[test]
fn repeated_flags_accumulate() {
    let options = options_abcd();
    let mut r = Rofi::new(&options);
    r.pango();
    r.pango();
    let args = r.command_args();
    assert_eq!(args[1], "-markup-rows");
    assert_eq!(args[2], "-markup-rows");
}

#[test]
fn run_index_switches_stored_format() {
    let options = options_abcd();
    let mut r = Rofi::new(&options);
    r.return_format(Format::UserInput);
    let _ = r.run_index(true, "1\n");
    let args = r.command_args();
    assert_eq!(args[1], "-format");
    assert_eq!(args[2], "i");
}

#[test]
fn input_payload_joins_candidates_with_newlines() {
    let options = options_abcd();
    let r = Rofi::new(&options);
    assert_eq!(r.input_payload(), "a\nb\nc\nd\n");
    let empty: Vec<String> = Vec::new();
    let re = Rofi::new(&empty);
    assert_eq!(re.input_payload(), "");
    assert_eq!(re.element_count(), 0);
    assert_eq!(r.element_count(), 4);
}

#[test]
fn decoders_work_standalone() {
    assert!(matches!(rofi::decode_text(true, "hello\n"), Ok(s) if s == "hello"));
    assert!(matches!(rofi::decode_text(false, "hello\n"), Err(Error::Interrupted)));
    assert!(matches!(rofi::decode_index(true, "2\n", 4), Ok(2)));
    assert!(matches!(rofi::decode_index(true, "7\n", 4), Err(Error::NotFound)));
}

//! The declarative construction surface: token-list parsing for the
//! three subcommands and the whole command line.

use twiggy_opt::definitions::{Dominators, Options, Paths, Top};
use twiggy_opt::errors::OptError;
use twiggy_opt::output::{OutputDestination, OutputFormat};

fn tokens(ts: &[&str]) -> Vec<String> {
    ts.iter().map(|t| t.to_string()).collect()
}

#[test]
fn parse_top_full_command() {
    let o = Options::parse(&tokens(&["top", "./bin.wasm", "-n", "3", "--retained"])).unwrap();
    match o {
        Options::Top(t) => {
            assert_eq!(t.input, "./bin.wasm");
            assert_eq!(t.number(), 3);
            assert!(t.retained());
            assert!(!t.retaining_paths());
            assert_eq!(t.output_destination, OutputDestination::Stdout);
            assert_eq!(t.output_format, OutputFormat::Text);
        }
        _ => panic!("expected the top mode"),
    }
}

#[test]
fn parse_paths_positionals_and_depth() {
    let o = Options::parse(&tokens(&["paths", "./bin.wasm", "foo", "bar", "-d", "2"])).unwrap();
    match o {
        Options::Paths(p) => {
            assert_eq!(p.input, "./bin.wasm");
            assert_eq!(p.functions, vec!["foo".to_string(), "bar".to_string()]);
            assert_eq!(p.max_depth(), 2);
            assert_eq!(p.max_paths(), 10);
        }
        _ => panic!("expected the paths mode"),
    }
}

#[test]
fn parse_dominators_flags() {
    let o = Options::parse(&tokens(&[
        "dominators",
        "./bin.wasm",
        "-d",
        "4",
        "-r",
        "100",
        "-o",
        "out.txt",
        "-f",
        "json",
    ]))
    .unwrap();
    match o {
        Options::Dominators(d) => {
            assert_eq!(d.input, "./bin.wasm");
            assert_eq!(d.max_depth(), 4);
            assert_eq!(d.max_rows(), 100);
            assert_eq!(
                d.output_destination,
                OutputDestination::File("out.txt".to_string())
            );
            assert_eq!(d.output_format, OutputFormat::Json);
        }
        _ => panic!("expected the dominators mode"),
    }
}

#[test]
fn parse_top_bare_input_keeps_defaults() {
    let t = Top::parse(&tokens(&["./bin.wasm"])).unwrap();
    assert_eq!(t, {
        let mut want = Top::new();
        want.input = "./bin.wasm".to_string();
        want
    });
}

#[test]
fn parse_dominators_bare_input_keeps_defaults() {
    let d = Dominators::parse(&tokens(&["./bin.wasm"])).unwrap();
    assert_eq!(d.max_depth(), u32::MAX);
    assert_eq!(d.max_rows(), u32::MAX);
    assert_eq!(d.input, "./bin.wasm");
}

#[test]
fn parse_paths_bare_input_keeps_defaults() {
    let p = Paths::parse(&tokens(&["./bin.wasm"])).unwrap();
    assert_eq!(p.input, "./bin.wasm");
    assert!(p.functions.is_empty());
    assert_eq!(p.max_depth(), 10);
    assert_eq!(p.max_paths(), 10);
}

#[test]
fn parse_empty_command_line_fails() {
    assert_eq!(
        Options::parse(&tokens(&[])),
        Err(OptError::MissingRequiredInput)
    );
}

#[test]
fn parse_missing_input_fails() {
    assert_eq!(
        Options::parse(&tokens(&["top"])),
        Err(OptError::MissingRequiredInput)
    );
    assert_eq!(
        Top::parse(&tokens(&["-r"])),
        Err(OptError::MissingRequiredInput)
    );
}

#[test]
fn parse_unknown_subcommand_fails() {
    assert_eq!(
        Options::parse(&tokens(&["garbage", "./bin.wasm"])),
        Err(OptError::MalformedArgument("garbage".to_string()))
    );
}

#[test]
fn parse_unknown_flag_fails() {
    assert_eq!(
        Top::parse(&tokens(&["./bin.wasm", "-x"])),
        Err(OptError::MalformedArgument("-x".to_string()))
    );
}

#[test]
fn parse_flag_without_value_fails() {
    assert_eq!(
        Top::parse(&tokens(&["./bin.wasm", "-n"])),
        Err(OptError::MalformedArgument("-n".to_string()))
    );
    assert_eq!(
        Dominators::parse(&tokens(&["./bin.wasm", "-d"])),
        Err(OptError::MalformedArgument("-d".to_string()))
    );
}

#[test]
fn parse_non_numeric_bound_fails() {
    assert_eq!(
        Top::parse(&tokens(&["./bin.wasm", "-n", "abc"])),
        Err(OptError::MalformedArgument("abc".to_string()))
    );
    assert_eq!(
        Paths::parse(&tokens(&["./bin.wasm", "-d", ""])),
        Err(OptError::MalformedArgument("".to_string()))
    );
}

#[test]
fn parse_bound_at_limit_and_over() {
    let t = Top::parse(&tokens(&["./bin.wasm", "-n", "4294967295"])).unwrap();
    assert_eq!(t.number(), u32::MAX);
    assert_eq!(
        Top::parse(&tokens(&["./bin.wasm", "-n", "4294967296"])),
        Err(OptError::MalformedArgument("4294967296".to_string()))
    );
}

#[test]
fn parse_unrecognized_format_fails() {
    assert_eq!(
        Options::parse(&tokens(&["top", "./bin.wasm", "-f", "bogus"])),
        Err(OptError::UnrecognizedFormat("bogus".to_string()))
    );
}

#[test]
fn parse_long_format_flag() {
    let t = Top::parse(&tokens(&["./bin.wasm", "--format", "json"])).unwrap();
    assert_eq!(t.output_format, OutputFormat::Json);
}

#[test]
fn parse_retaining_paths_forms() {
    let short = Top::parse(&tokens(&["./bin.wasm", "-r"])).unwrap();
    let long = Top::parse(&tokens(&["./bin.wasm", "--retaining-paths"])).unwrap();
    assert!(short.retaining_paths());
    assert!(long.retaining_paths());
}

#[test]
fn parse_destination_flag() {
    let t = Top::parse(&tokens(&["./bin.wasm", "-o", "out.json"])).unwrap();
    assert_eq!(
        t.output_destination,
        OutputDestination::File("out.json".to_string())
    );
    let u = Top::parse(&tokens(&["./bin.wasm", "-o", "-"])).unwrap();
    assert_eq!(u.output_destination, OutputDestination::Stdout);
}

#[test]
fn parse_second_positional_for_top_fails() {
    assert_eq!(
        Top::parse(&tokens(&["./bin.wasm", "extra"])),
        Err(OptError::MalformedArgument("extra".to_string()))
    );
}

#[test]
fn parse_later_flag_replaces_earlier() {
    let t = Top::parse(&tokens(&["./bin.wasm", "-n", "1", "-n", "2"])).unwrap();
    assert_eq!(t.number(), 2);
}

#[test]
fn parse_dash_is_a_valid_positional() {
    let t = Top::parse(&tokens(&["-"])).unwrap();
    assert_eq!(t.input, "-");
}

//! The imperative construction surface: defaults, accessors,
//! mutators, and the leaf parsers for destination and format.

use twiggy_opt::definitions::{Dominators, Paths, Top};
use twiggy_opt::errors::OptError;
use twiggy_opt::output::{OutputDestination, OutputFormat};

#[test]
fn top_defaults_via_accessors() {
    let t = Top::new();
    assert_eq!(t.input, "");
    assert_eq!(t.output_destination, OutputDestination::Stdout);
    assert_eq!(t.output_format, OutputFormat::Text);
    assert_eq!(t.number(), u32::MAX);
    assert!(!t.retaining_paths());
    assert!(!t.retained());
}

#[test]
fn dominators_defaults_via_accessors() {
    let d = Dominators::new();
    assert_eq!(d.input, "");
    assert_eq!(d.output_destination, OutputDestination::Stdout);
    assert_eq!(d.output_format, OutputFormat::Text);
    assert_eq!(d.max_depth(), u32::MAX);
    assert_eq!(d.max_rows(), u32::MAX);
}

#[test]
fn paths_defaults_via_accessors() {
    let p = Paths::new();
    assert_eq!(p.input, "");
    assert_eq!(p.output_destination, OutputDestination::Stdout);
    assert_eq!(p.output_format, OutputFormat::Text);
    assert!(p.functions.is_empty());
    assert_eq!(p.max_depth(), 10);
    assert_eq!(p.max_paths(), 10);
}

#[test]
fn top_set_number_resolves_to_value() {
    let mut t = Top::new();
    assert_eq!(t.number(), u32::MAX);
    t.set_number(5);
    assert_eq!(t.number(), 5);
}

#[test]
fn top_set_switches() {
    let mut t = Top::new();
    t.set_retaining_paths(true);
    assert!(t.retaining_paths());
    assert!(!t.retained());
    t.set_retained(true);
    assert!(t.retained());
    t.set_retaining_paths(false);
    assert!(!t.retaining_paths());
    assert!(t.retained());
}

#[test]
fn dominators_set_bounds() {
    let mut d = Dominators::new();
    d.set_max_depth(3);
    d.set_max_rows(7);
    assert_eq!(d.max_depth(), 3);
    assert_eq!(d.max_rows(), 7);
}

#[test]
fn paths_set_bounds() {
    let mut p = Paths::new();
    p.set_max_depth(2);
    p.set_max_paths(4);
    assert_eq!(p.max_depth(), 2);
    assert_eq!(p.max_paths(), 4);
}

#[test]
fn add_function_appends_in_order() {
    let mut p = Paths::new();
    p.add_function("a".to_string());
    p.add_function("b".to_string());
    assert_eq!(p.functions, vec!["a".to_string(), "b".to_string()]);
}

#[test]
fn destination_parse_dash_is_stdout() {
    assert_eq!(OutputDestination::parse("-"), OutputDestination::Stdout);
}

#[test]
fn destination_parse_other_is_file() {
    assert_eq!(
        OutputDestination::parse("out.json"),
        OutputDestination::File("out.json".to_string())
    );
}

#[test]
fn destination_default_is_stdout() {
    assert_eq!(OutputDestination::default(), OutputDestination::Stdout);
}

#[test]
fn format_parse_recognized() {
    assert_eq!(OutputFormat::parse("text"), Ok(OutputFormat::Text));
    assert_eq!(OutputFormat::parse("json"), Ok(OutputFormat::Json));
}

#[test]
fn format_parse_unrecognized_fails() {
    assert_eq!(
        OutputFormat::parse("bogus"),
        Err(OptError::UnrecognizedFormat("bogus".to_string()))
    );
}

#[test]
fn format_parse_is_case_sensitive() {
    assert_eq!(
        OutputFormat::parse("Text"),
        Err(OptError::UnrecognizedFormat("Text".to_string()))
    );
}

#[test]
fn format_default_is_text() {
    assert_eq!(OutputFormat::default(), OutputFormat::Text);
}

use std::collections::HashSet;

use rangler::stream::ReadTally;
use rangler::{Pipeline, PipelineStep};
use regex::Regex;

fn assert_steps(pipeline: &Pipeline, expected_steps: &[PipelineStep]) -> Result<(), String> {
    assert_eq!(pipeline.steps().len(), expected_steps.len());

    for (index, actual_step) in pipeline.steps().iter().enumerate() {
        assert_eq!(actual_step, &expected_steps[index]);
    }

    Ok(())
}

#[test]
fn build_pipeline_rejects_zero_commands() {
    let tokens: Vec<&str> = vec![];

    let pipeline = Pipeline::build_pipeline(&tokens);

    assert!(pipeline.is_err());
    assert_eq!(pipeline.err().unwrap(), "No commands specified");
}

#[test]
fn build_pipeline_parses_filter_command() -> Result<(), String> {
    let tokens: Vec<&str> = vec!["filter", ".+"];

    let pipeline = Pipeline::build_pipeline(&tokens)?;

    assert_steps(&pipeline, &[PipelineStep::Filter(Regex::new(".+").unwrap())])
}

#[test]
fn build_pipeline_rejects_invalid_regex() {
    let tokens: Vec<&str> = vec!["filter", r"\"];

    let pipeline = Pipeline::build_pipeline(&tokens);

    assert!(pipeline.is_err());
    assert_eq!(pipeline.err().unwrap(), "Invalid regular expression");
}

#[test]
fn build_pipeline_parses_append_command() -> Result<(), String> {
    let tokens: Vec<&str> = vec!["append", "foo"];

    let pipeline = Pipeline::build_pipeline(&tokens)?;

    assert_steps(&pipeline, &[PipelineStep::Append("foo".to_string())])
}

#[test]
fn build_pipeline_rejects_missing_suffix() {
    let tokens: Vec<&str> = vec!["append"];

    let pipeline = Pipeline::build_pipeline(&tokens);

    assert!(pipeline.is_err());
    assert_eq!(pipeline.err().unwrap(), "Missing suffix");
}

#[test]
fn build_pipeline_parses_prepend_command() -> Result<(), String> {
    let tokens: Vec<&str> = vec!["prepend", "foo"];

    let pipeline = Pipeline::build_pipeline(&tokens)?;

    assert_steps(&pipeline, &[PipelineStep::Prepend("foo".to_string())])
}

#[test]
fn build_pipeline_rejects_missing_prefix() {
    let tokens: Vec<&str> = vec!["prepend"];

    let pipeline = Pipeline::build_pipeline(&tokens);

    assert!(pipeline.is_err());
    assert_eq!(pipeline.err().unwrap(), "Missing prefix");
}

#[test]
fn build_pipeline_parses_dedupe_command() -> Result<(), String> {
    let tokens: Vec<&str> = vec!["dedupe"];

    let pipeline = Pipeline::build_pipeline(&tokens)?;

    assert_steps(&pipeline, &[PipelineStep::Dedupe(HashSet::new(), 0)])
}

#[test]
fn build_pipeline_parses_lower_command() -> Result<(), String> {
    let tokens: Vec<&str> = vec!["lower"];

    let pipeline = Pipeline::build_pipeline(&tokens)?;

    assert_steps(&pipeline, &[PipelineStep::Lower])
}

#[test]
fn build_pipeline_parses_upper_command() -> Result<(), String> {
    let tokens: Vec<&str> = vec!["upper"];

    let pipeline = Pipeline::build_pipeline(&tokens)?;

    assert_steps(&pipeline, &[PipelineStep::Upper])
}

#[test]
fn build_pipeline_parses_trim_command() -> Result<(), String> {
    let tokens: Vec<&str> = vec!["trim"];

    let pipeline = Pipeline::build_pipeline(&tokens)?;

    assert_steps(&pipeline, &[PipelineStep::Trim])
}

#[test]
fn build_pipeline_parses_multiple_commands() -> Result<(), String> {
    let tokens: Vec<&str> = vec!["lower", "upper", "filter", ".+", "prepend", "hello"];

    let pipeline = Pipeline::build_pipeline(&tokens)?;

    assert_steps(
        &pipeline,
        &[
            PipelineStep::Lower,
            PipelineStep::Upper,
            PipelineStep::Filter(Regex::new(".+").unwrap()),
            PipelineStep::Prepend("hello".to_string()),
        ],
    )
}

#[test]
fn apply_dedupe_hides_duplicates() {
    let mut pipeline = Pipeline::build_pipeline(&["lower", "dedupe"]).unwrap();

    assert_eq!(pipeline.apply("fOo"), Some("foo".to_string()));
    assert_eq!(pipeline.apply("fOo"), None);
}

#[test]
fn build_pipeline_rejects_missing_pattern() {
    let pipeline = Pipeline::build_pipeline(&["filter"]);
    assert_eq!(pipeline.err().unwrap(), "Missing regular expression");
}

#[test]
fn build_pipeline_rejects_unknown_keyword() {
    let pipeline = Pipeline::build_pipeline(&["frobnicate"]);
    assert_eq!(pipeline.err().unwrap(), "Invalid command specified");
}

#[test]
fn build_pipeline_reports_first_error() {
    let pipeline = Pipeline::build_pipeline(&["lower", "frobnicate", "append"]);
    assert_eq!(pipeline.err().unwrap(), "Invalid command specified");
    let pipeline = Pipeline::build_pipeline(&["append", "x", "filter", "(", "prepend"]);
    assert_eq!(pipeline.err().unwrap(), "Invalid regular expression");
}

#[test]
fn build_pipeline_keywords_ignore_case() -> Result<(), String> {
    let pipeline = Pipeline::build_pipeline(&["LOWER", "Filter", "A+", "DeDuPe", "APPEND", "Tail"])?;
    assert_steps(
        &pipeline,
        &[
            PipelineStep::Lower,
            PipelineStep::Filter(Regex::new("A+").unwrap()),
            PipelineStep::Dedupe(HashSet::new(), 0),
            PipelineStep::Append("Tail".to_string()),
        ],
    )
}

#[test]
fn build_pipeline_takes_keyword_as_argument() -> Result<(), String> {
    let pipeline = Pipeline::build_pipeline(&["append", "trim", "trim"])?;
    assert_steps(&pipeline, &[PipelineStep::Append("trim".to_string()), PipelineStep::Trim])
}

#[test]
fn steps_compare_by_text() {
    assert_ne!(
        PipelineStep::Filter(Regex::new("a").unwrap()),
        PipelineStep::Filter(Regex::new("b").unwrap())
    );
    assert_ne!(PipelineStep::Append("a".to_string()), PipelineStep::Prepend("a".to_string()));
    assert_ne!(PipelineStep::Lower, PipelineStep::Upper);
}

#[test]
fn apply_filter_drops_empty_line() {
    let mut pipeline = Pipeline::build_pipeline(&["filter", ".+"]).unwrap();
    assert_eq!(pipeline.apply(""), None);
    assert_eq!(pipeline.apply("x"), Some("x".to_string()));
}

#[test]
fn apply_filter_matches_anywhere() {
    let mut pipeline = Pipeline::build_pipeline(&["filter", "b+"]).unwrap();
    assert_eq!(pipeline.apply("abba"), Some("abba".to_string()));
    assert_eq!(pipeline.apply("acca"), None);
}

#[test]
fn apply_trim_strips_both_ends() {
    let mut pipeline = Pipeline::build_pipeline(&["trim"]).unwrap();
    assert_eq!(pipeline.apply("  hi  "), Some("hi".to_string()));
    assert_eq!(pipeline.apply("\t a b \n"), Some("a b".to_string()));
}

#[test]
fn apply_trim_strips_unicode_white_space() {
    let mut pipeline = Pipeline::build_pipeline(&["trim"]).unwrap();
    assert_eq!(pipeline.apply("\u{3000}\u{a0}x y\u{2029}\u{85}"), Some("x y".to_string()));
    assert_eq!(pipeline.apply("\u{200b}x"), Some("\u{200b}x".to_string()));
    assert_eq!(pipeline.apply(" \t "), Some("".to_string()));
}

#[test]
fn apply_prepend_and_append_in_order() {
    let mut pipeline = Pipeline::build_pipeline(&["prepend", "A", "append", "B"]).unwrap();
    assert_eq!(pipeline.apply("x"), Some("AxB".to_string()));
    let mut pipeline = Pipeline::build_pipeline(&["append", "B", "prepend", "A", "upper"]).unwrap();
    assert_eq!(pipeline.apply("x"), Some("AXB".to_string()));
}

#[test]
fn apply_upper_maps_case() {
    let mut pipeline = Pipeline::build_pipeline(&["upper"]).unwrap();
    assert_eq!(pipeline.apply("abc Straße"), Some("ABC STRASSE".to_string()));
}

#[test]
fn apply_lower_twice_is_lower_once() {
    for line in ["fOo", "", "ÀÉÎ", "İstanbul", "ΟΔΟΣ", "already lower", "MiXeD 123"] {
        let mut once = Pipeline::build_pipeline(&["lower"]).unwrap();
        let mut twice = Pipeline::build_pipeline(&["lower", "lower"]).unwrap();
        let first = once.apply(line).unwrap();
        assert_eq!(once.apply(&first), Some(first.clone()));
        assert_eq!(twice.apply(line), Some(first));
    }
}

#[test]
fn apply_empty_pipeline_is_impossible() {
    assert!(Pipeline::build_pipeline(&Vec::<&str>::new()).is_err());
}

#[test]
fn dedupe_memory_counts_surviving_bytes() {
    let mut pipeline = Pipeline::build_pipeline(&["dedupe"]).unwrap();
    assert_eq!(pipeline.get_memory(), 0);
    assert_eq!(pipeline.apply("ab"), Some("ab".to_string()));
    assert_eq!(pipeline.get_memory(), 2);
    assert_eq!(pipeline.apply("cde"), Some("cde".to_string()));
    assert_eq!(pipeline.get_memory(), 5);
    assert_eq!(pipeline.apply("ab"), None);
    assert_eq!(pipeline.get_memory(), 5);
    assert_eq!(pipeline.apply("é"), Some("é".to_string()));
    assert_eq!(pipeline.get_memory(), 7);
}

#[test]
fn dedupe_memory_sums_all_dedupe_steps() {
    let mut pipeline = Pipeline::build_pipeline(&["dedupe", "append", "xy", "dedupe"]).unwrap();
    assert_eq!(pipeline.apply("a"), Some("axy".to_string()));
    assert_eq!(pipeline.get_memory(), 4);
}

#[test]
fn memory_is_zero_without_dedupe() {
    let mut pipeline = Pipeline::build_pipeline(&["lower", "trim"]).unwrap();
    pipeline.apply("Some Line");
    assert_eq!(pipeline.get_memory(), 0);
}

#[test]
fn earlier_dedupe_keeps_line_dropped_later() {
    let mut pipeline = Pipeline::build_pipeline(&["dedupe", "filter", "z"]).unwrap();
    assert_eq!(pipeline.apply("a"), None);
    assert_eq!(pipeline.get_memory(), 1);
    let mut pipeline = Pipeline::build_pipeline(&["filter", "z", "dedupe"]).unwrap();
    assert_eq!(pipeline.apply("a"), None);
    assert_eq!(pipeline.get_memory(), 0);
}

#[test]
fn stream_lower_dedupe_end_to_end() {
    let mut pipeline = Pipeline::build_pipeline(&["lower", "dedupe"]).unwrap();
    let input: &[u8] = b"Foo\nfoo\nbar\n";
    let mut output: Vec<u8> = Vec::new();
    for record in input.split_inclusive(|b| *b == b'\n') {
        if let Some(bytes) = pipeline.process_record(record) {
            output.extend_from_slice(&bytes);
        }
    }
    assert_eq!(output, b"foo\nbar\n".to_vec());
}

#[test]
fn stream_skips_invalid_text() {
    let mut pipeline = Pipeline::build_pipeline(&["dedupe"]).unwrap();
    assert_eq!(pipeline.process_record(&[0xff, 0xfe, b'\n']), None);
    assert_eq!(pipeline.get_memory(), 0);
    assert_eq!(pipeline.process_record(b"ok\n"), Some(b"ok\n".to_vec()));
}

#[test]
fn stream_last_record_without_newline() {
    let mut pipeline = Pipeline::build_pipeline(&["upper"]).unwrap();
    assert_eq!(pipeline.process_record(b"bar"), Some(b"BAR\n".to_vec()));
    assert_eq!(pipeline.process_record(b"\n"), Some(b"\n".to_vec()));
}

#[test]
fn tally_reports_after_interval() {
    let mut tally = ReadTally::new();
    assert!(!tally.note_read(256_000));
    assert!(tally.note_read(1));
    assert_eq!(tally.total(), 256_001);
    assert!(!tally.note_read(10));
    assert!(tally.note_read(256_000));
}

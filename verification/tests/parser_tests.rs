use gitlog::parser::parse_log_output;
use gitlog::parser::split_graph_and_data;

#[test]
fn test_parse_log_output() {
    let sample = "* abc123def456abc123def456abc123def456abc123\x1fabc123d\x1ffeat: add login\x1fJohn\x1f2 hours ago\x1f2026-02-10T10:00:00+05:30\x1f\x1fHEAD -> main\n";
    let entries = parse_log_output(sample);
    assert_eq!(entries.len(), 1);
    assert_eq!(entries[0].short_hash, "abc123d");
    assert_eq!(entries[0].message, "feat: add login");
    assert_eq!(entries[0].author, "John");
    assert_eq!(entries[0].refs, "HEAD -> main");
    assert_eq!(entries[0].graph, "* ");
}

#[test]
fn test_split_graph_and_data() {
    let (g, d) = split_graph_and_data("* | abc123");
    assert_eq!(g, "* | ");
    assert_eq!(d, "abc123");
}

#[test]
fn split_handles_line_without_graph() {
    let (g, d) = split_graph_and_data("abc123");
    assert_eq!(g, "");
    assert_eq!(d, "abc123");
}

#[test]
fn split_handles_graph_only_line() {
    let (g, d) = split_graph_and_data("|\\ _ /");
    assert_eq!(g, "|\\ _ /");
    assert_eq!(d, "");
}

#[test]
fn graph_only_lines_yield_no_record() {
    let sample = "* \n|\\\n| |\n";
    let entries = parse_log_output(sample);
    assert_eq!(entries.len(), 0);
}

#[test]
fn short_data_yields_no_record() {
    // Seven fields only: one delimiter short of a record.
    let sample = "* aaaa\x1fa\x1fmsg\x1fme\x1fnow\x1f2026-01-01T00:00:00+00:00\x1f\n";
    let entries = parse_log_output(sample);
    assert_eq!(entries.len(), 0);
}

#[test]
fn empty_parent_field_gives_root_commit() {
    let sample = "aaaa\x1fa\x1fmsg\x1fme\x1fnow\x1f2026-01-01T00:00:00+00:00\x1f\x1f\n";
    let entries = parse_log_output(sample);
    assert_eq!(entries.len(), 1);
    assert!(entries[0].parents.is_empty());
}

#[test]
fn parent_field_keeps_order() {
    let sample = "aaaa\x1fa\x1fmerge\x1fme\x1fnow\x1f2026-01-01T00:00:00+00:00\x1fa b\x1f\n";
    let entries = parse_log_output(sample);
    assert_eq!(entries.len(), 1);
    assert_eq!(entries[0].parents, vec!["a".to_string(), "b".to_string()]);
}

#[test]
fn full_record_maps_all_fields() {
    let sample =
        "| * fullhash\x1fshort\x1fsubject\x1fAda\x1fyesterday\x1f2026-02-09T08:00:00+01:00\x1fp1 p2 p3\x1ftag: v1.0\n";
    let entries = parse_log_output(sample);
    assert_eq!(entries.len(), 1);
    let e = &entries[0];
    assert_eq!(e.hash, "fullhash");
    assert_eq!(e.short_hash, "short");
    assert_eq!(e.message, "subject");
    assert_eq!(e.author, "Ada");
    assert_eq!(e.date, "yesterday");
    assert_eq!(e.date_iso, "2026-02-09T08:00:00+01:00");
    assert_eq!(e.parents, vec!["p1".to_string(), "p2".to_string(), "p3".to_string()]);
    assert_eq!(e.refs, "tag: v1.0");
    assert_eq!(e.graph, "| * ");
}

#[test]
fn malformed_lines_are_dropped_silently() {
    let sample = "* good1\x1fg1\x1ffirst\x1fme\x1fnow\x1fiso\x1f\x1f\n|\\\nbroken line with no delimiters\n* good2\x1fg2\x1fsecond\x1fme\x1fnow\x1fiso\x1fp\x1fmain\n";
    let entries = parse_log_output(sample);
    assert_eq!(entries.len(), 2);
    assert_eq!(entries[0].message, "first");
    assert_eq!(entries[1].message, "second");
}

#[test]
fn carriage_returns_are_stripped_from_line_ends() {
    let sample = "aaaa\x1fa\x1fmsg\x1fme\x1fnow\x1fiso\x1f\x1frefs\r\n";
    let entries = parse_log_output(sample);
    assert_eq!(entries.len(), 1);
    assert_eq!(entries[0].refs, "refs");
}

#[test]
fn missing_final_newline_is_tolerated() {
    let sample = "aaaa\x1fa\x1fmsg\x1fme\x1fnow\x1fiso\x1f\x1frefs";
    let entries = parse_log_output(sample);
    assert_eq!(entries.len(), 1);
    assert_eq!(entries[0].hash, "aaaa");
}

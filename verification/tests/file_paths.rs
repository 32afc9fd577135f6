use hypercool::file_paths::parse_file_paths;

#[test]
fn test_parse_file_paths() {
    let input = "0|1|2|3|file1.txt|5|6|file2.txt";
    let paths = parse_file_paths(input);
    assert_eq!(paths, vec!["file1.txt", "file2.txt"]);

    let input_empty = "";
    let paths_empty = parse_file_paths(input_empty);
    assert!(paths_empty.is_empty());
}

#[test]
fn record_without_a_fifth_field_has_no_names() {
    assert!(parse_file_paths("0|1|2|3").is_empty());
    assert!(parse_file_paths("only").is_empty());
    assert!(parse_file_paths("|||").is_empty());
}

#[test]
fn names_stand_at_every_third_field_from_the_fifth() {
    let input = "a|b|c|d|one|e|f|two|g|h|three|i";
    assert_eq!(parse_file_paths(input), vec!["one", "two", "three"]);
    assert_eq!(parse_file_paths("a|b|c|d|one|e|f"), vec!["one"]);
    assert_eq!(parse_file_paths("a|b|c|d|one"), vec!["one"]);
}

#[test]
fn names_are_trimmed_and_empty_ones_skipped() {
    assert_eq!(parse_file_paths("0|1|2|3|  a.txt \t|5|6|   |8|9|b.txt"), vec!["a.txt", "b.txt"]);
    assert!(parse_file_paths("0|1|2|3||5|6|").is_empty());
    assert_eq!(parse_file_paths("0|1|2|3|\u{3000}보고서.hwp\u{a0}"), vec!["보고서.hwp"]);
}

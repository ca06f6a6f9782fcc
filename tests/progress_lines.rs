use jara::progress::{classify_line, parse_percent, split_words, LineKind};

fn progress_of(line: &str) -> (u32, String, String) {
    match classify_line(line) {
        LineKind::Progress { percent_centi, speed, eta } => (percent_centi, speed, eta),
        _ => panic!("not a progress line: {}", line),
    }
}

#[test]
fn progress_line_is_parsed() {
    let (p, speed, eta) = progress_of("[download]  45.3% of   10.00MiB at    1.23MiB/s ETA 00:05");
    assert_eq!(p, 4530);
    assert_eq!(speed, "1.23MiB/s");
    assert_eq!(eta, "00:05");
}

#[test]
fn progress_line_with_approximate_size() {
    let (p, speed, eta) = progress_of("[download]   7.25% of ~ 120.50MiB at  2.00MiB/s ETA 01:02 (frag 3/40)");
    assert_eq!(p, 725);
    assert_eq!(speed, "2.00MiB/s");
    assert_eq!(eta, "01:02");
}

#[test]
fn full_progress_line() {
    let (p, _, _) = progress_of("[download] 100% of 5.00MiB at 3.00MiB/s ETA 00:00");
    assert_eq!(p, 10000);
}

#[test]
fn progress_stays_within_bounds() {
    for line in [
        "[download] 0.0% of 1MiB at 1KiB/s ETA 10:00",
        "[download] 99.99% of 1MiB at 1KiB/s ETA 00:01",
        "[download] 100.0% of 1MiB at 1KiB/s ETA 00:00",
        "[download] 250.0% of 1MiB at 1KiB/s ETA 00:00",
    ] {
        let (p, _, _) = progress_of(line);
        assert!(p <= 10000);
    }
}

#[test]
fn non_numeric_percentage_reads_as_zero() {
    let (p, speed, eta) = progress_of("[download] abc% of 10.00MiB at 1.00MiB/s ETA 00:10");
    assert_eq!(p, 0);
    assert_eq!(speed, "1.00MiB/s");
    assert_eq!(eta, "00:10");
}

#[test]
fn truncated_percentage_reads_as_zero() {
    let (p, _, _) = progress_of("[download] % of 10.00MiB at 1.00MiB/s ETA 00:10");
    assert_eq!(p, 0);
    let (q, _, _) = progress_of("[download] .5% of 10.00MiB at 1.00MiB/s ETA 00:10");
    assert_eq!(q, 0);
}

#[test]
fn percentage_above_full_reads_as_zero() {
    let (p, _, _) = progress_of("[download] 150.0% of 10.00MiB at 1.00MiB/s ETA 00:10");
    assert_eq!(p, 0);
}

#[test]
fn percent_field_values() {
    let f = |s: &str| parse_percent(&s.chars().collect::<Vec<char>>());
    assert_eq!(f("45"), 4500);
    assert_eq!(f("45."), 4500);
    assert_eq!(f("45.6"), 4560);
    assert_eq!(f("45.678"), 4567);
    assert_eq!(f("0045.5"), 4550);
    assert_eq!(f("100"), 10000);
    assert_eq!(f("100.01"), 0);
    assert_eq!(f("12a"), 0);
    assert_eq!(f(""), 0);
    assert_eq!(f("99999999999999999999"), 0);
}

#[test]
fn destination_line_names_the_file() {
    match classify_line("[download] Destination: movie.mp4") {
        LineKind::Destination { filename } => assert_eq!(filename, "movie.mp4"),
        _ => panic!("expected a destination"),
    }
    match classify_line("[download] Destination: /tmp/My Video [x].webm") {
        LineKind::Destination { filename } => assert_eq!(filename, "/tmp/My Video [x].webm"),
        _ => panic!("expected a destination"),
    }
}

#[test]
fn empty_destination_is_no_destination() {
    assert!(matches!(classify_line("[download] Destination: "), LineKind::Other));
}

#[test]
fn post_processing_lines() {
    assert!(matches!(
        classify_line("[Merger] Merging formats into \"movie.mkv\""),
        LineKind::Processing
    ));
    assert!(matches!(
        classify_line("[ExtractAudio] Destination: song.mp3"),
        LineKind::Processing
    ));
}

#[test]
fn other_lines_give_nothing() {
    for line in [
        "",
        "[youtube] abc: Downloading webpage",
        "WARNING: something odd",
        "[download] 45.3% of 10.00MiB",
        "\u{0}\u{1}binary noise",
    ] {
        assert!(matches!(classify_line(line), LineKind::Other));
    }
}

#[test]
fn words_are_maximal_non_space_runs() {
    for line in [
        "",
        "   ",
        "a",
        "  [download]\t 45.3%  of\r10MiB ",
        "x\u{A0}y\u{3000}z\u{2003}w",
        "one\u{85}two\u{2029}three",
    ] {
        let expected: Vec<String> = line.split_whitespace().map(String::from).collect();
        assert_eq!(split_words(line), expected);
    }
    assert_eq!(split_words(" ab  c "), vec!["ab", "c"]);
}

#[test]
fn progress_line_with_tabs_and_wide_spaces() {
    let (p, speed, eta) = progress_of("[download]\t12.0%\u{3000}of 3MiB at 1MiB/s ETA 00:02");
    assert_eq!(p, 1200);
    assert_eq!(speed, "1MiB/s");
    assert_eq!(eta, "00:02");
}

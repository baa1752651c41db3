use catr::{get_args, run, CatError, Config, Source, Transcript};

fn strings(items: &[&str]) -> Vec<String> {
    items.iter().map(|s| s.to_string()).collect()
}

fn config(files: &[&str], number_lines: bool, number_nonblank_lines: bool) -> Config {
    get_args(strings(files), number_lines, number_nonblank_lines).unwrap()
}

fn readable(lines: &[&str]) -> Source {
    Source::Readable { lines: strings(lines), failure: None }
}

fn unopenable(cause: &str) -> Source {
    Source::Unopenable { cause: cause.to_string() }
}

fn broken(lines: &[&str], cause: &str) -> Source {
    Source::Readable { lines: strings(lines), failure: Some(cause.to_string()) }
}

fn ended_well(stdout: &[&str], stderr: &[&str]) -> Transcript {
    Transcript { stdout: strings(stdout), stderr: strings(stderr), outcome: Ok(()) }
}

#[test]
fn hello_world_without_flags() {
    let t = run(config(&["in.txt"], false, false), &vec![readable(&["hello", "", "world"])]);
    assert_eq!(t, ended_well(&["hello", "", "world"], &[]));
}

#[test]
fn hello_world_with_all_lines_numbered() {
    let t = run(config(&["in.txt"], true, false), &vec![readable(&["hello", "", "world"])]);
    assert_eq!(t, ended_well(&["     1\thello", "     2\t", "     3\tworld"], &[]));
}

#[test]
fn hello_world_with_nonblank_lines_numbered() {
    let t = run(config(&["in.txt"], false, true), &vec![readable(&["hello", "", "world"])]);
    assert_eq!(t, ended_well(&["     1\thello", "", "     2\tworld"], &[]));
}

#[test]
fn missing_file_before_a_real_one() {
    let inputs = vec![unopenable("No such file or directory (os error 2)"), readable(&["a"])];
    let t = run(config(&["missing.txt", "real.txt"], false, false), &inputs);
    assert_eq!(t.stdout, strings(&["a"]));
    assert_eq!(t.stderr.len(), 1);
    assert!(t.stderr[0].contains("missing.txt"));
    assert_eq!(
        t.stderr[0],
        "Failed to open missing.txt: No such file or directory (os error 2)"
    );
    assert_eq!(t.outcome, Ok(()));
}

#[test]
fn plain_output_is_the_input() {
    let lines = ["  indented", "", "", "\ttab", "last line without newline", "ünïcödé"];
    let t = run(config(&["x"], false, false), &vec![readable(&lines)]);
    assert_eq!(t, ended_well(&lines, &[]));
}

#[test]
fn every_line_gets_its_ordinal() {
    let lines: Vec<String> = (0..1200).map(|i| if i % 7 == 0 { String::new() } else { format!("l{}", i) }).collect();
    let input = Source::Readable { lines: lines.clone(), failure: None };
    let t = run(config(&["x"], true, false), &vec![input]);
    assert_eq!(t.stdout.len(), lines.len());
    for (i, line) in lines.iter().enumerate() {
        assert_eq!(t.stdout[i], format!("{:>6}\t{}", i + 1, line));
    }
    assert_eq!(t.stdout[0], "     1\t");
    assert_eq!(t.stdout[1199], "  1200\tl1199");
}

#[test]
fn blank_lines_use_no_number() {
    let lines = ["", "", "a", "", "", "", "b", "c", ""];
    let t = run(config(&["x"], false, true), &vec![readable(&lines)]);
    assert_eq!(
        t,
        ended_well(&["", "", "     1\ta", "", "", "", "     2\tb", "     3\tc", ""], &[])
    );
}

#[test]
fn a_line_of_spaces_is_not_blank() {
    let t = run(config(&["x"], false, true), &vec![readable(&[" ", "", "\t"])]);
    assert_eq!(t, ended_well(&["     1\t ", "", "     2\t\t"], &[]));
}

#[test]
fn the_counter_starts_anew_with_each_input() {
    let inputs = vec![readable(&["a", "b"]), readable(&[]), readable(&["c", "", "d"])];
    let all = run(config(&["1", "2", "3"], true, false), &inputs);
    assert_eq!(
        all,
        ended_well(&["     1\ta", "     2\tb", "     1\tc", "     2\t", "     3\td"], &[])
    );
    let nonblank = run(config(&["1", "2", "3"], false, true), &inputs);
    assert_eq!(
        nonblank,
        ended_well(&["     1\ta", "     2\tb", "     1\tc", "", "     2\td"], &[])
    );
}

#[test]
fn an_empty_input_gives_nothing() {
    let t = run(config(&[], true, false), &vec![readable(&[])]);
    assert_eq!(t, ended_well(&[], &[]));
}

#[test]
fn an_unopenable_input_among_good_ones_is_skipped() {
    let inputs = vec![
        readable(&["a1", "a2"]),
        unopenable("Permission denied (os error 13)"),
        readable(&["c1"]),
        readable(&["d1", "", "d3"]),
    ];
    let t = run(config(&["a", "secret", "c", "d"], true, false), &inputs);
    assert_eq!(
        t,
        ended_well(
            &["     1\ta1", "     2\ta2", "     1\tc1", "     1\td1", "     2\t", "     3\td3"],
            &["Failed to open secret: Permission denied (os error 13)"],
        )
    );
    let without = vec![readable(&["a1", "a2"]), readable(&["c1"]), readable(&["d1", "", "d3"])];
    let u = run(config(&["a", "c", "d"], true, false), &without);
    assert_eq!(u.stdout, t.stdout);
    assert!(u.stderr.is_empty());
}

#[test]
fn each_unopenable_input_is_reported_once_and_in_order() {
    let inputs = vec![unopenable("x"), unopenable("y"), readable(&["z"]), unopenable("w")];
    let t = run(config(&["1", "2", "3", "4"], false, false), &inputs);
    assert_eq!(
        t,
        ended_well(&["z"], &["Failed to open 1: x", "Failed to open 2: y", "Failed to open 4: w"])
    );
}

#[test]
fn a_read_failure_ends_the_run() {
    let inputs = vec![
        readable(&["a"]),
        unopenable("gone"),
        broken(&["b1", "b2"], "stream did not contain valid UTF-8"),
        readable(&["never"]),
        unopenable("never either"),
    ];
    let t = run(config(&["1", "2", "3", "4", "5"], true, false), &inputs);
    assert_eq!(t.stdout, strings(&["     1\ta", "     1\tb1", "     2\tb2"]));
    assert_eq!(t.stderr, strings(&["Failed to open 2: gone"]));
    assert_eq!(
        t.outcome,
        Err(CatError::Read { cause: "stream did not contain valid UTF-8".to_string() })
    );
}

#[test]
fn a_read_failure_on_the_first_line_prints_nothing_of_that_input() {
    let inputs = vec![broken(&[], "bad bytes"), readable(&["x"])];
    let t = run(config(&["1", "2"], false, false), &inputs);
    assert!(t.stdout.is_empty());
    assert!(t.stderr.is_empty());
    assert_eq!(t.outcome, Err(CatError::Read { cause: "bad bytes".to_string() }));
}

#[test]
fn the_same_input_named_twice_is_read_twice() {
    let inputs = vec![readable(&["a"]), readable(&["a"])];
    let t = run(config(&["f", "f"], true, false), &inputs);
    assert_eq!(t, ended_well(&["     1\ta", "     1\ta"], &[]));
}

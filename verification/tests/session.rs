use catr::{get_args, CatError, Request, Session};

fn session(files: &[&str], number_lines: bool, number_nonblank_lines: bool) -> Session {
    let files: Vec<String> = files.iter().map(|s| s.to_string()).collect();
    Session::new(get_args(files, number_lines, number_nonblank_lines).unwrap())
}

#[test]
fn a_dash_asks_for_standard_input() {
    let s = session(&["-"], false, false);
    assert_eq!(s.request(), Request::OpenStdin);
    assert_eq!(s.current_file(), "-");
}

#[test]
fn no_input_asks_for_standard_input() {
    let s = session(&[], false, false);
    assert_eq!(s.request(), Request::OpenStdin);
}

#[test]
fn a_name_asks_for_that_file() {
    let s = session(&["--", "-x", "a-"], false, false);
    assert_eq!(s.request(), Request::OpenFile);
    assert_eq!(s.current_file(), "--");
}

#[test]
fn the_steps_of_a_run_over_two_inputs() {
    let mut s = session(&["-", "notes.txt"], false, true);
    assert_eq!(s.request(), Request::OpenStdin);
    s.opened();
    assert_eq!(s.request(), Request::ReadLine);
    assert_eq!(s.counter(), 0);
    assert_eq!(s.line("one"), "     1\tone");
    assert_eq!(s.counter(), 1);
    assert_eq!(s.request(), Request::ReadLine);
    assert_eq!(s.line(""), "");
    assert_eq!(s.counter(), 1);
    assert_eq!(s.line("two"), "     2\ttwo");
    assert_eq!(s.counter(), 2);
    s.end_of_input();
    assert_eq!(s.counter(), 0);
    assert_eq!(s.request(), Request::OpenFile);
    assert_eq!(s.current_file(), "notes.txt");
    s.opened();
    assert_eq!(s.request(), Request::ReadLine);
    assert_eq!(s.line("again"), "     1\tagain");
    s.end_of_input();
    assert_eq!(s.request(), Request::Stop);
    assert_eq!(s.outcome(), Ok(()));
}

#[test]
fn an_open_failure_moves_on_to_the_next_input() {
    let mut s = session(&["missing.txt", "real.txt"], true, false);
    assert_eq!(s.request(), Request::OpenFile);
    let e = s.open_failed("No such file or directory (os error 2)".to_string());
    assert_eq!(
        e,
        CatError::Open {
            filename: "missing.txt".to_string(),
            cause: "No such file or directory (os error 2)".to_string(),
        }
    );
    assert_eq!(
        e.message(),
        "Failed to open missing.txt: No such file or directory (os error 2)"
    );
    assert_eq!(s.request(), Request::OpenFile);
    assert_eq!(s.current_file(), "real.txt");
    s.opened();
    assert_eq!(s.line("a"), "     1\ta");
    s.end_of_input();
    assert_eq!(s.request(), Request::Stop);
    assert_eq!(s.outcome(), Ok(()));
}

#[test]
fn an_open_failure_of_the_last_input_stops_the_run_well() {
    let mut s = session(&["missing.txt"], false, false);
    let e = s.open_failed("nope".to_string());
    assert_eq!(e.message(), "Failed to open missing.txt: nope");
    assert_eq!(s.request(), Request::Stop);
    assert_eq!(s.outcome(), Ok(()));
}

#[test]
fn a_read_failure_stops_the_run_with_its_cause() {
    let mut s = session(&["a", "b"], true, false);
    s.opened();
    assert_eq!(s.line("kept"), "     1\tkept");
    s.read_failed("invalid data".to_string());
    assert_eq!(s.request(), Request::Stop);
    assert_eq!(s.outcome(), Err(CatError::Read { cause: "invalid data".to_string() }));
}

#[test]
fn plain_lines_leave_the_counter_at_zero() {
    let mut s = session(&["a"], false, false);
    s.opened();
    assert_eq!(s.line("x"), "x");
    assert_eq!(s.line(""), "");
    assert_eq!(s.counter(), 0);
}

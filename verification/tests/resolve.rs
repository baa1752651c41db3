use catr::{get_args, CatError, Numbering};

fn names(items: &[&str]) -> Vec<String> {
    items.iter().map(|s| s.to_string()).collect()
}

#[test]
fn conflicting_flags_are_refused() {
    assert_eq!(get_args(names(&[]), true, true), Err(CatError::Usage));
    assert_eq!(get_args(names(&["-"]), true, true), Err(CatError::Usage));
    assert_eq!(get_args(names(&["a.txt", "b.txt"]), true, true), Err(CatError::Usage));
}

#[test]
fn single_flags_are_accepted() {
    let all = get_args(names(&["a.txt"]), true, false).unwrap();
    assert!(all.number_lines());
    assert!(!all.number_nonblank_lines());
    assert_eq!(all.numbering(), Numbering::All);

    let nonblank = get_args(names(&["a.txt"]), false, true).unwrap();
    assert!(!nonblank.number_lines());
    assert!(nonblank.number_nonblank_lines());
    assert_eq!(nonblank.numbering(), Numbering::NonBlank);

    let plain = get_args(names(&["a.txt"]), false, false).unwrap();
    assert!(!plain.number_lines());
    assert!(!plain.number_nonblank_lines());
    assert_eq!(plain.numbering(), Numbering::Off);
}

#[test]
fn no_input_means_standard_input() {
    let config = get_args(names(&[]), false, false).unwrap();
    assert_eq!(config.files(), &names(&["-"]));
}

#[test]
fn no_input_resolves_as_a_lone_dash() {
    for (n, b) in [(false, false), (true, false), (false, true), (true, true)] {
        assert_eq!(get_args(names(&[]), n, b), get_args(names(&["-"]), n, b));
    }
}

#[test]
fn named_inputs_keep_their_order() {
    let given = names(&["b.txt", "-", "a.txt", "b.txt"]);
    let config = get_args(given.clone(), false, true).unwrap();
    assert_eq!(config.files(), &given);
}

#[test]
fn usage_message_names_both_flags() {
    let text = CatError::Usage.message();
    assert_eq!(text, "the argument '--number' cannot be used with '--number-nonblank'");
}

#[test]
fn open_error_message_names_the_input() {
    let e = CatError::Open { filename: "missing.txt".to_string(), cause: "not found".to_string() };
    assert_eq!(e.message(), "Failed to open missing.txt: not found");
}

#[test]
fn read_error_message_is_the_cause() {
    let e = CatError::Read { cause: "stream did not contain valid UTF-8".to_string() };
    assert_eq!(e.message(), "stream did not contain valid UTF-8");
}

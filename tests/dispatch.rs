use posix_utils::dispatch::{dispatch, utility_of, Dispatch, Utility};

fn args(v: &[&str]) -> Vec<String> {
    v.iter().map(|s| s.to_string()).collect()
}

#[test]
fn program_name_selects_utility() {
    assert_eq!(
        dispatch(&args(&["/usr/bin/basename"])),
        Dispatch::Run { utility: Utility::Basename, skip: 0 }
    );
    assert_eq!(dispatch(&args(&["cat", "f"])), Dispatch::Run { utility: Utility::Cat, skip: 0 });
    assert_eq!(dispatch(&args(&["bin/cmp/"])), Dispatch::Run { utility: Utility::Cmp, skip: 0 });
}

#[test]
fn second_argument_selects_utility() {
    assert_eq!(
        dispatch(&args(&["/opt/multi", "cmp", "a", "b"])),
        Dispatch::Run { utility: Utility::Cmp, skip: 1 }
    );
}

#[test]
fn no_arguments_fail_with_one() {
    assert_eq!(dispatch(&args(&[])), Dispatch::NoUtility(1));
    assert_eq!(dispatch(&args(&["///"])), Dispatch::NoUtility(1));
    assert_eq!(dispatch(&args(&[""])), Dispatch::NoUtility(1));
}

#[test]
fn missing_fallback_fails_with_two() {
    assert_eq!(dispatch(&args(&["multi"])), Dispatch::NoUtility(2));
}

#[test]
fn unknown_utility_is_not_found() {
    assert_eq!(dispatch(&args(&["multi", "ls"])), Dispatch::NotFound);
    assert_eq!(dispatch(&args(&["multi", "/bin/cat"])), Dispatch::NotFound);
}

#[test]
fn utility_names_are_exact() {
    assert_eq!(utility_of(b"basename"), Some(Utility::Basename));
    assert_eq!(utility_of(b"cat"), Some(Utility::Cat));
    assert_eq!(utility_of(b"cmp"), Some(Utility::Cmp));
    assert_eq!(utility_of(b"ca"), None);
    assert_eq!(utility_of(b"cats"), None);
}

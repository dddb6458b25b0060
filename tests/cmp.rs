use posix_utils::cmp::{cmp, cmp_step, compare, initial_state, ByteDiff, CmpPlan, Side, Step, Verdict};
use posix_utils::source::Operand;

#[test]
fn identical_inputs_are_identical_in_every_mode() {
    let a = b"hello\nworld\n".to_vec();
    for (list, short) in [(false, false), (true, false), (false, true), (true, true)] {
        let (diffs, verdict) = compare(list, short, &a, &a);
        assert!(diffs.is_empty());
        assert_eq!(verdict, Verdict::Identical);
        assert_eq!(verdict.status(), 0);
    }
}

#[test]
fn empty_inputs_are_identical() {
    let (diffs, verdict) = compare(false, false, b"", b"");
    assert!(diffs.is_empty());
    assert_eq!(verdict, Verdict::Identical);
}

#[test]
fn default_mode_reports_first_difference() {
    let (diffs, verdict) = compare(false, false, b"abcdXfgZ", b"abcdYfgQ");
    assert!(diffs.is_empty());
    assert_eq!(verdict, Verdict::Differ { offset: 5, line: 1 });
    assert_eq!(verdict.status(), 1);
}

#[test]
fn default_mode_counts_lines() {
    let (_, verdict) = compare(false, false, b"a\nb\nX", b"a\nb\nY");
    assert_eq!(verdict, Verdict::Differ { offset: 5, line: 3 });
}

#[test]
fn list_mode_reports_every_difference() {
    let (diffs, verdict) = compare(true, false, b"abXdefXh", b"abYdefZh");
    assert_eq!(
        diffs,
        vec![
            ByteDiff { offset: 3, first: b'X', second: b'Y' },
            ByteDiff { offset: 7, first: b'X', second: b'Z' },
        ]
    );
    assert_eq!(verdict, Verdict::Listed);
    assert_eq!(verdict.status(), 1);
}

#[test]
fn list_mode_with_unequal_lengths_ends_in_eof() {
    let (diffs, verdict) = compare(true, false, b"aXc", b"aYcde");
    assert_eq!(diffs, vec![ByteDiff { offset: 2, first: b'X', second: b'Y' }]);
    assert_eq!(verdict, Verdict::Eof(Side::First));
}

#[test]
fn shorter_first_stream_ends_in_eof_on_it() {
    let (diffs, verdict) = compare(false, false, b"abc", b"abcde");
    assert!(diffs.is_empty());
    assert_eq!(verdict, Verdict::Eof(Side::First));
    assert_eq!(verdict.status(), 1);
}

#[test]
fn shorter_second_stream_ends_in_eof_on_it() {
    let (_, verdict) = compare(false, false, b"abcde", b"abc");
    assert_eq!(verdict, Verdict::Eof(Side::Second));
}

#[test]
fn short_mode_is_silent_on_difference() {
    let (diffs, verdict) = compare(false, true, b"abcdX", b"abcdY");
    assert!(diffs.is_empty());
    assert_eq!(verdict, Verdict::Silent);
    assert_eq!(verdict.status(), 1);
    let (diffs, verdict) = compare(true, true, b"aXcdX", b"aYcdY");
    assert!(diffs.is_empty());
    assert_eq!(verdict, Verdict::Silent);
}

#[test]
fn short_mode_still_reports_eof_on_length_mismatch() {
    let (diffs, verdict) = compare(false, true, b"abc", b"abcde");
    assert!(diffs.is_empty());
    assert_eq!(verdict, Verdict::Eof(Side::First));
    assert_eq!(verdict.status(), 1);
}

#[test]
fn step_counts_offset_and_line() {
    let st = initial_state();
    assert_eq!((st.offset, st.line, st.differ), (1, 1, false));
    let (st, step) = cmp_step(false, false, st, Some(b'\n'), Some(b'\n'));
    assert_eq!(step, Step::Continue);
    assert_eq!((st.offset, st.line), (2, 2));
    let (st, step) = cmp_step(true, false, st, Some(b'a'), Some(b'b'));
    assert_eq!(step, Step::Report(ByteDiff { offset: 2, first: b'a', second: b'b' }));
    assert_eq!((st.offset, st.line, st.differ), (3, 2, true));
    let (_, step) = cmp_step(true, false, st, None, None);
    assert_eq!(step, Step::Stop(Verdict::Listed));
}

#[test]
fn step_stops_at_exhausted_stream() {
    let st = initial_state();
    assert_eq!(cmp_step(false, false, st, None, Some(1)).1, Step::Stop(Verdict::Eof(Side::First)));
    assert_eq!(cmp_step(false, false, st, Some(1), None).1, Step::Stop(Verdict::Eof(Side::Second)));
    assert_eq!(cmp_step(false, false, st, None, None).1, Step::Stop(Verdict::Identical));
}

#[test]
fn both_stdin_is_identical_without_reading() {
    assert!(matches!(cmp("-", "-"), CmpPlan::BothStdin));
}

#[test]
fn operands_resolve_to_sources() {
    match cmp("-", "b.txt") {
        CmpPlan::Compare(Operand::Stdin, Operand::File(p)) => assert_eq!(p, "b.txt"),
        other => panic!("unexpected plan {:?}", other),
    }
    match cmp("a.txt", "-") {
        CmpPlan::Compare(a, b) => {
            assert_eq!(a.label(), "a.txt");
            assert_eq!(b.label(), "stdin");
        }
        other => panic!("unexpected plan {:?}", other),
    }
    match cmp("--", "a") {
        CmpPlan::Compare(Operand::File(p), Operand::File(q)) => {
            assert_eq!(p, "--");
            assert_eq!(q, "a");
        }
        other => panic!("unexpected plan {:?}", other),
    }
}

use diffmig::clinical_data::{ClinicalDatum, ClinicalDatumVariant, Form, PatientSlice};
use diffmig::lockstep::{Action, Lockstep, LockstepError, Step};
use diffmig::prompt::Response;
use diffmig::split::{blank, split_commas, trimmed};

fn slice_with(patient: u32, names: &[&str]) -> PatientSlice {
    let mut slice = PatientSlice::from(patient);
    for (i, name) in names.iter().enumerate() {
        slice.add(ClinicalDatum {
            id: i as u32,
            patient,
            variant: ClinicalDatumVariant::CDEs,
            forms: vec![Form { name: name.to_string(), sections: vec![] }],
        });
    }
    slice
}

#[test]
fn answers_are_read_without_case_and_outer_space() {
    for line in ["y", "Y", "yes", "YES", "yEs", "", "\n", "  y \r\n", "\tYes\n", " \t "] {
        assert_eq!(Response::parse(line), Some(Response::Yes), "{:?}", line);
    }
    for line in ["n", "N", "no", "No\n", " nO "] {
        assert_eq!(Response::parse(line), Some(Response::No), "{:?}", line);
    }
    for line in ["a", "A\n", "all", "ALL", " All\u{a0}"] {
        assert_eq!(Response::parse(line), Some(Response::All), "{:?}", line);
    }
    for line in ["ye", "yess", "y es", "nope", "al", "x", "да", "y\u{0}", "ÿ", "\u{59}\u{301}"] {
        assert_eq!(Response::parse(line), None, "{:?}", line);
    }
}

#[test]
fn white_space_is_what_the_standard_says() {
    for c in (0u32..0x3100).filter_map(char::from_u32) {
        assert_eq!(blank(c), c.is_whitespace(), "{:?}", c);
    }
    assert!(!blank('\u{feff}'));
    assert!(!blank('\u{10ffff}'));
}

#[test]
fn strings_are_trimmed_at_both_ends() {
    for text in ["", " ", "a", " a", "a ", "  a b  ", "\t\na\u{3000}", "\u{2003}x y\u{85}", " \u{0}  "] {
        assert_eq!(trimmed(text), text.trim(), "{:?}", text);
    }
}

#[test]
fn lists_are_split_at_commas_and_trimmed() {
    for text in ["", ",", "a", "a,b", " a , b ,c", "a,,b", ",a,", "a b, c\td ,", " , ", "é, ü ,\u{3000}z"] {
        let expected: Vec<String> = text.split(",").map(|s| s.trim().to_string()).collect();
        assert_eq!(split_commas(text), expected, "{:?}", text);
    }
    assert_eq!(split_commas("x, y,z "), vec!["x", "y", "z"]);
}

#[test]
fn an_export_that_runs_out_first_is_an_error() {
    let slice = slice_with(1, &["a"]);
    let mut state = Lockstep::new();
    assert_eq!(state.compare(Some(&slice), None).unwrap_err(), LockstepError::NewRanOut);
    assert_eq!(state.compare(None, Some(&slice)).unwrap_err(), LockstepError::OldRanOut);
    assert!(matches!(state.compare(None, None), Ok(Step::Finished)));
    assert_eq!(state.total, 0);
    assert_eq!(LockstepError::NewRanOut.message(), "New ran out of slices!");
    assert_eq!(LockstepError::OldRanOut.message(), "Old ran out of slices!");
}

#[test]
fn differences_are_counted_and_asked_about_until_told_otherwise() {
    let old = slice_with(1, &["a", "b"]);
    let new = slice_with(2, &["a", "c"]);
    let mut state = Lockstep::new();
    assert!(!state.skip_input);
    assert!(matches!(state.compare(Some(&old), Some(&old)), Ok(Step::Identical)));
    match state.compare(Some(&old), Some(&new)).unwrap() {
        Step::Different { differences, ask } => {
            assert_eq!(differences.len(), 2);
            assert!(ask);
        }
        other => panic!("{:?}", other),
    }
    assert_eq!(state.total, 2);
    assert_eq!(state.answer(Response::Yes), Action::Continue);
    assert!(!state.skip_input);
    assert!(matches!(
        state.compare(Some(&old), Some(&new)),
        Ok(Step::Different { ask: true, .. })
    ));
    assert_eq!(state.total, 4);
    assert_eq!(state.answer(Response::All), Action::Continue);
    assert!(state.skip_input);
    assert!(matches!(
        state.compare(Some(&new), Some(&old)),
        Ok(Step::Different { ask: false, .. })
    ));
    assert_eq!(state.total, 6);
    assert_eq!(state.answer(Response::Yes), Action::Continue);
    assert!(state.skip_input);
    assert_eq!(state.answer(Response::No), Action::Stop);
    assert_eq!(state.total, 6);
}

#[test]
fn the_count_stops_at_the_largest_number() {
    let old = slice_with(1, &["a"]);
    let new = slice_with(2, &["b"]);
    let mut state = Lockstep { skip_input: true, total: usize::MAX - 1 };
    state.compare(Some(&old), Some(&new)).unwrap();
    assert_eq!(state.total, usize::MAX);
    state.compare(Some(&old), Some(&new)).unwrap();
    assert_eq!(state.total, usize::MAX);
}

use app_nap::action::ecore::{cpu_is_set, parse_cpu_list, CpuListError, ECoreAction};

#[test]
fn parses_single_cpu() {
    let set = parse_cpu_list("4").unwrap();
    assert!(cpu_is_set(4, &set).unwrap());
    assert!(!cpu_is_set(3, &set).unwrap());
    assert!(!cpu_is_set(5, &set).unwrap());
}

#[test]
fn parses_range() {
    let set = parse_cpu_list("4-7").unwrap();
    for id in 4..=7 {
        assert!(cpu_is_set(id, &set).unwrap(), "cpu {id} should be set");
    }
    assert!(!cpu_is_set(3, &set).unwrap());
    assert!(!cpu_is_set(8, &set).unwrap());
}

#[test]
fn parses_mixed_list() {
    let set = parse_cpu_list("0-3,8-11,15").unwrap();
    for id in [0, 1, 2, 3, 8, 9, 10, 11, 15] {
        assert!(cpu_is_set(id, &set).unwrap(), "cpu {id} should be set");
    }
    for id in [4, 5, 6, 7, 12, 13, 14, 16] {
        assert!(!cpu_is_set(id, &set).unwrap(), "cpu {id} should not be set");
    }
}

#[test]
fn parses_whitespace_and_trailing_newline() {
    let set = parse_cpu_list(" 4 - 7 \n").unwrap();
    for id in 4..=7 {
        assert!(cpu_is_set(id, &set).unwrap());
    }
}

#[test]
fn rejects_reversed_range() {
    assert!(parse_cpu_list("7-4").is_err());
}

#[test]
fn rejects_non_numeric() {
    assert!(parse_cpu_list("a-b").is_err());
}

#[test]
fn cpu_list_errors_name_their_cause() {
    assert_eq!(parse_cpu_list("7-4").unwrap_err(), CpuListError::InvalidRange);
    assert_eq!(parse_cpu_list("a").unwrap_err(), CpuListError::InvalidNumber);
    assert_eq!(parse_cpu_list("5000").unwrap_err(), CpuListError::CpuOutOfRange);
}

#[test]
fn cpu_outside_the_set_capacity_is_refused() {
    let set = parse_cpu_list("1").unwrap();
    assert_eq!(cpu_is_set(1024, &set).unwrap_err(), CpuListError::CpuOutOfRange);
    assert!(cpu_is_set(1023, &set).is_ok());
}

#[test]
fn ecore_action_pins_to_ecores_and_restores_all_cores() {
    let action = ECoreAction::new("8-11\n", "0-11\n").unwrap();
    let pinned = action.apply();
    assert!(cpu_is_set(8, pinned).unwrap());
    assert!(!cpu_is_set(7, pinned).unwrap());
    let restored = action.revert();
    assert!(cpu_is_set(0, restored).unwrap());
    assert!(cpu_is_set(11, restored).unwrap());
    assert!(ECoreAction::new("x", "0-3").is_err());
}

use find_winpe_profile_path::cli::{
    invalid_path_report, search_report, usage_report, verbose_requested, wants_help, UsageKind,
    EXIT_FAILURE, EXIT_FOUND, EXIT_NOT_FOUND,
};
use find_winpe_profile_path::number::{decimal_i32, hex_u32};
use find_winpe_profile_path::path::PathError;
use find_winpe_profile_path::search::SearchError;

#[test]
fn found_paths_are_all_that_is_written() {
    for verbose in [false, true] {
        let report = search_report(Ok(Some("F:\\WinPE".to_owned())), verbose);
        assert_eq!(report.stdout, "F:\\WinPE\n");
        assert_eq!(report.stderr, "");
        assert_eq!(report.exit_code, 0);
        assert_eq!(report.exit_code, EXIT_FOUND);
    }
}

#[test]
fn missing_markers_write_nothing() {
    for verbose in [false, true] {
        let report = search_report(Ok(None), verbose);
        assert_eq!(report.stdout, "");
        assert_eq!(report.stderr, "");
        assert_eq!(report.exit_code, 1);
        assert_eq!(report.exit_code, EXIT_NOT_FOUND);
    }
}

#[test]
fn failures_are_told_in_verbose_runs_only() {
    let report = search_report(Err(SearchError::System("why".to_owned())), false);
    assert_eq!((report.stdout.as_str(), report.stderr.as_str()), ("", ""));
    assert_eq!(report.exit_code, 2);
    let report = search_report(Err(SearchError::System("why".to_owned())), true);
    assert_eq!(
        (report.stdout.as_str(), report.stderr.as_str()),
        ("", "Search failed: why\n")
    );
    assert_eq!(report.exit_code, EXIT_FAILURE);
}

#[test]
fn invalid_paths_are_wrong_parameters() {
    let text = "Invalid path: path must be relative to a volume root\n";
    let report = invalid_path_report(PathError::NotRelative, false);
    assert_eq!((report.stdout.as_str(), report.stderr.as_str()), (text, ""));
    assert_eq!(report.exit_code, 2);
    let report = invalid_path_report(PathError::NotRelative, true);
    assert_eq!((report.stdout.as_str(), report.stderr.as_str()), ("", text));
    assert_eq!(report.exit_code, 2);
    let report = invalid_path_report(PathError::BadComponent, true);
    assert_eq!(
        report.stderr,
        "Invalid path: path must not contain empty, '.' or '..' components\n"
    );
}

#[test]
fn usage_goes_to_stderr_for_errors_of_verbose_calls_only() {
    for kind in [UsageKind::Help, UsageKind::Version, UsageKind::Error] {
        for verbose in [false, true] {
            let report = usage_report(verbose, kind, "usage".to_owned(), 7);
            let to_stderr = verbose && kind == UsageKind::Error;
            assert_eq!(report.stderr, if to_stderr { "usage" } else { "" });
            assert_eq!(report.stdout, if to_stderr { "" } else { "usage" });
            assert_eq!(report.exit_code, 7);
        }
    }
}

#[test]
fn verbose_is_looked_for_among_the_arguments() {
    let arguments = |texts: &[&str]| -> Vec<String> {
        texts.iter().map(|text| text.to_string()).collect()
    };
    assert!(verbose_requested(&arguments(&["find", "--verbose"])));
    assert!(verbose_requested(&arguments(&["find", "a", "b", "--verbose", "c"])));
    assert!(!verbose_requested(&arguments(&["find", "-v", "--Verbose", "--verbose=1"])));
    assert!(!verbose_requested(&arguments(&[])));
    assert!(wants_help(1));
    assert!(!wants_help(0));
    assert!(!wants_help(2));
}

#[test]
fn notations_are_those_of_std() {
    for value in [0i32, 1, -1, 7, -10, 2147483647, -2147483648] {
        assert_eq!(decimal_i32(value), value.to_string());
    }
    for value in [0u32, 9, 10, 15, 16, 0xC000_0023, 0xABCD_EF01, 0xFFFF_FFFF] {
        assert_eq!(hex_u32(value), format!("{value:08X}"));
    }
}

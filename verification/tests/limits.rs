use vitrine::limits::{
    check_file_limits, limits_from_env, IngestLimits, LimitError, DEFAULT_MAX_FILE_BYTES,
    DEFAULT_MAX_FILE_COUNT, DEFAULT_MAX_TOTAL_BYTES,
};

#[test]
fn limits_enforce_count_and_bytes() {
    let limits = IngestLimits {
        max_file_count: 2,
        max_file_bytes: 10,
        max_total_bytes: 15,
    };
    assert_eq!(
        check_file_limits(0, &[], &limits).unwrap_err(),
        LimitError::NoFiles
    );
    assert!(matches!(
        check_file_limits(3, &[1, 1, 1], &limits),
        Err(LimitError::TooManyFiles { .. })
    ));
    assert!(matches!(
        check_file_limits(1, &[11], &limits),
        Err(LimitError::FileTooLarge { .. })
    ));
    assert!(matches!(
        check_file_limits(2, &[10, 10], &limits),
        Err(LimitError::TotalTooLarge { .. })
    ));
    assert!(check_file_limits(2, &[5, 5], &limits).is_ok());
}

#[test]
fn limit_errors_say_what_is_too_much() {
    let limits = IngestLimits {
        max_file_count: 2,
        max_file_bytes: 10,
        max_total_bytes: 15,
    };
    let message = |count: usize, sizes: &[u64]| {
        check_file_limits(count, sizes, &limits)
            .unwrap_err()
            .message()
    };
    assert_eq!(message(0, &[]), "no files");
    assert_eq!(message(3, &[1, 1, 1]), "too many files: 3 > max 2");
    assert_eq!(message(2, &[1, 0]), "empty file at index 1");
    assert_eq!(message(2, &[1, 11]), "file 1 too large: 11 > max 10");
    assert_eq!(message(2, &[8, 9]), "total bytes too large: 17 > max 15");
    assert_eq!(message(2, &[11, 0]), "file 0 too large: 11 > max 10");
}

#[test]
fn totals_do_not_wrap() {
    let limits = IngestLimits {
        max_file_count: 4,
        max_file_bytes: u64::MAX,
        max_total_bytes: 100,
    };
    assert_eq!(
        check_file_limits(2, &[u64::MAX, 5], &limits),
        Err(LimitError::TotalTooLarge {
            bytes: u64::MAX,
            max: 100
        })
    );
}

#[test]
fn limits_come_from_variables_or_defaults() {
    let limits = limits_from_env(Some("7"), Some("+9"), Some("11"));
    assert_eq!(
        limits,
        IngestLimits {
            max_file_count: 7,
            max_file_bytes: 9,
            max_total_bytes: 11
        }
    );
    let defaults = IngestLimits::default();
    assert_eq!(limits_from_env(None, None, None), defaults);
    assert_eq!(
        limits_from_env(Some("0"), Some("-1"), Some(" 5")),
        defaults
    );
    assert_eq!(
        limits_from_env(Some("4294967296"), Some("x"), Some("18446744073709551616")),
        defaults
    );
    assert_eq!(defaults.max_file_count, DEFAULT_MAX_FILE_COUNT);
    assert_eq!(DEFAULT_MAX_FILE_COUNT, 40);
    assert_eq!(DEFAULT_MAX_FILE_BYTES, 26_214_400);
    assert_eq!(DEFAULT_MAX_TOTAL_BYTES, 104_857_600);
}

#[test]
fn counts_do_not_wrap() {
    let limits = IngestLimits {
        max_file_count: 2,
        max_file_bytes: 10,
        max_total_bytes: 15,
    };
    let count = (1u64 << 32) + 1;
    if let Ok(count) = usize::try_from(count) {
        let refused = check_file_limits(count, &[1], &limits).unwrap_err();
        assert_eq!(
            refused,
            LimitError::TooManyFiles {
                count: u32::MAX,
                max: 2
            }
        );
        assert_eq!(refused.message(), "too many files: 4294967295 > max 2");
    }
}

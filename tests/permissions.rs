use lsr::{get_permission_string_from_string_number, permission_from_mode};

#[test]
fn test_valid_permissions() {
    assert_eq!(
        get_permission_string_from_string_number("644".to_string()),
        "rw-r--r--"
    );
    assert_eq!(
        get_permission_string_from_string_number("755".to_string()),
        "rwxr-xr-x"
    );
    assert_eq!(
        get_permission_string_from_string_number("700".to_string()),
        "rwx------"
    );
    assert_eq!(
        get_permission_string_from_string_number("000".to_string()),
        "---------"
    );
}

#[test]
fn test_invalid_characters() {
    assert_eq!(
        get_permission_string_from_string_number("64x".to_string()),
        "64x"
    );
    assert_eq!(
        get_permission_string_from_string_number("75a".to_string()),
        "75a"
    );
}

#[test]
fn test_empty_string() {
    assert_eq!(get_permission_string_from_string_number("".to_string()), "");
}

#[test]
fn test_non_octal_digits() {
    assert_eq!(
        get_permission_string_from_string_number("89".to_string()),
        "89"
    );
}

#[test]
fn test_single_digit() {
    assert_eq!(
        get_permission_string_from_string_number("7".to_string()),
        "rwx"
    );
    assert_eq!(
        get_permission_string_from_string_number("5".to_string()),
        "r-x"
    );
    assert_eq!(
        get_permission_string_from_string_number("0".to_string()),
        "---"
    );
}

#[test]
fn decode_expands_longer_strings() {
    assert_eq!(
        get_permission_string_from_string_number("75".to_string()),
        "rwxr-x"
    );
    assert_eq!(
        get_permission_string_from_string_number("1234".to_string()),
        "--x-w--wxr--"
    );
}

#[test]
fn decode_keeps_input_with_a_late_bad_character() {
    assert_eq!(
        get_permission_string_from_string_number("7778".to_string()),
        "7778"
    );
    assert_eq!(
        get_permission_string_from_string_number("-44".to_string()),
        "-44"
    );
}

#[test]
fn mode_keeps_low_nine_bits_as_three_digits() {
    assert_eq!(permission_from_mode(0o644), "644");
    assert_eq!(permission_from_mode(0o100755), "755");
    assert_eq!(permission_from_mode(0o6), "006");
    assert_eq!(permission_from_mode(0o40000), "000");
    assert_eq!(permission_from_mode(0o7777), "777");
}

#[test]
fn decoded_mode_has_nine_symbols_in_place() {
    for mode in [0u32, 0o644, 0o755, 0o123, 0o777, 0o100600] {
        let text = get_permission_string_from_string_number(permission_from_mode(mode));
        let chars: Vec<char> = text.chars().collect();
        assert_eq!(chars.len(), 9);
        for k in 0..3 {
            assert!(chars[3 * k] == 'r' || chars[3 * k] == '-');
            assert!(chars[3 * k + 1] == 'w' || chars[3 * k + 1] == '-');
            assert!(chars[3 * k + 2] == 'x' || chars[3 * k + 2] == '-');
        }
    }
}

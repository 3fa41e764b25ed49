use muak_stub::security::{is_secure_boot_enabled, is_setup_mode, read_bool_variable};

#[test]
fn variable_set_when_first_byte_is_one() {
    assert!(is_setup_mode(Some(&[1])));
    assert!(is_secure_boot_enabled(Some(&[1])));
}

#[test]
fn variable_clear_otherwise() {
    assert!(!is_setup_mode(Some(&[0])));
    assert!(!is_secure_boot_enabled(Some(&[2])));
    assert!(!is_setup_mode(None));
    assert!(!is_secure_boot_enabled(Some(&[])));
    assert!(!read_bool_variable(None));
}

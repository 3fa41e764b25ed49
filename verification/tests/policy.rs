use muak_stub::policy;
use muak_stub::policy::muak;

#[test]
fn cmdline_copies_embedded_command_line() {
    let copy = policy::cmdline(Some(b"console=ttyS0 quiet")).expect("allocates");
    assert_eq!(copy, Some(b"console=ttyS0 quiet".to_vec()));
}

#[test]
fn cmdline_without_embedded_command_line() {
    assert!(matches!(policy::cmdline(None), Ok(None)));
}

#[test]
fn cmdline_keeps_trailing_bytes() {
    let copy = policy::cmdline(Some(b"quiet\n\0")).expect("allocates");
    assert_eq!(copy, Some(b"quiet\n\0".to_vec()));
}

#[test]
fn muak_cmdline_with_tpm_ignores_key() {
    let r = muak::cmdline(Some(b"quiet\n"), true, Some(b"secret")).expect("no error");
    assert_eq!(r, Some(b"quiet\n".to_vec()));
}

#[test]
fn muak_cmdline_without_tpm_injects_key() {
    let r = muak::cmdline(Some(b"quiet\n"), false, Some(b"secret")).expect("no error");
    assert_eq!(r, Some(b"quiet luks.key=c2VjcmV0".to_vec()));
}

#[test]
fn muak_cmdline_without_tpm_or_key() {
    let r = muak::cmdline(Some(b"quiet\n"), false, None).expect("no error");
    assert_eq!(r, Some(b"quiet\n".to_vec()));
    let r = muak::cmdline(None, false, Some(b"")).expect("no error");
    assert_eq!(r, None);
}

#[test]
fn finish_copy_fills_after_successful_reservation() {
    let r = policy::finish_copy(b"abc", Ok(()), Vec::new()).expect("reserved");
    assert_eq!(r, Some(b"abc".to_vec()));
}

#[test]
fn finish_copy_reports_failed_reservation() {
    let failure = Vec::<u8>::new().try_reserve_exact(usize::MAX).unwrap_err();
    let r = policy::finish_copy(b"abc", Err(failure), Vec::new());
    let err = r.unwrap_err();
    assert!(matches!(err, policy::PolicyError::AllocationFailed(_)));
    assert_eq!(err.message(), "kernel command line allocation failed");
}

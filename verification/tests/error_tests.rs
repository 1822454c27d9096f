use rvpnse::error::{IntoVpnError, VpnError};

#[test]
fn test_error_display() {
    let err = VpnError::Config("test config error".to_string());
    assert_eq!(err.to_string(), "Configuration error: test config error");
}

#[test]
fn test_error_conversion() {
    let io_err = std::io::Error::new(std::io::ErrorKind::NotFound, "file not found");
    let vpn_err: VpnError = io_err.into();
    assert!(matches!(vpn_err, VpnError::Io(_)));
}

#[test]
fn test_into_vpn_error_trait() {
    let result: std::result::Result<(), &str> = Err("test error");
    let vpn_result = result.into_vpn_error("test context");
    assert!(vpn_result.is_err());
    assert!(vpn_result.unwrap_err().to_string().contains("test context"));
}

#[test]
fn error_text_for_each_kind() {
    assert_eq!(VpnError::Network("x".to_string()).to_string(), "Network error: x");
    assert_eq!(VpnError::Connection("y".to_string()).to_string(), "Connection failed: y");
    assert_eq!(VpnError::Timeout("z".to_string()).to_string(), "Operation timed out: z");
    assert_eq!(VpnError::TunTap("t".to_string()).to_string(), "TUN/TAP error: t");
    let io: VpnError = std::io::Error::new(std::io::ErrorKind::Other, "disk").into();
    assert!(io.to_string().starts_with("IO error: "));
}

#[test]
fn into_vpn_error_keeps_success_and_formats_failure() {
    let ok: std::result::Result<u32, &str> = Ok(7);
    assert_eq!(ok.into_vpn_error("ctx").unwrap(), 7);
    let bad: std::result::Result<u32, &str> = Err("boom");
    match bad.into_vpn_error("ctx") {
        Err(VpnError::Other(m)) => assert_eq!(m, "ctx: boom"),
        _ => panic!("expected an Other error"),
    }
}

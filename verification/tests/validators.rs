use orkactl::{verify_network, CustomError, IpAdress};

fn rule(mask: u32, ports: &[&str]) -> IpAdress {
    IpAdress { mask, ports: ports.iter().map(|p| p.to_string()).collect() }
}

#[test]
fn clean_entries_pass() {
    let networks = vec![vec![
        ("10.0.0.1".to_string(), rule(24, &["8080", "9000-9010"])),
        ("192.168.0.1".to_string(), rule(32, &[])),
    ]];
    assert_eq!(verify_network(&networks), None);
}

#[test]
fn empty_directions_pass() {
    let networks: Vec<Vec<(String, IpAdress)>> = vec![];
    assert_eq!(verify_network(&networks), None);
    let one_empty_entry: Vec<Vec<(String, IpAdress)>> = vec![vec![]];
    assert_eq!(verify_network(&one_empty_entry), None);
}

#[test]
fn first_bad_key_is_reported() {
    let networks = vec![
        vec![("10.0.0.1".to_string(), rule(32, &[]))],
        vec![("bad".to_string(), rule(32, &[])), ("also.not.an.ip!".to_string(), rule(32, &[]))],
    ];
    assert_eq!(verify_network(&networks), Some(CustomError::InvalidIpAddress("bad".to_string())));
}

#[test]
fn ip_check_precedes_port_check_within_an_entry() {
    let networks = vec![vec![("nope".to_string(), rule(32, &["70000"]))]];
    assert_eq!(verify_network(&networks), Some(CustomError::InvalidIpAddress("nope".to_string())));
}

#[test]
fn port_value_above_limit_is_reported() {
    let networks = vec![vec![("10.0.0.1".to_string(), rule(32, &["80", "65536"]))]];
    assert_eq!(verify_network(&networks), Some(CustomError::OutsidePortRange(65536)));
}

#[test]
fn malformed_token_is_reported_before_later_range_violation() {
    let networks = vec![vec![("10.0.0.1".to_string(), rule(32, &["x-70000"]))]];
    assert_eq!(
        verify_network(&networks),
        Some(CustomError::InvalidPortFormat("x".to_string()))
    );
}

#[test]
fn plus_signed_token_parses_like_an_unsigned_integer() {
    let ok = vec![vec![("10.0.0.1".to_string(), rule(32, &["+80"]))]];
    assert_eq!(verify_network(&ok), None);
    let too_big = vec![vec![("10.0.0.1".to_string(), rule(32, &["+65536"]))]];
    assert_eq!(verify_network(&too_big), Some(CustomError::OutsidePortRange(65536)));
}

#[test]
fn empty_token_from_trailing_separator_is_malformed() {
    let networks = vec![vec![("10.0.0.1".to_string(), rule(32, &["8000-"]))]];
    assert_eq!(
        verify_network(&networks),
        Some(CustomError::InvalidPortFormat("".to_string()))
    );
}

#[test]
fn overflowing_token_is_malformed_not_out_of_range() {
    let networks = vec![vec![("10.0.0.1".to_string(), rule(32, &["99999999999"]))]];
    assert_eq!(
        verify_network(&networks),
        Some(CustomError::InvalidPortFormat("99999999999".to_string()))
    );
}

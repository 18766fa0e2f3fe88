use orkactl::{Config, CustomError};

#[test]
fn config_document_yields_url_with_engine_port() {
    let c = Config::from_document("orkaUrl: http://localhost\n").unwrap();
    assert_eq!(c.orka_url, "http://localhost:3000/");
}

#[test]
fn config_port_is_replaced_not_appended() {
    let c = Config::from_document("orkaUrl: http://example.com:8080/api\n").unwrap();
    assert_eq!(c.orka_url, "http://example.com:3000/api");
}

#[test]
fn config_without_url_field_is_rejected() {
    match Config::from_document("somethingElse: 1\n") {
        Err(CustomError::FileContentError(_)) => {},
        other => panic!("expected a structural failure, got {:?}", other),
    }
}

#[test]
fn config_with_relative_url_is_rejected() {
    match Config::from_document("orkaUrl: not-a-url\n") {
        Err(CustomError::FileContentError(_)) => {},
        other => panic!("expected a failure, got {:?}", other),
    }
}

#[test]
fn wrapped_config_shares_the_parsed_value() {
    let shared = Config::new_wrapped("orkaUrl: http://localhost\n").unwrap();
    let guard = shared.lock().unwrap();
    assert_eq!(guard.orka_url, "http://localhost:3000/");
}

#[test]
fn set_orka_url_updates_on_success_and_keeps_on_failure() {
    let mut c = Config::from_document("orkaUrl: http://localhost\n").unwrap();
    assert!(c.set_orka_url("http://other.example").is_ok());
    assert_eq!(c.orka_url, "http://other.example:3000/");
    assert!(c.set_orka_url("::::").is_err());
    assert_eq!(c.orka_url, "http://other.example:3000/");
}

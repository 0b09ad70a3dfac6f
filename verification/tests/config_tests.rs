use oar_ocr_web::config::{configured_token, listen_port};
use oar_ocr_web::routes::check_token;

#[test]
fn token_configuration() {
    assert_eq!(configured_token(None), None);
    assert_eq!(configured_token(Some("")), None);
    assert_eq!(configured_token(Some("  \t")), None);
    assert_eq!(configured_token(Some(" s3cret\n")), Some("s3cret".to_string()));
    let blank = configured_token(Some("   "));
    assert!(check_token(&blank, "/api/ocr", None).is_ok());
}

#[test]
fn port_configuration() {
    assert_eq!(listen_port(None), Some(3000));
    assert_eq!(listen_port(Some("8080")), Some(8080));
    assert_eq!(listen_port(Some("65535")), Some(65535));
    assert_eq!(listen_port(Some("65536")), None);
    assert_eq!(listen_port(Some("http")), None);
    assert_eq!(listen_port(Some("")), None);
}

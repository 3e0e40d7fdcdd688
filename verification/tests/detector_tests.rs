use miel::configuration::types::{Protocol, ServiceConfig};
use miel::error_handling::types::NetworkError;
use miel::network::service_detector::ServiceDetector;

fn service(name: &str, port: u16, headers: &[&str], banner: Option<&str>) -> ServiceConfig {
    ServiceConfig {
        name: name.to_owned(),
        port,
        protocol: Protocol::TCP,
        container_image: "unknown".to_owned(),
        enabled: true,
        header_patterns: headers.iter().map(|h| (*h).to_owned()).collect(),
        banner_response: banner.map(|b| b.to_owned()),
    }
}

#[test]
fn test_detect_by_port_without_payload() {
    let detector = ServiceDetector::new(&[service("http", 8080, &[], None)]);
    // a connection on a registered port resolves with no bytes read
    assert_eq!(detector.detect_from_port(8080), Some("http".to_owned()));
    let outcome = detector.identify_service(8080, None);
    assert_eq!(outcome.unwrap(), "http");
}

#[test]
fn test_detect_by_payload() {
    let detector = ServiceDetector::new(&[service("custom-http", 80, &["HTTP/1.1"], None)]);
    let payload = b"GET / HTTP/1.1\r\n";
    let outcome = detector.identify_service(9999, Some(&payload[..]));
    assert_eq!(outcome.unwrap(), "custom-http");
    assert_eq!(detector.detect_from_payload(&payload[..]), Some("custom-http".to_owned()));
}

#[test]
fn test_detection_failure() {
    let detector = ServiceDetector::new(&[service("custom-http", 80, &["HTTP/1.1"], None)]);
    // empty payload
    assert!(matches!(
        detector.identify_service(9999, Some(&b""[..])),
        Err(NetworkError::ServiceDetectionFailed)
    ));
    // no configured substring occurs
    assert!(matches!(
        detector.identify_service(9999, Some(&b"QUIT\r\n"[..])),
        Err(NetworkError::ServiceDetectionFailed)
    ));
    // the read failed
    assert!(matches!(
        detector.identify_service(9999, None),
        Err(NetworkError::ServiceDetectionFailed)
    ));
}

#[test]
fn test_detect_by_banner_pattern() {
    let detector = ServiceDetector::new(&[service("ssh", 22, &[], Some("SSH-2.0"))]);
    let outcome = detector.identify_service(9999, Some(&b"SSH-2.0-OpenSSH_9.6\r\n"[..]));
    assert_eq!(outcome.unwrap(), "ssh");
}

#[test]
fn test_later_service_replaces_earlier_on_shared_port() {
    let detector = ServiceDetector::new(&[
        service("first", 8080, &[], None),
        service("second", 8080, &[], None),
    ]);
    assert_eq!(detector.service_patterns.len(), 1);
    assert_eq!(detector.detect_from_port(8080), Some("second".to_owned()));
}

#[test]
fn test_invalid_utf8_payload_identifies_nothing() {
    let detector = ServiceDetector::new(&[service("custom-http", 80, &["HTTP"], None)]);
    // the configured bytes occur, but the payload does not decode as text
    let payload = b"HTTP\xff\xfe";
    assert_eq!(detector.detect_from_payload(&payload[..]), None);
    assert!(matches!(
        detector.identify_service(9999, Some(&payload[..])),
        Err(NetworkError::ServiceDetectionFailed)
    ));
}

#[test]
fn test_payload_match_at_start_and_end() {
    let detector = ServiceDetector::new(&[service("custom", 7, &["MARKER"], None)]);
    assert_eq!(detector.detect_from_payload(&b"MARKER then more"[..]), Some("custom".to_owned()));
    assert_eq!(detector.detect_from_payload(&b"ends with MARKER"[..]), Some("custom".to_owned()));
    assert_eq!(detector.detect_from_payload(&b"MARKE is not enough"[..]), None);
}

#[test]
fn test_registered_port_wins_over_payload() {
    let detector = ServiceDetector::new(&[
        service("http", 8080, &["HTTP"], None),
        service("echo", 7, &["ECHO"], None),
    ]);
    // the port decides even when the payload names another service
    let outcome = detector.identify_service(8080, Some(&b"ECHO"[..]));
    assert_eq!(outcome.unwrap(), "http");
}

#[test]
fn test_detect_from_port_absent() {
    let detector = ServiceDetector::new(&[service("http", 8080, &[], None)]);
    assert_eq!(detector.detect_from_port(22), None);
}

#[test]
fn test_empty_catalog_identifies_nothing() {
    let detector = ServiceDetector::new(&[]);
    assert!(detector.service_patterns.is_empty());
    assert!(matches!(
        detector.identify_service(80, Some(&b"GET / HTTP/1.1"[..])),
        Err(NetworkError::ServiceDetectionFailed)
    ));
}

#[test]
fn test_pattern_table_shape() {
    let detector = ServiceDetector::new(&[service("dns", 53, &["query"], Some("bind"))]);
    assert_eq!(detector.service_patterns.len(), 1);
    let pattern = &detector.service_patterns[0];
    assert_eq!(pattern.service_name, "dns");
    assert_eq!(pattern.port, 53);
    assert_eq!(pattern.header_patterns, vec!["query".to_owned()]);
    assert_eq!(pattern.banner_patterns, vec!["bind".to_owned()]);

    let bare = ServiceDetector::new(&[service("dns", 53, &[], None)]);
    assert!(bare.service_patterns[0].banner_patterns.is_empty());
}

#[test]
fn test_service_config_default_values() {
    let config = ServiceConfig::default();
    assert_eq!(config.name, "unkown");
    assert_eq!(config.port, 0);
    assert_eq!(config.protocol, Protocol::TCP);
    assert_eq!(config.container_image, "unknown");
    assert!(!config.enabled);
    assert!(config.header_patterns.is_empty());
    assert!(config.banner_response.is_none());
}

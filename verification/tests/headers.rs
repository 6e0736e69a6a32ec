use http_server::headers::Headers;

#[test]
fn new_headers_are_empty() {
    let headers = Headers::new();
    assert!(headers.is_empty());
    assert_eq!(headers.len(), 0);
    assert_eq!(headers.get("Host"), None);
    assert!(!headers.contains("Host"));
}

#[test]
fn insert_then_get() {
    let mut headers = Headers::new();
    headers.insert("Host".to_string(), "localhost".to_string());
    headers.insert("Accept".to_string(), "*/*".to_string());
    assert!(!headers.is_empty());
    assert_eq!(headers.len(), 2);
    assert_eq!(headers.get("Host").unwrap(), "localhost");
    assert_eq!(headers.get("Accept").unwrap(), "*/*");
    assert!(headers.contains("Host"));
    assert!(!headers.contains("host"));
    assert!(!headers.contains("Hos"));
    assert!(!headers.contains("Host "));
}

#[test]
fn insert_replaces_and_keeps_each_name_once() {
    let mut headers = Headers::new();
    headers.insert("A".to_string(), "1".to_string());
    headers.insert("B".to_string(), "2".to_string());
    headers.insert("A".to_string(), "3".to_string());
    headers.insert("A".to_string(), "4".to_string());
    assert_eq!(headers.len(), 2);
    assert_eq!(headers.get("A").unwrap(), "4");
    assert_eq!(headers.get("B").unwrap(), "2");
}

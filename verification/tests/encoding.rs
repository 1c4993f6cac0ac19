use mcp_server::encoding::percent_decode;
use mcp_server::protocol::CapabilitySet;

#[test]
fn decode_plain_text_is_identity() {
    assert_eq!(percent_decode(""), Some("".to_string()));
    assert_eq!(percent_decode("abc-_.~"), Some("abc-_.~".to_string()));
}

#[test]
fn decode_hex_triples() {
    assert_eq!(percent_decode("%3A"), Some(":".to_string()));
    assert_eq!(percent_decode("%2f%2F"), Some("//".to_string()));
    assert_eq!(percent_decode("a%20b"), Some("a b".to_string()));
}

#[test]
fn decode_rejects_bad_escapes() {
    assert_eq!(percent_decode("%"), None);
    assert_eq!(percent_decode("%2"), None);
    assert_eq!(percent_decode("%G1"), None);
    assert_eq!(percent_decode("ok%zz"), None);
}

#[test]
fn capability_set_maps_names_to_descriptors() {
    let mut caps = CapabilitySet::new();
    assert!(caps.is_empty());
    assert_eq!(caps.len(), 0);
    let tools = "tools".to_string();
    assert!(!caps.contains_key(&tools));
    assert!(caps.get(&tools).is_none());
    caps.insert("tools".to_string(), "list".to_string());
    caps.insert("prompts".to_string(), "none".to_string());
    assert_eq!(caps.len(), 2);
    assert!(caps.contains_key(&tools));
    assert_eq!(caps.get(&tools), Some(&"list".to_string()));
    assert_eq!(caps.get(&"prompts".to_string()), Some(&"none".to_string()));
    assert!(!caps.contains_key(&"sampling".to_string()));
}

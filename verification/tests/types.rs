use crawler_core::types::{ExtractType, HttpMethod, Identifier, MediaType};

#[test]
fn test_identifier_valid() {
    assert!(Identifier::new("valid_name").is_ok());
    assert!(Identifier::new("_private").is_ok());
    assert!(Identifier::new("Name123").is_ok());
}

#[test]
fn test_identifier_invalid() {
    assert!(Identifier::new("123start").is_err());
    assert!(Identifier::new("has-dash").is_err());
    assert!(Identifier::new("has space").is_err());
    assert!(Identifier::new("").is_err());
}

#[test]
fn test_extract_type_attribute_name() {
    assert_eq!(ExtractType::AttrHref.attribute_name(), Some("href"));
    assert_eq!(ExtractType::Text.attribute_name(), None);
    assert_eq!(
        ExtractType::CustomAttr("attr:data-id".to_string()).attribute_name(),
        Some("data-id")
    );
}

#[test]
fn test_http_method_has_body() {
    assert!(!HttpMethod::Get.has_body());
    assert!(HttpMethod::Post.has_body());
    assert!(HttpMethod::Put.has_body());
    assert!(HttpMethod::Patch.has_body());
}

#[test]
fn test_media_type_display_name() {
    assert_eq!(MediaType::Book.display_name(), "书籍");
    assert_eq!(MediaType::Video.display_name(), "视频");
}

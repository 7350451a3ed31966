use recodeck_audio::companion::{expired_after, generate_token, hex_encode, PaginationParams, StreamTicket};
use recodeck_audio::models::{GenreDefinition, GenreDefinitionDTO};

#[test]
fn tickets_expire_after_ten_minutes() {
    assert!(!expired_after(0));
    assert!(!expired_after(600));
    assert!(expired_after(601));
}

#[test]
fn fresh_ticket_is_not_expired() {
    let t = StreamTicket { track_id: 5, created_at: std::time::Instant::now() };
    assert!(!t.is_expired());
}

#[test]
fn pagination_defaults_and_cap() {
    assert_eq!(PaginationParams { limit: None, offset: None }.resolve(), (50, 0));
    assert_eq!(PaginationParams { limit: Some(20), offset: Some(40) }.resolve(), (20, 40));
    assert_eq!(PaginationParams { limit: Some(5000), offset: None }.resolve(), (500, 0));
}

#[test]
fn genre_definition_without_id() {
    let d = GenreDefinition { id: None, name: "Tech House".to_string(), color: Some("#6366f1".to_string()), sort_order: 2 };
    let dto = GenreDefinitionDTO::from(d);
    assert_eq!(dto.id, 0);
    assert_eq!(dto.name, "Tech House");
    assert_eq!(dto.color.as_deref(), Some("#6366f1"));
    assert_eq!(dto.sort_order, 2);
}

#[test]
fn hex_encoding_is_lower_case_two_digits_per_byte() {
    assert_eq!(hex_encode(&vec![0x00, 0x0f, 0xa5, 0xff]), "000fa5ff");
    assert_eq!(hex_encode(&vec![]), "");
}

#[test]
fn tokens_are_64_hex_digits() {
    let a = generate_token();
    let b = generate_token();
    assert_eq!(a.len(), 64);
    assert!(a.chars().all(|c| c.is_ascii_hexdigit() && !c.is_ascii_uppercase()));
    assert_ne!(a, b);
}

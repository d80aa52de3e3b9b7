use wa_api_rs::Recipient;

#[test]
fn recipient_addresses() {
    assert_eq!(Recipient::phone("1").send_to(), Some("1"));
    assert_eq!(Recipient::phone("1").business_scoped_user_id(), None);
    assert_eq!(Recipient::bsuid("B").send_to(), None);
    assert_eq!(Recipient::bsuid("B").business_scoped_user_id(), Some("B"));
    assert_eq!(Recipient::group("g").send_to(), Some("g"));
    assert!(Recipient::group("g").is_group());
    assert!(!Recipient::phone("1").is_group());
    let both = Recipient::individual(Some("2"), Some("C"));
    assert_eq!(both.send_to(), Some("2"));
    assert_eq!(both.business_scoped_user_id(), Some("C"));
    let none = Recipient::individual(None, None);
    assert_eq!(none.send_to(), None);
    assert_eq!(none.business_scoped_user_id(), None);
}

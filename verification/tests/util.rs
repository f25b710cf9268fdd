use decisionbot::records::Contact;
use decisionbot::util::{format_contact_list, parse_selections, ResponseBuilder, E164};
use std::str::FromStr;

#[test]
fn util_test_e164_parsing() {
    // Test various formats
    assert_eq!(
        E164::from_str("123-456-7890").unwrap().as_str(),
        "+11234567890"
    );
    assert_eq!(
        E164::from_str("(123) 456-7890").unwrap().as_str(),
        "+11234567890"
    );
    assert_eq!(
        E164::from_str("1234567890").unwrap().as_str(),
        "+11234567890"
    );
    assert_eq!(
        E164::from_str("11234567890").unwrap().as_str(),
        "+11234567890"
    );

    // Test with international format
    assert_eq!(
        E164::from_str("+1-123-456-7890").unwrap().as_str(),
        "+11234567890"
    );

    // Test invalid numbers
    assert!(E164::from_str("123456").is_err());
    assert!(E164::from_str("123456789012").is_err());
    assert!(E164::from_str("abcd").is_err());
}

#[test]
fn util_test_area_code() {
    let number = E164::from_str("123-456-7890").unwrap();
    assert_eq!(number.area_code(), "123");
}

#[test]
fn test_parse_selections() {
    // Test basic numeric selections
    let selections = parse_selections("1, 2, 3").unwrap();
    assert_eq!(selections.len(), 3);
    assert_eq!(selections[0].index, 0);
    assert_eq!(selections[0].sub_selection, None);

    // Test selections with letters
    let selections = parse_selections("1b, 2a").unwrap();
    assert_eq!(selections.len(), 2);
    assert_eq!(selections[0].index, 0);
    assert_eq!(selections[0].sub_selection, Some('b'));
    assert_eq!(selections[1].index, 1);
    assert_eq!(selections[1].sub_selection, Some('a'));

    // Test with spaces
    let selections = parse_selections(" 1b , 2a ").unwrap();
    assert_eq!(selections.len(), 2);
    assert_eq!(selections[0].sub_selection, Some('b'));
    assert_eq!(selections[1].sub_selection, Some('a'));
}

#[test]
fn e164_eleven_digits_must_start_with_one() {
    let err = E164::from_str("21234567890").unwrap_err();
    assert_eq!(err, "Phone number must be 10 digits (or 11 digits starting with 1)");
    assert_eq!(E164::from_str("1 (987) 654-3210").unwrap().to_string(), "+19876543210");
}

#[test]
fn e164_reparse_keeps_number() {
    let e = E164::from_str("(987) 654-3210").unwrap();
    let again = E164::from_str(e.as_str()).unwrap();
    assert_eq!(again.as_str(), e.as_str());
    assert_eq!(again.area_code(), "987");
}

#[test]
fn selection_errors() {
    assert_eq!(parse_selections("abc").err().unwrap(), "Invalid selection format: abc");
    assert_eq!(parse_selections("").err().unwrap(), "Invalid selection format: ");
    assert_eq!(parse_selections("1, 0").err().unwrap(), "Selection numbers must be greater than 0");
    assert_eq!(parse_selections("1, x2").err().unwrap(), "Invalid selection format: x2");
    assert_eq!(parse_selections("2C").unwrap()[0].sub_selection, Some('c'));
    assert_eq!(parse_selections("+3").unwrap()[0].index, 2);
    assert_eq!(parse_selections("1,,2, ").unwrap().len(), 2);
    assert!(parse_selections("99999999999999999999999").is_err());
}

#[test]
fn contact_list_lines() {
    let contacts = vec![
        Contact { id: 1, contact_name: "Alice".to_string(), contact_user_number: "+19876543210".to_string() },
        Contact { id: 2, contact_name: "Bob".to_string(), contact_user_number: "12".to_string() },
    ];
    assert_eq!(format_contact_list(&contacts, 2), "3. Alice (987)\n4. Bob (???)");
    assert_eq!(format_contact_list(&[], 0), "");
}

#[test]
fn response_builder_sections() {
    let mut b = ResponseBuilder::new();
    b.add_section("");
    b.add_titled("Found", "x\ny".to_string());
    b.add_section("reply");
    b.add_errors(&["e1".to_string(), "e2".to_string()]);
    assert_eq!(b.build(), "Found:\nx\ny\nreply\nErrors:\ne1\ne2");
    let mut c = ResponseBuilder::new();
    c.add_errors(&[]);
    c.add_titled("T", String::new());
    assert_eq!(c.build(), "");
}

#[test]
fn test_e164_parsing() {
    assert_eq!(E164::from_str("123-456-7890").unwrap().as_str(), "+11234567890");
    assert_eq!(E164::from_str("(123) 456-7890").unwrap().as_str(), "+11234567890");
    assert_eq!(E164::from_str("1234567890").unwrap().as_str(), "+11234567890");
    assert_eq!(E164::from_str("11234567890").unwrap().as_str(), "+11234567890");
    assert_eq!(E164::from_str("+1-123-456-7890").unwrap().as_str(), "+11234567890");
    assert!(E164::from_str("123456").is_err());
    assert!(E164::from_str("123456789012").is_err());
    assert!(E164::from_str("abcd").is_err());
}

#[test]
fn test_area_code() {
    let number = E164::from_str("123-456-7890").unwrap();
    assert_eq!(number.area_code(), "123");
}

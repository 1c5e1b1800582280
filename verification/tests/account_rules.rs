use monzo_cli::{obfuscate, resolve_type, AccountType, Error};

#[test]
fn obfuscate_masks_all_but_the_last_four() {
    assert_eq!(obfuscate("12345678").unwrap(), "****5678");
}

#[test]
fn obfuscate_of_exactly_four_masks_nothing() {
    assert_eq!(obfuscate("1234").unwrap(), "1234");
}

#[test]
fn obfuscate_keeps_the_length() {
    let masked = obfuscate("000000012345678").unwrap();
    assert_eq!(masked.len(), 15);
    assert_eq!(masked, "***********5678");
}

#[test]
fn obfuscate_rejects_a_number_too_short_to_mask() {
    assert_eq!(obfuscate("123"), Err(Error::InvalidInput));
    assert_eq!(obfuscate(""), Err(Error::InvalidInput));
}

#[test]
fn resolve_type_maps_the_known_tags() {
    assert_eq!(resolve_type(AccountType::UkRetail).unwrap(), "personal");
    assert_eq!(resolve_type(AccountType::UkRetailJoint).unwrap(), "joint");
    assert_eq!(resolve_type(AccountType::UkBusiness).unwrap(), "business");
}

#[test]
fn resolve_type_refuses_an_unrecognised_tag() {
    assert_eq!(resolve_type(AccountType::Other), Err(Error::UnsupportedAccountType));
}

use b2_buckets::error::BucketValidationError;
use b2_buckets::name::check_name;
use b2_buckets::name::validated_bucket_name;
use b2_buckets::name::validated_cors_rule_name;
use b2_buckets::name::NameFault;

#[test]
fn names_have_six_to_fifty_characters() {
    assert_eq!(check_name(""), Some(NameFault::BadLength(0)));
    assert_eq!(check_name("abcde"), Some(NameFault::BadLength(5)));
    assert_eq!(check_name("abcdef"), None);
    assert_eq!(check_name(&"x".repeat(50)), None);
    assert_eq!(check_name(&"x".repeat(51)), Some(NameFault::BadLength(51)));
    assert_eq!(check_name("\u{e9}\u{e9}\u{e9}"), Some(NameFault::BadLength(3)));
}

#[test]
fn names_hold_letters_digits_and_hyphens() {
    assert_eq!(check_name("Testing-123"), None);
    assert_eq!(check_name("under_score"), Some(NameFault::InvalidChar('_')));
    assert_eq!(check_name("a.b c.d"), Some(NameFault::InvalidChar('.')));
    assert_eq!(check_name("caf\u{e9}-bucket"), Some(NameFault::InvalidChar('\u{e9}')));
}

#[test]
fn reserved_prefix_is_refused() {
    assert_eq!(check_name("b2-bucket"), Some(NameFault::ReservedPrefix));
    assert_eq!(check_name("B2-bucket"), None);
    assert_eq!(check_name("b2bucket"), None);
    assert_eq!(check_name("b2-_bucket"), Some(NameFault::InvalidChar('_')));
}

#[test]
fn validated_names_come_back_as_strings() {
    assert_eq!(validated_bucket_name("testing-b2-client"), Ok("testing-b2-client".to_string()));
    assert_eq!(validated_bucket_name("b2-x"), Err(BucketValidationError::BadNameLength(4)));
    assert_eq!(validated_bucket_name("bad/name"), Err(BucketValidationError::InvalidChar('/')));
    assert_eq!(validated_bucket_name("b2-name"), Err(BucketValidationError::ReservedPrefix));
    assert_eq!(validated_cors_rule_name("downloads"), Ok("downloads".to_string()));
}

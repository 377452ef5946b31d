use b2_buckets::encryption::EncryptionAlgorithm;
use b2_buckets::encryption::InnerEncryptionConfig;
use b2_buckets::encryption::InnerSelfEncryption;
use b2_buckets::encryption::Mode;
use b2_buckets::encryption::SelfManagedEncryption;
use b2_buckets::encryption::ServerSideEncryption;
use b2_buckets::error::DataIntegrityError;
use serde_json::Value;

/// The JSON object of a setting: the mode always, `null` without one, and the
/// companions that the record holds.
fn to_value(setting: ServerSideEncryption) -> Value {
    let record = InnerEncryptionConfig::from(setting);
    let mut object = serde_json::Map::new();
    let mode = match record.mode {
        Some(mode) => Value::String(mode.name().to_string()),
        None => Value::Null,
    };
    object.insert("mode".to_string(), mode);
    if let Some(algorithm) = record.algorithm {
        object.insert("algorithm".to_string(), Value::String(algorithm.name().to_string()));
    }
    if let Some(key) = record.customer_key {
        object.insert("customerKey".to_string(), Value::String(key));
    }
    if let Some(digest) = record.customer_key_md5 {
        object.insert("customerKeyMd5".to_string(), Value::String(digest));
    }
    Value::Object(object)
}

fn text_member(object: &Value, key: &str) -> Option<String> {
    object.get(key).and_then(|v| v.as_str()).map(|s| s.to_string())
}

/// The setting that a JSON object stands for.
fn from_value(object: Value) -> Result<ServerSideEncryption, DataIntegrityError> {
    let mode = text_member(&object, "mode").map(|name| Mode::from_name(&name).unwrap());
    let algorithm =
        text_member(&object, "algorithm").map(|name| EncryptionAlgorithm::from_name(&name).unwrap());
    let record = InnerEncryptionConfig {
        mode,
        algorithm,
        customer_key: text_member(&object, "customerKey"),
        customer_key_md5: text_member(&object, "customerKeyMd5"),
    };
    ServerSideEncryption::try_from(record)
}

fn object(members: &[(&str, Option<&str>)]) -> Value {
    let mut object = serde_json::Map::new();
    for (key, value) in members {
        let value = match value {
            Some(text) => Value::String(text.to_string()),
            None => Value::Null,
        };
        object.insert(key.to_string(), value);
    }
    Value::Object(object)
}

fn self_managed() -> ServerSideEncryption {
    ServerSideEncryption::SelfManaged(SelfManagedEncryption {
        algorithm: EncryptionAlgorithm::Aes256,
        key: "MY-ENCODED-KEY".into(),
        digest: "ENCODED-DIGEST".into(),
    })
}

#[test]
fn no_encryption_to_json() {
    assert_eq!(to_value(ServerSideEncryption::NoEncryption), object(&[("mode", None)]));
}

#[test]
fn no_encryption_from_json() {
    let enc: ServerSideEncryption = from_value(object(&[("mode", None)])).unwrap();

    assert_eq!(enc, ServerSideEncryption::NoEncryption);
}

#[test]
fn b2_encryption_to_json() {
    let json = to_value(ServerSideEncryption::B2Managed(EncryptionAlgorithm::Aes256));

    assert_eq!(json, object(&[("mode", Some("SSE-B2")), ("algorithm", Some("AES256"))]));
}

#[test]
fn b2_encryption_from_json() {
    let enc: ServerSideEncryption =
        from_value(object(&[("mode", Some("SSE-B2")), ("algorithm", Some("AES256"))])).unwrap();

    assert_eq!(enc, ServerSideEncryption::B2Managed(EncryptionAlgorithm::Aes256));
}

#[test]
fn self_encryption_to_json() {
    let json = to_value(self_managed());

    assert_eq!(
        json,
        object(&[
            ("mode", Some("SSE-C")),
            ("algorithm", Some("AES256")),
            ("customerKey", Some("MY-ENCODED-KEY")),
            ("customerKeyMd5", Some("ENCODED-DIGEST")),
        ])
    );
}

#[test]
fn self_encryption_from_json() {
    let enc: ServerSideEncryption = from_value(object(&[
        ("mode", Some("SSE-C")),
        ("algorithm", Some("AES256")),
        ("customerKey", Some("MY-ENCODED-KEY")),
        ("customerKeyMd5", Some("ENCODED-DIGEST")),
    ]))
    .unwrap();

    assert_eq!(enc, self_managed());
}

#[test]
fn every_setting_survives_the_round_trip() {
    let settings = [
        ServerSideEncryption::NoEncryption,
        ServerSideEncryption::B2Managed(EncryptionAlgorithm::Aes256),
        self_managed(),
        ServerSideEncryption::SelfManaged(SelfManagedEncryption::new(
            EncryptionAlgorithm::Aes256,
            "secret",
        )),
    ];
    for setting in settings {
        let record = InnerEncryptionConfig::from(setting.clone());
        assert_eq!(ServerSideEncryption::try_from(record), Ok(setting));
    }
}

fn record(
    mode: Option<Mode>,
    algorithm: bool,
    customer_key: bool,
    customer_key_md5: bool,
) -> InnerEncryptionConfig {
    InnerEncryptionConfig {
        mode,
        algorithm: if algorithm { Some(EncryptionAlgorithm::Aes256) } else { None },
        customer_key: if customer_key { Some("KEY".to_string()) } else { None },
        customer_key_md5: if customer_key_md5 { Some("MD5".to_string()) } else { None },
    }
}

#[test]
fn customer_mode_without_key_is_a_data_integrity_error() {
    assert_eq!(
        ServerSideEncryption::try_from(record(Some(Mode::SelfManaged), true, false, true)),
        Err(DataIntegrityError::MissingKey)
    );
    assert_eq!(
        from_value(object(&[
            ("mode", Some("SSE-C")),
            ("algorithm", Some("AES256")),
            ("customerKeyMd5", Some("ENCODED-DIGEST")),
        ])),
        Err(DataIntegrityError::MissingKey)
    );
}

#[test]
fn records_with_missing_or_stray_companions_are_refused() {
    let cases = [
        (record(Some(Mode::SelfManaged), false, true, true), DataIntegrityError::MissingAlgorithm),
        (record(Some(Mode::SelfManaged), false, false, false), DataIntegrityError::MissingAlgorithm),
        (record(Some(Mode::SelfManaged), true, false, false), DataIntegrityError::MissingKey),
        (record(Some(Mode::SelfManaged), true, true, false), DataIntegrityError::MissingKeyDigest),
        (record(Some(Mode::B2Managed), false, false, false), DataIntegrityError::MissingAlgorithm),
        (record(Some(Mode::B2Managed), true, true, false), DataIntegrityError::UnexpectedKey),
        (record(Some(Mode::B2Managed), true, false, true), DataIntegrityError::UnexpectedKeyDigest),
        (record(None, true, false, false), DataIntegrityError::UnexpectedAlgorithm),
        (record(None, false, true, true), DataIntegrityError::UnexpectedKey),
        (record(None, false, false, true), DataIntegrityError::UnexpectedKeyDigest),
    ];
    for (record, fault) in cases {
        assert_eq!(ServerSideEncryption::try_from(record.clone()), Err(fault), "{:?}", record);
    }
}

#[test]
fn new_setting_holds_key_and_digest_in_base64() {
    let enc = SelfManagedEncryption::new(EncryptionAlgorithm::Aes256, "hello world");
    assert_eq!(enc.algorithm, EncryptionAlgorithm::Aes256);
    assert_eq!(enc.key, "aGVsbG8gd29ybGQ=");
    assert_eq!(enc.digest, "XrY7u+Ae7tCTyyK7j1rNww==");
    let empty = SelfManagedEncryption::new(EncryptionAlgorithm::Aes256, "");
    assert_eq!(empty.key, "");
    assert_eq!(empty.digest, "1B2M2Y8AsgTpgAmY7PhCfg==");
}

#[test]
fn headers_announce_the_setting() {
    assert_eq!(ServerSideEncryption::NoEncryption.to_headers(), None);
    assert_eq!(
        ServerSideEncryption::B2Managed(EncryptionAlgorithm::Aes256).to_headers(),
        Some(vec![("X-Bz-Server-Side-Encryption", "AES256".to_string())])
    );
    assert_eq!(
        self_managed().to_headers(),
        Some(vec![
            ("X-Bz-Server-Side-Encryption", "AES256".to_string()),
            ("X-Bz-Server-Side-Encryption-Customer-Key", "MY-ENCODED-KEY".to_string()),
            ("X-Bz-Server-Side-Encryption-Customer-Key-Md5", "ENCODED-DIGEST".to_string()),
        ])
    );
}

#[test]
fn default_setting_is_no_encryption() {
    assert_eq!(ServerSideEncryption::default(), ServerSideEncryption::NoEncryption);
}

#[test]
fn modes_and_algorithms_have_their_wire_names() {
    assert_eq!(Mode::B2Managed.name(), "SSE-B2");
    assert_eq!(Mode::SelfManaged.name(), "SSE-C");
    assert_eq!(EncryptionAlgorithm::Aes256.name(), "AES256");
    assert_eq!(Mode::from_name("SSE-B2"), Some(Mode::B2Managed));
    assert_eq!(Mode::from_name("SSE-C"), Some(Mode::SelfManaged));
    assert_eq!(Mode::from_name("sse-c"), None);
    assert_eq!(Mode::from_name(""), None);
    assert_eq!(EncryptionAlgorithm::from_name("AES256"), Some(EncryptionAlgorithm::Aes256));
    assert_eq!(EncryptionAlgorithm::from_name("AES128"), None);
}

#[test]
fn self_managed_record_needs_its_mode() {
    let setting = SelfManagedEncryption::new(EncryptionAlgorithm::Aes256, "key");
    let record = InnerSelfEncryption::from(setting.clone());
    assert_eq!(record.mode, Mode::SelfManaged);
    assert_eq!(record.customer_key, setting.key);
    assert_eq!(record.customer_key_md5, setting.digest);
    assert_eq!(SelfManagedEncryption::try_from(record.clone()), Ok(setting));
    let other = InnerSelfEncryption { mode: Mode::B2Managed, ..record };
    assert_eq!(SelfManagedEncryption::try_from(other), Err(DataIntegrityError::NotSelfManaged));
}

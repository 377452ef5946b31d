use b2_buckets::cors::check_header;
use b2_buckets::cors::check_headers;
use b2_buckets::cors::validated_http_header;
use b2_buckets::cors::CorsOperation;
use b2_buckets::cors::CorsRule;
use b2_buckets::error::BadHeaderName;
use b2_buckets::error::CorsRuleValidationError;
use b2_buckets::error::Subject;
use b2_buckets::error::ValidationError;
use b2_buckets::time::Duration;

#[test]
fn cors_rule_validates_origins() {
    let valid_origins: [Vec<String>; 5] = [
        vec!["https://*".into(), "http://*".into()],
        vec!["*".into()],
        vec!["https://example.com".into(), "http://example.com:1234".into()],
        vec!["https://*:8765".into(), "http://www.example.com:4545".into()],
        vec!["https://*.example.com".into(), "http://www.example.com".into()],
    ];

    for origin_list in valid_origins {
        let _ = CorsRule::builder().allowed_origins(origin_list).unwrap();
    }

    let bad_origins: [Vec<String>; 6] = [
        vec!["*".into(), "https://*".into()],
        vec!["https".into(), "http".into(), "http://example.com:1234".into()],
        vec!["ftp://example.com".into()],
        vec!["ftp://*.*.example.com".into()],
        vec!["https://*:8765".into(), "www.example.com:4545".into()],
        vec!["https://*:8765".into(), "https://www.example.com:4545".into()],
    ];

    for origin_list in bad_origins {
        let rule = CorsRule::builder().allowed_origins(origin_list);

        assert!(rule.is_err(), "{:?}", rule);
    }
}

fn filler(len: usize) -> String {
    "a".repeat(len)
}

fn rule_with_age(age: Duration) -> CorsRule {
    CorsRule::builder()
        .name("rule-name1")
        .unwrap()
        .allowed_origins(vec!["*".to_string()])
        .unwrap()
        .allowed_operations(vec![CorsOperation::S3Get])
        .unwrap()
        .max_age(age)
        .unwrap()
        .build()
        .unwrap()
}

/// A builder whose rule holds `extra` bytes of header names beside 32
/// bytes of other strings: a name of 10 bytes, an origin of 1 and two
/// operation tags of 14 and 7.
fn rule_of_size(extra: &[usize]) -> Result<CorsRule, ValidationError> {
    let mut builder = CorsRule::builder()
        .name("rule-name1")
        .unwrap()
        .allowed_origins(vec!["*".to_string()])
        .unwrap()
        .allowed_operations(vec![CorsOperation::UploadFile, CorsOperation::S3Head])
        .unwrap()
        .max_age(Duration::seconds(60))
        .unwrap();
    for len in extra {
        builder = builder.add_exposed_header(&filler(*len)).unwrap();
    }
    builder.build()
}

#[test]
fn rule_with_999_bytes_is_accepted() {
    let rule = rule_of_size(&[500, 467]).unwrap();
    let bytes = rule.name().len()
        + rule.allowed_origins().iter().map(|s| s.len()).sum::<usize>()
        + rule.allowed_operations().iter().map(|op| op.name().len()).sum::<usize>()
        + rule.expose_headers().unwrap().iter().map(|s| s.len()).sum::<usize>();
    assert_eq!(bytes, 999);
}

#[test]
fn rule_with_1000_bytes_is_rejected() {
    assert_eq!(
        rule_of_size(&[500, 468]).unwrap_err(),
        ValidationError::OutOfBounds(Subject::CorsRuleSize)
    );
}

#[test]
fn rule_size_counts_allowed_headers_and_bytes_not_characters() {
    let base = CorsRule::builder()
        .name("rule-name1")
        .unwrap()
        .allowed_origins(vec!["*".to_string()])
        .unwrap()
        .allowed_operations(vec![CorsOperation::UploadFile, CorsOperation::S3Head])
        .unwrap()
        .max_age(Duration::seconds(60))
        .unwrap();
    let rejected = base.allowed_headers(vec![filler(968)]).unwrap().build();
    assert_eq!(rejected.unwrap_err(), ValidationError::OutOfBounds(Subject::CorsRuleSize));

    let accepted = CorsRule::builder()
        .name("rule-name1")
        .unwrap()
        .allowed_origins(vec!["*".to_string()])
        .unwrap()
        .allowed_operations(vec![CorsOperation::UploadFile, CorsOperation::S3Head])
        .unwrap()
        .max_age(Duration::seconds(60))
        .unwrap()
        .allowed_headers(vec![filler(967)])
        .unwrap()
        .build();
    assert!(accepted.is_ok());
}

#[test]
fn build_reports_the_first_missing_part() {
    assert_eq!(
        CorsRule::builder().build().unwrap_err(),
        ValidationError::MissingData(Subject::CorsRuleName)
    );
    let named = CorsRule::builder().name("rule-name1").unwrap();
    assert_eq!(named.build().unwrap_err(), ValidationError::MissingData(Subject::MaxAge));
    let aged = CorsRule::builder()
        .name("rule-name1")
        .unwrap()
        .max_age(Duration::zero())
        .unwrap();
    assert_eq!(aged.build().unwrap_err(), ValidationError::MissingData(Subject::AllowedOrigins));
    let with_origin = CorsRule::builder()
        .name("rule-name1")
        .unwrap()
        .max_age(Duration::zero())
        .unwrap()
        .add_allowed_origin("https")
        .unwrap();
    assert_eq!(
        with_origin.build().unwrap_err(),
        ValidationError::MissingData(Subject::AllowedOperations)
    );
}

#[test]
fn built_cors_rule_holds_what_was_set() {
    let rule = CorsRule::builder()
        .name("downloads")
        .unwrap()
        .add_allowed_origin("https://*.example.com")
        .unwrap()
        .add_allowed_origin("http")
        .unwrap()
        .add_allowed_operation(CorsOperation::DownloadFileByName)
        .add_allowed_operation(CorsOperation::DownloadFileById)
        .add_allowed_header("x-bz-*")
        .unwrap()
        .add_allowed_header("range")
        .unwrap()
        .exposed_headers(vec!["x-bz-content-sha1".to_string()])
        .unwrap()
        .max_age(Duration::seconds(3600))
        .unwrap()
        .build()
        .unwrap();
    assert_eq!(rule.name(), "downloads");
    assert_eq!(
        rule.allowed_origins(),
        &vec!["https://*.example.com".to_string(), "http".to_string()]
    );
    assert_eq!(
        rule.allowed_operations(),
        &vec![CorsOperation::DownloadFileByName, CorsOperation::DownloadFileById]
    );
    assert_eq!(rule.allowed_headers(), Some(&vec!["x-bz-*".to_string(), "range".to_string()]));
    assert_eq!(rule.expose_headers(), Some(&vec!["x-bz-content-sha1".to_string()]));
    assert_eq!(rule.max_age_seconds(), 3600);
}

#[test]
fn empty_operations_are_refused() {
    let r = CorsRule::builder().allowed_operations(vec![]);
    assert_eq!(r.unwrap_err(), ValidationError::MissingData(Subject::AllowedOperations));
}

#[test]
fn rule_names_are_checked() {
    assert_eq!(
        CorsRule::builder().name("short").unwrap_err(),
        CorsRuleValidationError::BadNameLength(5)
    );
    assert_eq!(
        CorsRule::builder().name(&filler(51)).unwrap_err(),
        CorsRuleValidationError::BadNameLength(51)
    );
    assert_eq!(
        CorsRule::builder().name("rule name").unwrap_err(),
        CorsRuleValidationError::InvalidChar(' ')
    );
    assert_eq!(
        CorsRule::builder().name("b2-rules").unwrap_err(),
        CorsRuleValidationError::ReservedPrefix
    );
    assert!(CorsRule::builder().name("sixsix").is_ok());
    assert!(CorsRule::builder().name(&filler(50)).is_ok());
}

#[test]
fn max_age_is_held_to_a_day() {
    assert_eq!(
        CorsRule::builder().max_age(Duration::new(-1, 999_999_999).unwrap()).unwrap_err(),
        ValidationError::OutOfBounds(Subject::MaxAge)
    );
    assert_eq!(
        CorsRule::builder().max_age(Duration::new(86_400, 1).unwrap()).unwrap_err(),
        ValidationError::OutOfBounds(Subject::MaxAge)
    );
    assert_eq!(rule_with_age(Duration::days(1)).max_age_seconds(), 86_400);
    assert_eq!(rule_with_age(Duration::seconds(65_536)).max_age_seconds(), 65_536);
    assert_eq!(rule_with_age(Duration::new(59, 999_999_999).unwrap()).max_age_seconds(), 59);
    assert_eq!(rule_with_age(Duration::zero()).max_age_seconds(), 0);
}

#[test]
fn header_entries_are_checked() {
    assert_eq!(check_header("", true), Some(BadHeaderName::Empty));
    assert_eq!(check_header("content-type", false), None);
    assert_eq!(check_header("x-bz-*", true), None);
    assert_eq!(check_header("*", true), None);
    assert_eq!(check_header("x-bz-*", false), Some(BadHeaderName::InvalidChar('*')));
    assert_eq!(check_header("x-*-bz", true), Some(BadHeaderName::InvalidChar('*')));
    assert_eq!(check_header("bad header:", true), Some(BadHeaderName::InvalidChar(' ')));
    assert_eq!(validated_http_header("range"), Ok("range"));
    assert_eq!(validated_http_header("ra nge"), Err(BadHeaderName::InvalidChar(' ')));
}

#[test]
fn header_lists_are_checked() {
    let alone = vec!["*".to_string()];
    assert_eq!(check_headers(&alone, true), None);
    let company = vec!["range".to_string(), "*".to_string()];
    assert_eq!(check_headers(&company, true), Some(BadHeaderName::WildcardNotAlone));
    let faulty = vec!["range".to_string(), "a b".to_string(), "".to_string()];
    assert_eq!(check_headers(&faulty, true), Some(BadHeaderName::InvalidChar(' ')));
    assert_eq!(
        CorsRule::builder().add_allowed_header("*").unwrap().add_allowed_header("range").unwrap_err(),
        BadHeaderName::WildcardNotAlone
    );
    assert_eq!(
        CorsRule::builder().add_exposed_header("x-*").unwrap_err(),
        BadHeaderName::InvalidChar('*')
    );
    assert!(CorsRule::builder().allowed_headers(vec![]).is_ok());
    assert_eq!(
        CorsRule::builder().exposed_headers(vec!["".to_string()]).unwrap_err(),
        BadHeaderName::Empty
    );
}

#[test]
fn operations_have_their_wire_names() {
    assert_eq!(CorsOperation::DownloadFileByName.name(), "b2_download_file_by_name");
    assert_eq!(CorsOperation::DownloadFileById.name(), "b2_download_file_by_id");
    assert_eq!(CorsOperation::UploadFile.name(), "b2_upload_file");
    assert_eq!(CorsOperation::UploadPart.name(), "b2_upload_part");
    assert_eq!(CorsOperation::S3Delete.name(), "s3_delete");
    assert_eq!(CorsOperation::S3Get.name(), "s3_get");
    assert_eq!(CorsOperation::S3Head.name(), "s3_head");
    assert_eq!(CorsOperation::S3Post.name(), "s3_post");
    assert_eq!(CorsOperation::S3Put.name(), "s3_put");
    let all = [
        CorsOperation::DownloadFileByName,
        CorsOperation::DownloadFileById,
        CorsOperation::UploadFile,
        CorsOperation::UploadPart,
        CorsOperation::S3Delete,
        CorsOperation::S3Get,
        CorsOperation::S3Head,
        CorsOperation::S3Post,
        CorsOperation::S3Put,
    ];
    for operation in all {
        assert_eq!(CorsOperation::from_name(operation.name()), Some(operation));
    }
    assert_eq!(CorsOperation::from_name("s3_patch"), None);
    assert_eq!(CorsOperation::from_name("\"s3_put\""), None);
}

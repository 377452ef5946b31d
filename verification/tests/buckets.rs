use b2_buckets::bucket::has_capability;
use b2_buckets::bucket::prepare_create_bucket;
use b2_buckets::bucket::prepare_delete_bucket;
use b2_buckets::bucket::prepare_list_buckets;
use b2_buckets::bucket::prepare_update_bucket;
use b2_buckets::bucket::require_capabilities;
use b2_buckets::bucket::Bucket;
use b2_buckets::bucket::BucketEncryptionInfo;
use b2_buckets::bucket::BucketFilter;
use b2_buckets::bucket::BucketRef;
use b2_buckets::bucket::BucketType;
use b2_buckets::bucket::Capability;
use b2_buckets::bucket::CreateBucket;
use b2_buckets::bucket::DeleteBucket;
use b2_buckets::bucket::InnerListBuckets;
use b2_buckets::bucket::ListBuckets;
use b2_buckets::bucket::MissingCapability;
use b2_buckets::bucket::UpdateBucket;
use b2_buckets::cors::CorsOperation;
use b2_buckets::cors::CorsRule;
use b2_buckets::encryption::EncryptionAlgorithm;
use b2_buckets::encryption::InnerEncryptionConfig;
use b2_buckets::encryption::Mode;
use b2_buckets::encryption::ServerSideEncryption;
use b2_buckets::error::BucketValidationError;
use b2_buckets::error::Subject;
use b2_buckets::error::ValidationError;
use b2_buckets::lifecycle::Conflict;
use b2_buckets::lifecycle::LifecycleRule;
use b2_buckets::lifecycle::LifecycleRuleValidationError;
use b2_buckets::retention::FileRetentionMode;
use b2_buckets::retention::FileRetentionPolicy;
use b2_buckets::retention::InnerRetentionPolicy;
use b2_buckets::time::Duration;
use serde_json::Value;

fn rule(prefix: &str) -> LifecycleRule {
    LifecycleRule::builder()
        .filename_prefix(prefix)
        .unwrap()
        .delete_after_hide(Duration::days(5))
        .unwrap()
        .build()
        .unwrap()
}

fn cors_rule(name: &str) -> CorsRule {
    CorsRule::builder()
        .name(name)
        .unwrap()
        .add_allowed_origin("https")
        .unwrap()
        .add_allowed_operation(CorsOperation::S3Get)
        .max_age(Duration::seconds(10))
        .unwrap()
        .build()
        .unwrap()
}

fn object(members: &[(&str, &str)]) -> Value {
    let mut object = serde_json::Map::new();
    for (key, value) in members {
        object.insert(key.to_string(), Value::String(value.to_string()));
    }
    Value::Object(object)
}

fn missing(capability: Capability) -> MissingCapability {
    MissingCapability { capability }
}

#[test]
fn create_request_holds_what_was_set() {
    let request = CreateBucket::builder()
        .name("testing-new-b2-client")
        .unwrap()
        .bucket_type(BucketType::Private)
        .unwrap()
        .lifecycle_rules(vec![rule("my-files/")])
        .unwrap()
        .cors_rules(vec![cors_rule("downloads")])
        .unwrap()
        .with_file_lock()
        .encryption_settings(ServerSideEncryption::B2Managed(EncryptionAlgorithm::Aes256))
        .build()
        .unwrap();
    assert_eq!(request.account_id(), None);
    assert_eq!(request.bucket_name(), "testing-new-b2-client");
    assert_eq!(request.bucket_type(), BucketType::Private);
    assert_eq!(request.bucket_info(), None);
    assert_eq!(request.cors_rules(), Some(&vec![cors_rule("downloads")]));
    assert!(request.file_lock_enabled());
    assert_eq!(request.lifecycle_rules(), Some(&vec![rule("my-files/")]));
    assert_eq!(
        request.default_server_side_encryption(),
        Some(&ServerSideEncryption::B2Managed(EncryptionAlgorithm::Aes256))
    );
}

#[test]
fn create_request_needs_name_and_type() {
    assert_eq!(
        CreateBucket::builder().build().unwrap_err(),
        ValidationError::MissingData(Subject::BucketName)
    );
    assert_eq!(
        CreateBucket::builder().name("bucket-one").unwrap().build().unwrap_err(),
        ValidationError::MissingData(Subject::BucketType)
    );
    assert_eq!(
        CreateBucket::builder().bucket_type(BucketType::Public).unwrap().build().unwrap_err(),
        ValidationError::MissingData(Subject::BucketName)
    );
}

#[test]
fn snapshot_buckets_cannot_be_asked_for() {
    let refused = ValidationError::OutOfBounds(Subject::BucketType);
    assert_eq!(CreateBucket::builder().bucket_type(BucketType::Snapshot).unwrap_err(), refused);
    assert_eq!(UpdateBucket::builder().bucket_type(BucketType::Snapshot).unwrap_err(), refused);
    assert!(UpdateBucket::builder().bucket_type(BucketType::Public).is_ok());
}

#[test]
fn bucket_names_are_checked_by_the_builders() {
    assert_eq!(
        CreateBucket::builder().name("b2-bucket").unwrap_err(),
        BucketValidationError::ReservedPrefix
    );
    assert_eq!(
        ListBuckets::builder().bucket_name("tiny").unwrap_err(),
        BucketValidationError::BadNameLength(4)
    );
}

#[test]
fn bucket_info_must_be_an_object() {
    let refused = ValidationError::BadFormat(Subject::BucketInfo);
    assert_eq!(
        CreateBucket::builder().bucket_info(Value::String("x".to_string())).unwrap_err(),
        refused
    );
    assert_eq!(CreateBucket::builder().bucket_info(Value::Null).unwrap_err(), refused);
    assert!(CreateBucket::builder().bucket_info(object(&[])).is_ok());
}

#[test]
fn cache_control_is_worked_into_the_bucket_info() {
    let request = CreateBucket::builder()
        .name("bucket-one")
        .unwrap()
        .bucket_type(BucketType::Public)
        .unwrap()
        .cache_control("max-age=600".to_string())
        .build()
        .unwrap();
    assert_eq!(request.bucket_info(), Some(&object(&[("Cache-Control", "max-age=600")])));

    let request = CreateBucket::builder()
        .name("bucket-one")
        .unwrap()
        .bucket_type(BucketType::Public)
        .unwrap()
        .bucket_info(object(&[("Cache-Control", "no-store"), ("owner", "me")]))
        .unwrap()
        .cache_control("max-age=600".to_string())
        .build()
        .unwrap();
    assert_eq!(
        request.bucket_info(),
        Some(&object(&[("Cache-Control", "max-age=600"), ("owner", "me")]))
    );

    let request = CreateBucket::builder()
        .name("bucket-one")
        .unwrap()
        .bucket_type(BucketType::Public)
        .unwrap()
        .bucket_info(object(&[("owner", "me")]))
        .unwrap()
        .build()
        .unwrap();
    assert_eq!(request.bucket_info(), Some(&object(&[("owner", "me")])));
}

#[test]
fn update_leaves_info_that_is_no_object_alone() {
    let request = UpdateBucket::builder()
        .bucket_id("8d625eb63be2775577c70e1a")
        .bucket_info(Value::Bool(true))
        .cache_control("max-age=600".to_string())
        .build()
        .unwrap();
    assert_eq!(request.bucket_info(), Some(&Value::Bool(true)));
    let request = UpdateBucket::builder()
        .bucket_id("8d625eb63be2775577c70e1a")
        .cache_control("max-age=600".to_string())
        .build()
        .unwrap();
    assert_eq!(request.bucket_info(), Some(&object(&[("Cache-Control", "max-age=600")])));
}

#[test]
fn at_most_100_cors_rules() {
    let many: Vec<CorsRule> = (0..101).map(|_| cors_rule("downloads")).collect();
    assert_eq!(
        CreateBucket::builder().cors_rules(many.clone()).unwrap_err(),
        ValidationError::OutOfBounds(Subject::CorsRules)
    );
    assert_eq!(
        UpdateBucket::builder().cors_rules(many.clone()).unwrap_err(),
        ValidationError::OutOfBounds(Subject::CorsRules)
    );
    let full: Vec<CorsRule> = many[..100].to_vec();
    assert!(CreateBucket::builder().cors_rules(full).is_ok());
    let request = UpdateBucket::builder()
        .bucket_id("id")
        .cors_rules(vec![cors_rule("downloads")])
        .unwrap()
        .cors_rules(vec![])
        .unwrap()
        .build()
        .unwrap();
    assert_eq!(request.cors_rules(), Some(&vec![cors_rule("downloads")]));
}

#[test]
fn conflicting_lifecycle_rules_are_refused_by_the_builders() {
    let report = LifecycleRuleValidationError::ConflictingRules(vec![Conflict {
        prefix: "Legal/".to_string(),
        covered: vec!["Legal/Taxes/".to_string()],
    }]);
    assert_eq!(
        CreateBucket::builder()
            .lifecycle_rules(vec![rule("Legal/Taxes/"), rule("Legal/")])
            .unwrap_err(),
        report
    );
    assert_eq!(
        UpdateBucket::builder()
            .lifecycle_rules(vec![rule("Legal/Taxes/"), rule("Legal/")])
            .unwrap_err(),
        report
    );
}

#[test]
fn update_request_holds_what_was_set() {
    let policy = FileRetentionPolicy::new(FileRetentionMode::Governance, Duration::days(7));
    let request = UpdateBucket::builder()
        .bucket_id("8d625eb63be2775577c70e1a")
        .bucket_type(BucketType::Private)
        .unwrap()
        .lifecycle_rules(vec![rule("my-files/")])
        .unwrap()
        .retention_policy(policy)
        .encryption_settings(ServerSideEncryption::NoEncryption)
        .if_revision_is(10)
        .build()
        .unwrap();
    assert_eq!(request.account_id(), None);
    assert_eq!(request.bucket_id(), "8d625eb63be2775577c70e1a");
    assert_eq!(request.bucket_type(), Some(BucketType::Private));
    assert_eq!(request.bucket_info(), None);
    assert_eq!(request.cors_rules(), None);
    assert_eq!(request.default_retention(), Some(policy));
    assert_eq!(request.default_server_side_encryption(), Some(&ServerSideEncryption::NoEncryption));
    assert_eq!(request.lifecycle_rules(), Some(&vec![rule("my-files/")]));
    assert_eq!(request.if_revision_is(), Some(10));
    assert_eq!(
        UpdateBucket::builder().if_revision_is(1).build().unwrap_err(),
        ValidationError::MissingData(Subject::BucketId)
    );
}

#[test]
fn create_needs_capabilities_for_what_it_sets() {
    let plain = CreateBucket::builder()
        .name("bucket-one")
        .unwrap()
        .bucket_type(BucketType::Private)
        .unwrap()
        .build()
        .unwrap();
    assert_eq!(
        prepare_create_bucket(&vec![Capability::ListBuckets], "account", plain.clone()).unwrap_err(),
        missing(Capability::WriteBuckets)
    );
    let ready = prepare_create_bucket(&vec![Capability::WriteBuckets], "account", plain).unwrap();
    assert_eq!(ready.account_id(), Some(&"account".to_string()));
    assert_eq!(ready.bucket_name(), "bucket-one");

    let locked = CreateBucket::builder()
        .name("bucket-one")
        .unwrap()
        .bucket_type(BucketType::Private)
        .unwrap()
        .with_file_lock()
        .encryption_settings(ServerSideEncryption::NoEncryption)
        .build()
        .unwrap();
    assert_eq!(
        prepare_create_bucket(&vec![Capability::WriteBuckets], "account", locked.clone())
            .unwrap_err(),
        missing(Capability::WriteBucketRetentions)
    );
    assert_eq!(
        prepare_create_bucket(
            &vec![Capability::WriteBucketRetentions, Capability::WriteBuckets],
            "account",
            locked.clone()
        )
        .unwrap_err(),
        missing(Capability::WriteBucketEncryption)
    );
    let all = vec![
        Capability::WriteBucketEncryption,
        Capability::WriteBucketRetentions,
        Capability::WriteBuckets,
    ];
    assert!(prepare_create_bucket(&all, "account", locked).is_ok());

    let unlocked = CreateBucket::builder()
        .name("bucket-one")
        .unwrap()
        .bucket_type(BucketType::Private)
        .unwrap()
        .with_file_lock()
        .without_file_lock()
        .build()
        .unwrap();
    assert!(prepare_create_bucket(&vec![Capability::WriteBuckets], "account", unlocked).is_ok());
}

#[test]
fn update_needs_capabilities_for_what_it_sets() {
    let plain = UpdateBucket::builder().bucket_id("id").build().unwrap();
    assert_eq!(
        prepare_update_bucket(&vec![], "account", plain.clone()).unwrap_err(),
        missing(Capability::WriteBuckets)
    );
    let ready = prepare_update_bucket(&vec![Capability::WriteBuckets], "account", plain).unwrap();
    assert_eq!(ready.account_id(), Some(&"account".to_string()));
    assert_eq!(ready.bucket_id(), "id");
    let held = UpdateBucket::builder()
        .bucket_id("id")
        .retention_policy(FileRetentionPolicy::default())
        .build()
        .unwrap();
    assert_eq!(
        prepare_update_bucket(&vec![Capability::WriteBuckets], "account", held).unwrap_err(),
        missing(Capability::WriteBucketRetentions)
    );
    let encrypted = UpdateBucket::builder()
        .bucket_id("id")
        .encryption_settings(ServerSideEncryption::NoEncryption)
        .build()
        .unwrap();
    assert_eq!(
        prepare_update_bucket(&vec![Capability::WriteBuckets], "account", encrypted).unwrap_err(),
        missing(Capability::WriteBucketEncryption)
    );
}

#[test]
fn delete_and_list_need_their_capability() {
    assert_eq!(
        prepare_delete_bucket(&vec![Capability::WriteBuckets], "account", "1234567").unwrap_err(),
        missing(Capability::DeleteBuckets)
    );
    assert_eq!(
        prepare_delete_bucket(&vec![Capability::DeleteBuckets], "account", "1234567"),
        Ok(DeleteBucket { account_id: "account".to_string(), bucket_id: "1234567".to_string() })
    );
    let request = ListBuckets::builder().build();
    assert_eq!(
        prepare_list_buckets(&vec![Capability::DeleteBuckets], "account", request.clone())
            .unwrap_err(),
        missing(Capability::ListBuckets)
    );
    let ready = prepare_list_buckets(&vec![Capability::ListBuckets], "account", request).unwrap();
    assert_eq!(ready.account_id(), Some(&"account".to_string()));
    assert_eq!(ready.bucket(), None);
    assert_eq!(ready.bucket_types(), None);
}

#[test]
fn capabilities_are_asked_for_in_order() {
    let granted = vec![Capability::ListBuckets, Capability::WriteBuckets];
    assert!(has_capability(&granted, Capability::WriteBuckets));
    assert!(!has_capability(&granted, Capability::DeleteBuckets));
    assert_eq!(require_capabilities(&granted, &vec![]), Ok(()));
    assert_eq!(
        require_capabilities(&granted, &vec![Capability::WriteBuckets, Capability::ListBuckets]),
        Ok(())
    );
    assert_eq!(
        require_capabilities(
            &granted,
            &vec![
                Capability::WriteBuckets,
                Capability::WriteBucketEncryption,
                Capability::DeleteBuckets
            ]
        ),
        Err(missing(Capability::WriteBucketEncryption))
    );
}

#[test]
fn list_request_travels_with_id_or_name() {
    let request = ListBuckets::builder().bucket_name("testing-b2-client").unwrap().build();
    assert_eq!(request.bucket(), Some(&BucketRef::Name("testing-b2-client".to_string())));
    let ready = prepare_list_buckets(&vec![Capability::ListBuckets], "abcdefg", request).unwrap();
    assert_eq!(
        InnerListBuckets::from(ready),
        InnerListBuckets {
            account_id: Some("abcdefg".to_string()),
            bucket_id: None,
            bucket_name: Some("testing-b2-client".to_string()),
            bucket_types: None,
        }
    );
    let request = ListBuckets::builder()
        .bucket_name("testing-b2-client")
        .unwrap()
        .bucket_id("hijklmno")
        .bucket_types(&[BucketType::Public, BucketType::Snapshot, BucketType::Private])
        .build();
    assert_eq!(
        request.bucket_types(),
        Some(&vec![
            BucketFilter::Type(BucketType::Public),
            BucketFilter::Type(BucketType::Snapshot),
            BucketFilter::Type(BucketType::Private),
        ])
    );
    assert_eq!(
        InnerListBuckets::from(request),
        InnerListBuckets {
            account_id: None,
            bucket_id: Some("hijklmno".to_string()),
            bucket_name: None,
            bucket_types: Some(vec![
                "allPublic".to_string(),
                "snapshot".to_string(),
                "allPrivate".to_string()
            ]),
        }
    );
    let request = ListBuckets::builder().bucket_types(&[]).with_all_bucket_types().build();
    assert_eq!(InnerListBuckets::from(request).bucket_types, Some(vec!["all".to_string()]));
}

#[test]
fn unreadable_encryption_tells_nothing() {
    let setting = ServerSideEncryption::B2Managed(EncryptionAlgorithm::Aes256);
    let shown = BucketEncryptionInfo::new(true, Some(setting.clone()));
    assert!(shown.can_read());
    assert_eq!(shown.settings(), Some(&setting));
    let hidden = BucketEncryptionInfo::new(false, Some(setting));
    assert!(!hidden.can_read());
    assert_eq!(hidden.settings(), None);
    assert_eq!(BucketEncryptionInfo::new(true, None).settings(), None);
}

fn member<'a>(value: &'a Value, key: &str) -> &'a Value {
    value.get(key).unwrap()
}

fn text(value: &Value, key: &str) -> String {
    member(value, key).as_str().unwrap().to_string()
}

fn days(value: &Value, key: &str) -> Option<Duration> {
    member(value, key).as_i64().map(Duration::days)
}

#[test]
fn deserialize_new_bucket_response() {
    let info: Value = serde_json::from_str(
        r#"{
            "accountId": "abcdefg",
            "bucketId": "hijklmno",
            "bucketInfo": {},
            "bucketName": "some-bucket-name",
            "bucketType": "allPrivate",
            "corsRules": [],
            "defaultServerSideEncryption": {
                "isClientAuthorizedToRead": true,
                "value": {
                    "algorithm": null,
                    "mode": null
                }
            },
            "fileLockConfiguration": {
                "isClientAuthorizedToRead": true,
                "value": {
                    "defaultRetention": {
                        "mode": null,
                        "period": null
                    },
                    "isFileLockEnabled": false
                }
            },
            "lifecycleRules": [
                {
                    "daysFromHidingToDeleting": 5,
                    "daysFromUploadingToHiding": null,
                    "fileNamePrefix": "my-files"
                }
            ],
            "options": ["s3"],
            "revision": 2
        }"#,
    )
    .unwrap();

    let bucket_type = BucketType::from_name(&text(&info, "bucketType")).unwrap();

    let encryption = member(&info, "defaultServerSideEncryption");
    let record = member(encryption, "value");
    let record = InnerEncryptionConfig {
        mode: member(record, "mode").as_str().map(|name| Mode::from_name(name).unwrap()),
        algorithm: member(record, "algorithm")
            .as_str()
            .map(|name| EncryptionAlgorithm::from_name(name).unwrap()),
        customer_key: None,
        customer_key_md5: None,
    };
    let encryption = BucketEncryptionInfo::new(
        member(encryption, "isClientAuthorizedToRead").as_bool().unwrap(),
        Some(ServerSideEncryption::try_from(record).unwrap()),
    );

    let retention = member(member(member(&info, "fileLockConfiguration"), "value"), "defaultRetention");
    assert!(member(retention, "mode").is_null());
    assert!(member(retention, "period").is_null());
    let retention =
        FileRetentionPolicy::try_from(InnerRetentionPolicy { mode: None, period: None }).unwrap();

    let mut lifecycle_rules = Vec::new();
    for rule in member(&info, "lifecycleRules").as_array().unwrap() {
        let mut builder =
            LifecycleRule::builder().filename_prefix(rule["fileNamePrefix"].as_str().unwrap()).unwrap();
        if let Some(span) = days(rule, "daysFromHidingToDeleting") {
            builder = builder.delete_after_hide(span).unwrap();
        }
        if let Some(span) = days(rule, "daysFromUploadingToHiding") {
            builder = builder.hide_after_upload(span).unwrap();
        }
        lifecycle_rules.push(builder.build().unwrap());
    }

    let options = member(&info, "options")
        .as_array()
        .map(|list| list.iter().map(|v| v.as_str().unwrap().to_string()).collect());

    let bucket: Bucket = Bucket::new(
        text(&info, "accountId"),
        text(&info, "bucketId"),
        text(&info, "bucketName"),
        bucket_type,
        member(&info, "bucketInfo").clone(),
        Vec::new(),
        retention,
        encryption,
        lifecycle_rules,
        member(&info, "revision").as_u64().unwrap() as u16,
        options,
    );

    assert_eq!(bucket.account_id(), "abcdefg");
    assert_eq!(bucket.bucket_id(), "hijklmno");
    assert_eq!(bucket.name(), "some-bucket-name");
    assert_eq!(bucket.bucket_type(), BucketType::Private);
    assert_eq!(bucket.info(), &Value::Object(serde_json::Map::new()));
    assert!(bucket.cors_rules().is_empty());
    assert_eq!(bucket.retention_policy(), FileRetentionPolicy::default());
    assert_eq!(bucket.encryption_info().settings(), Some(&ServerSideEncryption::NoEncryption));
    assert_eq!(bucket.lifecycle_rules().len(), 1);
    assert_eq!(bucket.lifecycle_rules()[0].file_name_prefix(), "my-files");
    assert_eq!(bucket.lifecycle_rules()[0].delete_after(), Some(5));
    assert_eq!(bucket.lifecycle_rules()[0].hide_after(), None);
    assert_eq!(bucket.revision(), 2);
    assert_eq!(bucket.options(), Some(&vec!["s3".to_string()]));
}

#[test]
fn bucket_types_have_their_wire_names() {
    assert_eq!(BucketType::Public.name(), "allPublic");
    assert_eq!(BucketType::Private.name(), "allPrivate");
    assert_eq!(BucketType::Snapshot.name(), "snapshot");
    assert_eq!(BucketFilter::All.name(), "all");
    assert_eq!(BucketFilter::Type(BucketType::Private).name(), "allPrivate");
    for typ in [BucketType::Public, BucketType::Private, BucketType::Snapshot] {
        assert_eq!(BucketType::from_name(typ.name()), Some(typ));
    }
    assert_eq!(BucketType::from_name("all"), None);
}

#[test]
fn cache_control_leaves_the_other_members_alone() {
    let info: Value =
        serde_json::from_str(r#"{"Cache-Control": 7, "day": 5, "tags": ["a"], "owner": "me"}"#)
            .unwrap();
    let expected: Value = serde_json::from_str(
        r#"{"Cache-Control": "no-cache", "day": 5, "tags": ["a"], "owner": "me"}"#,
    )
    .unwrap();
    let request = UpdateBucket::builder()
        .bucket_id("8d625eb63be2775577c70e1a")
        .bucket_info(info)
        .cache_control("no-cache".to_string())
        .build()
        .unwrap();
    assert_eq!(request.bucket_info(), Some(&expected));
}

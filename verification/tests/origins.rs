use b2_buckets::error::Subject;
use b2_buckets::error::ValidationError;
use b2_buckets::origin::classify;
use b2_buckets::origin::find_origin_fault;
use b2_buckets::origin::validated_origins;
use b2_buckets::origin::OriginClass;
use b2_buckets::origin::OriginListFault;
use b2_buckets::origin::Scheme;

fn list(items: &[&str]) -> Vec<String> {
    items.iter().map(|s| s.to_string()).collect()
}

fn full(scheme: Scheme, host: &str, port: Option<u16>) -> OriginClass {
    OriginClass::Full { scheme, host: host.to_string(), port }
}

const BAD_FORMAT: ValidationError = ValidationError::BadFormat(Subject::AllowedOrigins);

const INCOMPATIBLE: ValidationError = ValidationError::Incompatible(Subject::AllowedOrigins);

#[test]
fn origins_are_classified() {
    assert_eq!(classify("*"), Ok(OriginClass::Universal));
    assert_eq!(classify("http"), Ok(OriginClass::SchemeOnly(Scheme::Http)));
    assert_eq!(classify("https"), Ok(OriginClass::SchemeOnly(Scheme::Https)));
    assert_eq!(
        classify("http://www.example.com:8000"),
        Ok(full(Scheme::Http, "www.example.com", Some(8000)))
    );
    assert_eq!(classify("https://*.example.com"), Ok(full(Scheme::Https, "*.example.com", None)));
    assert_eq!(classify("https://*:8765"), Ok(full(Scheme::Https, "*", Some(8765))));
    assert_eq!(classify("https://*"), Ok(full(Scheme::Https, "*", None)));
    assert_eq!(classify("https://a:0"), Ok(full(Scheme::Https, "a", Some(0))));
    assert_eq!(classify("https://a:65535"), Ok(full(Scheme::Https, "a", Some(65535))));
    assert_eq!(classify("https://a:00080"), Ok(full(Scheme::Https, "a", Some(80))));
}

#[test]
fn malformed_origins_are_refused() {
    let bad = [
        "",
        "**",
        "https://*.*.example.com",
        "ftp",
        "ftp://example.com",
        "HTTP://example.com",
        "www.example.com:4545",
        "*.example.com",
        "htt*://example.com",
        "https://",
        "https://:80",
        "https://example.com:",
        "https://example.com:65536",
        "https://example.com:99999999999999999999",
        "https://example.com:8*",
        "https://example.com:80:80",
        "https://example.com/",
        "https://exa mple.com",
        "https://user@example.com",
        "https:/example.com",
        "https://example.com://x",
        "https://ex\u{e4}mple.com",
    ];
    for origin in bad {
        assert_eq!(classify(origin), Err(BAD_FORMAT), "{:?}", origin);
    }
}

#[test]
fn universal_origin_stands_alone() {
    assert_eq!(validated_origins(list(&["*"])), Ok(list(&["*"])));
    assert_eq!(validated_origins(list(&["*", "https"])), Err(INCOMPATIBLE));
    assert_eq!(validated_origins(list(&["http://example.com", "*"])), Err(INCOMPATIBLE));
    assert_eq!(validated_origins(list(&["*", "*"])), Err(INCOMPATIBLE));
}

#[test]
fn scheme_stands_alone_once() {
    assert_eq!(validated_origins(list(&["https", "https"])), Err(INCOMPATIBLE));
    assert_eq!(validated_origins(list(&["http", "https", "http"])), Err(INCOMPATIBLE));
    assert_eq!(validated_origins(list(&["http", "https"])), Ok(list(&["http", "https"])));
}

#[test]
fn scheme_alone_excludes_the_hosts_of_its_scheme() {
    assert_eq!(validated_origins(list(&["https", "https://*"])), Err(INCOMPATIBLE));
    assert_eq!(validated_origins(list(&["http://*", "http"])), Err(INCOMPATIBLE));
    assert_eq!(validated_origins(list(&["https", "https://*:8765"])), Err(INCOMPATIBLE));
    assert_eq!(validated_origins(list(&["https", "https://example.com"])), Err(INCOMPATIBLE));
    assert_eq!(
        validated_origins(list(&["https", "http", "http://example.com:1234"])),
        Err(INCOMPATIBLE)
    );
    assert_eq!(
        validated_origins(list(&["http://a.example.com", "http://b.example.com:80", "http"])),
        Err(INCOMPATIBLE)
    );
    assert!(validated_origins(list(&["https", "http://*"])).is_ok());
    assert!(validated_origins(list(&["https", "http://example.com:1234"])).is_ok());
}

#[test]
fn documented_pairs_of_origins() {
    assert_eq!(
        validated_origins(list(&["https://*:8765", "https://www.example.com:4545"])),
        Err(INCOMPATIBLE)
    );
    assert_eq!(
        validated_origins(list(&["https://*:8765", "http://www.example.com:4545"])),
        Ok(list(&["https://*:8765", "http://www.example.com:4545"]))
    );
}

#[test]
fn overlapping_hosts_of_one_scheme_are_refused() {
    let overlapping = [
        ["https://example.com", "https://example.com"],
        ["https://example.com:1", "https://example.com:2"],
        ["https://*.example.com", "https://www.example.com"],
        ["https://www.example.com", "https://www.*"],
        ["https://www.*", "https://*.com"],
        ["https://a*", "https://ab*c"],
        ["https://*", "https://*"],
        ["http://a*a", "http://aa"],
        ["http://a*a", "http://aba"],
    ];
    for pair in overlapping {
        assert_eq!(validated_origins(list(&pair)), Err(INCOMPATIBLE), "{:?}", pair);
    }
    let apart = [
        ["https://a.example.com", "https://b.example.com"],
        ["https://*.example.com", "https://example.com"],
        ["https://*.example.com", "https://*.example.org"],
        ["https://www.*", "https://ftp.*"],
        ["https://a*z", "https://b*z"],
        ["http://a*a", "http://a"],
        ["https://example.com", "http://example.com"],
    ];
    for pair in apart {
        assert_eq!(validated_origins(list(&pair)), Ok(list(&pair)), "{:?}", pair);
    }
}

#[test]
fn faults_of_items_come_before_conflicts() {
    assert_eq!(validated_origins(vec![]), Err(ValidationError::MissingData(Subject::AllowedOrigins)));
    assert_eq!(validated_origins(list(&["*", "https", "nonsense"])), Err(BAD_FORMAT));
    assert_eq!(validated_origins(list(&["nonsense", "*", "https"])), Err(BAD_FORMAT));
}

#[test]
fn accepted_origins_keep_their_order() {
    let origins = list(&["https://b.example.com", "http", "https://a.example.com:8080"]);
    assert_eq!(validated_origins(origins.clone()), Ok(origins));
}

#[test]
fn faults_are_reported_with_their_positions() {
    assert_eq!(find_origin_fault(&vec![]), Some(OriginListFault::Empty));
    assert_eq!(
        find_origin_fault(&list(&["https", "x", "https", "y"])),
        Some(OriginListFault::NotAnOrigin(1))
    );
    assert_eq!(
        find_origin_fault(&list(&["http://a", "https://a", "http", "https://*", "http"])),
        Some(OriginListFault::Exclusive(0, 2))
    );
    assert_eq!(
        find_origin_fault(&list(&["http://a", "https://a", "http://b", "https://*", "https"])),
        Some(OriginListFault::Exclusive(1, 3))
    );
    assert_eq!(
        find_origin_fault(&list(&["http", "https://a", "http", "https://*"])),
        Some(OriginListFault::Exclusive(0, 2))
    );
    assert_eq!(
        find_origin_fault(&list(&["http://a", "https://a", "https"])),
        Some(OriginListFault::Exclusive(1, 2))
    );
    assert_eq!(find_origin_fault(&list(&["https", "http"])), None);
    assert_eq!(OriginListFault::Empty.to_error(), ValidationError::MissingData(Subject::AllowedOrigins));
    assert_eq!(OriginListFault::NotAnOrigin(3).to_error(), BAD_FORMAT);
    assert_eq!(OriginListFault::Exclusive(0, 1).to_error(), INCOMPATIBLE);
}

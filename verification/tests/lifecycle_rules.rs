use b2_buckets::error::FileNameValidationError;
use b2_buckets::error::Subject;
use b2_buckets::error::ValidationError;
use b2_buckets::lifecycle::detect_conflicts;
use b2_buckets::lifecycle::validated_file_name;
use b2_buckets::lifecycle::validated_lifecycle_rules;
use b2_buckets::lifecycle::Conflict;
use b2_buckets::lifecycle::LifecycleRule;
use b2_buckets::lifecycle::LifecycleRuleValidationError;
use b2_buckets::time::Duration;

fn rule(prefix: &str) -> LifecycleRule {
    LifecycleRule::builder()
        .filename_prefix(prefix)
        .unwrap()
        .delete_after_hide(Duration::days(3))
        .unwrap()
        .build()
        .unwrap()
}

fn rules(prefixes: &[&str]) -> Vec<LifecycleRule> {
    prefixes.iter().map(|p| rule(p)).collect()
}

fn group(prefix: &str, covered: &[&str]) -> Conflict {
    Conflict {
        prefix: prefix.to_string(),
        covered: covered.iter().map(|s| s.to_string()).collect(),
    }
}

#[test]
fn two_separate_conflicts_are_reported_in_order() {
    let list = rules(&["Docs/Photos/", "Legal/", "Legal/Taxes/", "Archive/", "Archive/Temporary/"]);
    assert_eq!(
        validated_lifecycle_rules(list),
        Err(LifecycleRuleValidationError::ConflictingRules(vec![
            group("Archive/", &["Archive/Temporary/"]),
            group("Legal/", &["Legal/Taxes/"]),
        ]))
    );
}

#[test]
fn nested_conflicts_are_listed_under_each_ancestor() {
    let list = rules(&[
        "Docs/Photos/",
        "Docs/",
        "Docs/Documents/",
        "Legal/Taxes/",
        "Docs/Photos/Vacations/",
        "Archive/",
    ]);
    assert_eq!(
        detect_conflicts(&list),
        vec![
            group("Docs/", &["Docs/Documents/", "Docs/Photos/", "Docs/Photos/Vacations/"]),
            group("Docs/Photos/", &["Docs/Photos/Vacations/"]),
        ]
    );
}

#[test]
fn empty_prefix_conflicts_with_every_other_rule() {
    let list = rules(&["b/", "", "a/", "a/b/"]);
    assert_eq!(
        detect_conflicts(&list),
        vec![group("", &["a/", "a/b/", "b/"]), group("a/", &["a/b/"])]
    );
    let alone = rules(&[""]);
    assert_eq!(validated_lifecycle_rules(alone.clone()), Ok(alone));
    assert_eq!(detect_conflicts(&rules(&["", ""])), vec![group("", &[""])]);
    assert_eq!(detect_conflicts(&rules(&["a", "", ""])), vec![group("", &["", "a"])]);
}

#[test]
fn rules_without_conflict_come_back_unchanged() {
    let list = rules(&["b/", "a/", "c", "ab", "ba"]);
    assert_eq!(validated_lifecycle_rules(list.clone()), Ok(list));
    assert_eq!(validated_lifecycle_rules(vec![]), Ok(vec![]));
    assert_eq!(detect_conflicts(&rules(&["x", "y"])), vec![]);
}

#[test]
fn equal_prefixes_are_listed_once() {
    let list = rules(&["a/b", "a", "a/b", "a"]);
    assert_eq!(detect_conflicts(&list), vec![group("a", &["a/b"])]);
    let same = rules(&["a", "a"]);
    assert_eq!(detect_conflicts(&same), vec![]);
}

#[test]
fn report_is_ordered_by_code_point() {
    let list = rules(&["z", "\u{e9}", "\u{e9}\u{4e2d}", "\u{e9}a", "Z", "z\u{1f600}", "za"]);
    assert_eq!(
        detect_conflicts(&list),
        vec![
            group("z", &["za", "z\u{1f600}"]),
            group("\u{e9}", &["\u{e9}a", "\u{e9}\u{4e2d}"]),
        ]
    );
}

#[test]
fn rule_needs_a_prefix_and_an_action() {
    assert_eq!(
        LifecycleRule::builder().build().unwrap_err(),
        ValidationError::MissingData(Subject::FilenamePrefix)
    );
    assert_eq!(
        LifecycleRule::builder().hide_after_upload(Duration::days(1)).unwrap().build().unwrap_err(),
        ValidationError::MissingData(Subject::FilenamePrefix)
    );
    assert_eq!(
        LifecycleRule::builder().filename_prefix("a/").unwrap().build().unwrap_err(),
        ValidationError::Incompatible(Subject::LifecycleActions)
    );
}

#[test]
fn built_lifecycle_rule_holds_what_was_set() {
    let rule = LifecycleRule::builder()
        .filename_prefix("my-files/")
        .unwrap()
        .delete_after_hide(Duration::days(5))
        .unwrap()
        .build()
        .unwrap();
    assert_eq!(rule.file_name_prefix(), "my-files/");
    assert_eq!(rule.delete_after(), Some(5));
    assert_eq!(rule.hide_after(), None);
    let both = LifecycleRule::builder()
        .filename_prefix("")
        .unwrap()
        .hide_after_upload(Duration::seconds(2 * 86_400 + 86_399))
        .unwrap()
        .delete_after_hide(Duration::days(65_535))
        .unwrap()
        .build()
        .unwrap();
    assert_eq!(both.file_name_prefix(), "");
    assert_eq!(both.hide_after(), Some(2));
    assert_eq!(both.delete_after(), Some(65_535));
    assert_eq!(both.clone(), both);
}

#[test]
fn days_are_held_to_their_range() {
    let hide = ValidationError::OutOfBounds(Subject::HideAfterUpload);
    let delete = ValidationError::OutOfBounds(Subject::DeleteAfterHide);
    assert_eq!(LifecycleRule::builder().hide_after_upload(Duration::zero()).unwrap_err(), hide);
    assert_eq!(
        LifecycleRule::builder().hide_after_upload(Duration::seconds(86_399)).unwrap_err(),
        hide
    );
    assert_eq!(LifecycleRule::builder().hide_after_upload(Duration::days(-1)).unwrap_err(), hide);
    assert_eq!(
        LifecycleRule::builder().hide_after_upload(Duration::days(65_536)).unwrap_err(),
        hide
    );
    assert_eq!(LifecycleRule::builder().delete_after_hide(Duration::zero()).unwrap_err(), delete);
    assert_eq!(
        LifecycleRule::builder().delete_after_hide(Duration::days(65_536)).unwrap_err(),
        delete
    );
    assert!(LifecycleRule::builder().delete_after_hide(Duration::days(1)).is_ok());
}

#[test]
fn file_names_are_checked() {
    assert_eq!(validated_file_name(""), Ok(""));
    assert_eq!(validated_file_name("Docs/Photos/"), Ok("Docs/Photos/"));
    let long = "a".repeat(1024);
    assert_eq!(validated_file_name(&long), Ok(long.as_str()));
    let longer = "a".repeat(1025);
    assert_eq!(validated_file_name(&longer), Err(FileNameValidationError::BadLength(1025)));
    let wide = "\u{e9}".repeat(513);
    assert_eq!(validated_file_name(&wide), Err(FileNameValidationError::BadLength(1026)));
    assert_eq!(validated_file_name("a\tb\n"), Err(FileNameValidationError::InvalidChar('\t')));
    assert_eq!(validated_file_name("a\u{7f}"), Err(FileNameValidationError::InvalidChar('\u{7f}')));
    assert_eq!(
        LifecycleRule::builder().filename_prefix("a\u{0}").unwrap_err(),
        FileNameValidationError::InvalidChar('\u{0}')
    );
}

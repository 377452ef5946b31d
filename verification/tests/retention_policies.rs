use b2_buckets::error::DataIntegrityError;
use b2_buckets::retention::FileLockConfiguration;
use b2_buckets::retention::FileRetentionMode;
use b2_buckets::retention::FileRetentionPolicy;
use b2_buckets::retention::InnerRetentionPolicy;
use b2_buckets::retention::Period;
use b2_buckets::retention::PeriodUnit;
use b2_buckets::retention::Retention;
use b2_buckets::time::Duration;

fn days(duration: u32) -> Period {
    Period { duration, unit: PeriodUnit::Days }
}

#[test]
fn mode_without_period_is_rejected() {
    let record = InnerRetentionPolicy { mode: Some(FileRetentionMode::Governance), period: None };
    assert_eq!(
        FileRetentionPolicy::try_from(record),
        Err(DataIntegrityError::MissingRetentionPeriod)
    );
    let record = InnerRetentionPolicy { mode: None, period: Some(days(7)) };
    assert_eq!(FileRetentionPolicy::try_from(record), Err(DataIntegrityError::MissingRetentionMode));
}

#[test]
fn neither_mode_nor_period_is_no_policy() {
    let record = InnerRetentionPolicy { mode: None, period: None };
    let policy = FileRetentionPolicy::try_from(record).unwrap();
    assert_eq!(policy, FileRetentionPolicy::default());
    assert_eq!(policy.setting, None);
    assert_eq!(policy.mode(), None);
    assert_eq!(policy.period(), None);
    assert_eq!(InnerRetentionPolicy::from(policy), record);
}

#[test]
fn policy_survives_the_round_trip() {
    let policy = FileRetentionPolicy::new(FileRetentionMode::Compliance, Duration::days(30));
    let record = InnerRetentionPolicy::from(policy);
    assert_eq!(
        record,
        InnerRetentionPolicy { mode: Some(FileRetentionMode::Compliance), period: Some(days(30)) }
    );
    assert_eq!(FileRetentionPolicy::try_from(record), Ok(policy));
}

#[test]
fn new_policy_holds_whole_days() {
    let policy = FileRetentionPolicy::new(
        FileRetentionMode::Governance,
        Duration::seconds(3 * 86_400 + 5),
    );
    assert_eq!(
        policy.setting,
        Some(Retention { mode: FileRetentionMode::Governance, period: days(3) })
    );
    assert_eq!(policy.mode(), Some(FileRetentionMode::Governance));
    assert_eq!(policy.period(), Some(Duration::days(3)));
}

#[test]
fn years_count_as_52_weeks() {
    let year = Period { duration: 2, unit: PeriodUnit::Years };
    assert_eq!(year.to_duration(), Duration::weeks(104));
    assert_eq!(year.to_duration().num_days(), 728);
    assert_eq!(days(10).to_duration(), Duration::days(10));
    assert_eq!(Period::from_duration(Duration::weeks(1)), days(7));
    let longest = Period { duration: u32::MAX, unit: PeriodUnit::Years };
    assert_eq!(longest.to_duration().num_days(), 4_294_967_295 * 364);
}

#[test]
fn wire_names_of_retention() {
    assert_eq!(FileRetentionMode::Governance.name(), "governance");
    assert_eq!(FileRetentionMode::Compliance.name(), "compliance");
    assert_eq!(PeriodUnit::Days.name(), "days");
    assert_eq!(PeriodUnit::Years.name(), "years");
    for mode in [FileRetentionMode::Governance, FileRetentionMode::Compliance] {
        assert_eq!(FileRetentionMode::from_name(mode.name()), Some(mode));
    }
    for unit in [PeriodUnit::Days, PeriodUnit::Years] {
        assert_eq!(PeriodUnit::from_name(unit.name()), Some(unit));
    }
    assert_eq!(FileRetentionMode::from_name("Governance"), None);
    assert_eq!(PeriodUnit::from_name("weeks"), None);
}

#[test]
fn unreadable_file_lock_tells_nothing() {
    let policy = FileRetentionPolicy::new(FileRetentionMode::Governance, Duration::days(1));
    let hidden = FileLockConfiguration::new(false, true, policy);
    assert_eq!(hidden.lock_is_enabled(), None);
    assert_eq!(hidden.retention_policy(), None);
    let shown = FileLockConfiguration::new(true, true, policy);
    assert_eq!(shown.lock_is_enabled(), Some(true));
    assert_eq!(shown.retention_policy(), Some(policy));
    let off = FileLockConfiguration::new(true, false, FileRetentionPolicy::default());
    assert_eq!(off.lock_is_enabled(), Some(false));
    assert_eq!(off.retention_policy(), Some(FileRetentionPolicy::default()));
}

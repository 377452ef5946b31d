//! File retention: the policy of a bucket, its wire record, and what a
//! response tells of the file lock.
//!
//! A retention policy has a mode and a period, or neither, and
//! [`FileRetentionPolicy`] can hold nothing else. The wire record holds the two
//! as separate fields; [`FileRetentionPolicy::try_from`] refuses a record that
//! holds only one of them.

use vstd::prelude::*;
use crate::text::is_text;
use vstd::std_specs::convert::FromSpecImpl;
use vstd::std_specs::convert::TryFromSpecImpl;
use crate::error::DataIntegrityError;
use crate::time::Duration;

verus! {

/// How strictly a retention policy holds.
#[derive(Clone, Copy, Debug, PartialEq, Eq, Structural)]
pub enum FileRetentionMode {
    /// Holders of a special permission may shorten or lift the retention.
    Governance,
    /// Nobody may shorten or lift the retention.
    Compliance,
}

impl FileRetentionMode {
    /// The value of the mode field on the wire.
    pub open spec fn wire_name(self) -> Seq<char> {
        match self {
            FileRetentionMode::Governance => "governance"@,
            FileRetentionMode::Compliance => "compliance"@,
        }
    }

    /// The value of the mode field on the wire.
    pub fn name(&self) -> (s: &'static str)
        ensures
            s@ == self.wire_name(),
    {
        match self {
            FileRetentionMode::Governance => "governance",
            FileRetentionMode::Compliance => "compliance",
        }
    }

    /// The retention mode that `name` names on the wire, if it names one.
    pub open spec fn named(name: Seq<char>) -> Option<FileRetentionMode> {
        if name == FileRetentionMode::Governance.wire_name() {
            Some(FileRetentionMode::Governance)
        } else if name == FileRetentionMode::Compliance.wire_name() {
            Some(FileRetentionMode::Compliance)
        } else {
            None
        }
    }

    /// The retention mode that `name` names on the wire, if it names one.
    pub fn from_name(name: &str) -> (r: Option<FileRetentionMode>)
        ensures
            r == FileRetentionMode::named(name@),
    {
        if is_text(name, FileRetentionMode::Governance.name()) {
            Some(FileRetentionMode::Governance)
        } else if is_text(name, FileRetentionMode::Compliance.name()) {
            Some(FileRetentionMode::Compliance)
        } else {
            None
        }
    }
}

/// The unit of a retention period.
#[derive(Clone, Copy, Debug, PartialEq, Eq, Structural)]
pub enum PeriodUnit {
    Days,
    Years,
}

impl PeriodUnit {
    /// The value of the unit field on the wire.
    pub open spec fn wire_name(self) -> Seq<char> {
        match self {
            PeriodUnit::Days => "days"@,
            PeriodUnit::Years => "years"@,
        }
    }

    /// The value of the unit field on the wire.
    pub fn name(&self) -> (s: &'static str)
        ensures
            s@ == self.wire_name(),
    {
        match self {
            PeriodUnit::Days => "days",
            PeriodUnit::Years => "years",
        }
    }

    /// The unit that `name` names on the wire, if it names one.
    pub open spec fn named(name: Seq<char>) -> Option<PeriodUnit> {
        if name == PeriodUnit::Days.wire_name() {
            Some(PeriodUnit::Days)
        } else if name == PeriodUnit::Years.wire_name() {
            Some(PeriodUnit::Years)
        } else {
            None
        }
    }

    /// The unit that `name` names on the wire, if it names one.
    pub fn from_name(name: &str) -> (r: Option<PeriodUnit>)
        ensures
            r == PeriodUnit::named(name@),
    {
        if is_text(name, PeriodUnit::Days.name()) {
            Some(PeriodUnit::Days)
        } else if is_text(name, PeriodUnit::Years.name()) {
            Some(PeriodUnit::Years)
        } else {
            None
        }
    }
}

/// A retention period as it travels: a count and its unit.
#[derive(Clone, Copy, Debug, PartialEq, Eq, Structural)]
pub struct Period {
    pub duration: u32,
    pub unit: PeriodUnit,
}

impl Period {
    /// The days of the period; a year counts as 52 weeks.
    pub open spec fn days(self) -> int {
        match self.unit {
            PeriodUnit::Days => self.duration as int,
            PeriodUnit::Years => self.duration * 52 * 7,
        }
    }

    /// The period of the whole days of `span`. The count is the low 32 bits
    /// of their number: the number itself from 0 to `u32::MAX`.
    pub open spec fn of_duration(span: Duration) -> Period {
        Period { duration: span.whole_days() as i64 as u32, unit: PeriodUnit::Days }
    }
}

impl Period {
    /// The period as a span of time.
    pub fn to_duration(self) -> (r: Duration)
        ensures
            r.whole_days() == self.days(),
            r.total_nanos() == self.days() * 86_400 * 1_000_000_000,
    {
        match self.unit {
            PeriodUnit::Days => Duration::days(self.duration as i64),
            PeriodUnit::Years => Duration::weeks(self.duration as i64 * 52),
        }
    }

    /// The period of the whole days of `span`.
    pub fn from_duration(span: Duration) -> (r: Period)
        ensures
            r == Period::of_duration(span),
            0 <= span.whole_days() <= u32::MAX ==> r.duration == span.whole_days(),
    {
        Period { duration: #[verifier::truncate] (span.num_days() as u32), unit: PeriodUnit::Days }
    }
}

/// A retention policy as it travels: the mode and the period, each present or
/// absent.
#[derive(Clone, Copy, Debug, PartialEq, Eq, Structural)]
pub struct InnerRetentionPolicy {
    pub mode: Option<FileRetentionMode>,
    pub period: Option<Period>,
}

/// A retention mode and the period for which it holds.
#[derive(Clone, Copy, Debug, PartialEq, Eq, Structural)]
pub struct Retention {
    pub mode: FileRetentionMode,
    pub period: Period,
}

/// The retention policy of a bucket: a mode together with a period, or no
/// policy.
#[derive(Clone, Copy, Debug, PartialEq, Eq, Structural)]
pub struct FileRetentionPolicy {
    pub setting: Option<Retention>,
}

/// The record of `policy`: both fields, or neither.
pub open spec fn encode(policy: FileRetentionPolicy) -> InnerRetentionPolicy {
    match policy.setting {
        Some(held) => InnerRetentionPolicy { mode: Some(held.mode), period: Some(held.period) },
        None => InnerRetentionPolicy { mode: None, period: None },
    }
}

/// The policy that `record` stands for, or the field that is missing.
pub open spec fn decode(record: InnerRetentionPolicy) -> Result<
    FileRetentionPolicy,
    DataIntegrityError,
> {
    match (record.mode, record.period) {
        (Some(mode), Some(period)) => Ok(
            FileRetentionPolicy { setting: Some(Retention { mode, period }) },
        ),
        (None, None) => Ok(FileRetentionPolicy { setting: None }),
        (Some(_), None) => Err(DataIntegrityError::MissingRetentionPeriod),
        (None, Some(_)) => Err(DataIntegrityError::MissingRetentionMode),
    }
}

/// Decoding the record of a policy gives the policy back.
pub proof fn lemma_decode_encode(policy: FileRetentionPolicy)
    ensures
        decode(encode(policy)) == Ok::<FileRetentionPolicy, DataIntegrityError>(policy),
{
}

/// A record that decodes is the record of the policy it decodes to.
pub proof fn lemma_encode_decode(record: InnerRetentionPolicy)
    requires
        decode(record) is Ok,
    ensures
        encode(decode(record)->Ok_0) == record,
{
}

/// A record with a mode and no period is refused, and the record with
/// neither stands for no policy.
pub proof fn lemma_both_or_neither(mode: FileRetentionMode)
    ensures
        decode(InnerRetentionPolicy { mode: Some(mode), period: None }) is Err,
        decode(InnerRetentionPolicy { mode: None, period: None }) == Ok::<
            FileRetentionPolicy,
            DataIntegrityError,
        >(FileRetentionPolicy { setting: None }),
{
}

impl FileRetentionPolicy {
    /// The policy that holds files in `mode` for the whole days of `duration`.
    pub fn new(mode: FileRetentionMode, duration: Duration) -> (r: Self)
        ensures
            r.setting == Some(Retention { mode, period: Period::of_duration(duration) }),
            0 <= duration.whole_days() <= u32::MAX ==> r.setting == Some(
                Retention {
                    mode,
                    period: Period {
                        duration: duration.whole_days() as u32,
                        unit: PeriodUnit::Days,
                    },
                },
            ),
    {
        FileRetentionPolicy {
            setting: Some(Retention { mode, period: Period::from_duration(duration) }),
        }
    }

    /// The mode of the policy, if there is a policy.
    pub fn mode(&self) -> (r: Option<FileRetentionMode>)
        ensures
            r == match self.setting {
                Some(held) => Some(held.mode),
                None => None,
            },
    {
        match self.setting {
            Some(held) => Some(held.mode),
            None => None,
        }
    }

    /// The period of the policy as a span of time, if there is a policy.
    pub fn period(&self) -> (r: Option<Duration>)
        ensures
            match (r, self.setting) {
                (Some(span), Some(held)) => span.whole_days() == held.period.days()
                    && span.total_nanos() == held.period.days() * 86_400 * 1_000_000_000,
                (None, None) => true,
                _ => false,
            },
    {
        match self.setting {
            Some(held) => Some(held.period.to_duration()),
            None => None,
        }
    }
}

impl Default for FileRetentionPolicy {
    /// No policy.
    fn default() -> (r: Self)
        ensures
            r.setting is None,
    {
        FileRetentionPolicy { setting: None }
    }
}

impl From<FileRetentionPolicy> for InnerRetentionPolicy {
    fn from(other: FileRetentionPolicy) -> (r: Self) {
        match other.setting {
            Some(held) => InnerRetentionPolicy { mode: Some(held.mode), period: Some(held.period) },
            None => InnerRetentionPolicy { mode: None, period: None },
        }
    }
}

impl FromSpecImpl<FileRetentionPolicy> for InnerRetentionPolicy {
    open spec fn obeys_from_spec() -> bool {
        true
    }

    open spec fn from_spec(other: FileRetentionPolicy) -> Self {
        encode(other)
    }
}

impl TryFrom<InnerRetentionPolicy> for FileRetentionPolicy {
    type Error = DataIntegrityError;

    fn try_from(other: InnerRetentionPolicy) -> (r: Result<Self, DataIntegrityError>) {
        match (other.mode, other.period) {
            (Some(mode), Some(period)) => Ok(
            FileRetentionPolicy { setting: Some(Retention { mode, period }) },
        ),
            (None, None) => Ok(FileRetentionPolicy { setting: None }),
            (Some(_), None) => Err(DataIntegrityError::MissingRetentionPeriod),
            (None, Some(_)) => Err(DataIntegrityError::MissingRetentionMode),
        }
    }
}

impl TryFromSpecImpl<InnerRetentionPolicy> for FileRetentionPolicy {
    open spec fn obeys_try_from_spec() -> bool {
        true
    }

    open spec fn try_from_spec(other: InnerRetentionPolicy) -> Result<Self, DataIntegrityError> {
        decode(other)
    }
}

/// What a response tells of the file lock of a bucket. The service hides it
/// from a caller who may not read it.
#[derive(Clone, Copy, Debug, PartialEq, Eq, Structural)]
pub struct FileLockConfiguration {
    can_read: bool,
    file_lock_enabled: bool,
    retention: FileRetentionPolicy,
}

impl FileLockConfiguration {
    /// Whether the caller may read the configuration.
    pub closed spec fn readable(self) -> bool {
        self.can_read
    }

    /// Whether files in the bucket can be locked.
    pub closed spec fn enabled(self) -> bool {
        self.file_lock_enabled
    }

    /// The default retention policy of the bucket.
    pub closed spec fn retention(self) -> FileRetentionPolicy {
        self.retention
    }

    /// The configuration with these three values.
    pub fn new(can_read: bool, file_lock_enabled: bool, retention: FileRetentionPolicy) -> (r: Self)
        ensures
            r.readable() == can_read,
            r.enabled() == file_lock_enabled,
            r.retention() == retention,
    {
        FileLockConfiguration { can_read, file_lock_enabled, retention }
    }

    /// Whether files in the bucket can be locked; `None` if the caller may
    /// not read the configuration.
    pub fn lock_is_enabled(&self) -> (r: Option<bool>)
        ensures
            r == if self.readable() {
                Some(self.enabled())
            } else {
                None
            },
    {
        if self.can_read {
            Some(self.file_lock_enabled)
        } else {
            None
        }
    }

    /// The default retention policy of the bucket; `None` if the caller may
    /// not read the configuration.
    pub fn retention_policy(&self) -> (r: Option<FileRetentionPolicy>)
        ensures
            r == if self.readable() {
                Some(self.retention())
            } else {
                None
            },
    {
        if self.can_read {
            Some(self.retention)
        } else {
            None
        }
    }
}

/// Every retention mode and every unit is found again by its name on the
/// wire.
pub proof fn lemma_names_round_trip(mode: FileRetentionMode, unit: PeriodUnit)
    ensures
        FileRetentionMode::named(mode.wire_name()) == Some(mode),
        PeriodUnit::named(unit.wire_name()) == Some(unit),
{
    reveal_strlit("governance");
    reveal_strlit("compliance");
    reveal_strlit("days");
    reveal_strlit("years");
    assert("governance"@.len() == 10 && "compliance"@.len() == 10);
    assert("governance"@[0] == 'g' && "compliance"@[0] == 'c');
    assert("days"@.len() == 4 && "years"@.len() == 5);
}

} // verus!

//! Buckets, and the requests that create, update and list them.
//!
//! A request is assembled by its builder, which checks each part as it is
//! given. Before a request is sent, [`prepare_create_bucket`] and its
//! siblings hold it against what the account may do and fill in the account.
//! Sending it is left to the caller.

use vstd::prelude::*;
use crate::text::is_text;
use crate::cors::CorsRule;
use crate::encryption::ServerSideEncryption;
use crate::error::BucketValidationError;
use crate::error::Subject;
use crate::error::ValidationError;
use crate::json::empty_object;
use crate::json::is_object;
use crate::json::json_is_object;
use crate::json::json_members;
use crate::json::set_string;
use crate::lifecycle::has_conflict;
use crate::lifecycle::is_conflict_report;
use crate::lifecycle::prefixes_of;
use crate::lifecycle::report_view;
use crate::lifecycle::validated_lifecycle_rules;
use crate::lifecycle::LifecycleRule;
use crate::lifecycle::LifecycleRuleValidationError;
use crate::name::bucket_name_error;
use crate::name::name_fault;
use crate::name::validated_bucket_name;
use crate::retention::FileRetentionPolicy;
use crate::text::views;

verus! {

/// How the files of a bucket can be reached.
#[derive(Clone, Copy, Debug, PartialEq, Eq, Structural)]
pub enum BucketType {
    /// Anybody can download the files.
    Public,
    /// Downloads need an authorization.
    Private,
    /// The bucket holds snapshots of other buckets. Only the service makes
    /// such buckets.
    Snapshot,
}

impl BucketType {
    /// The type as it is written on the wire.
    pub open spec fn wire_name(self) -> Seq<char> {
        match self {
            BucketType::Public => "allPublic"@,
            BucketType::Private => "allPrivate"@,
            BucketType::Snapshot => "snapshot"@,
        }
    }

    /// The type as it is written on the wire.
    pub fn name(&self) -> (s: &'static str)
        ensures
            s@ == self.wire_name(),
    {
        match self {
            BucketType::Public => "allPublic",
            BucketType::Private => "allPrivate",
            BucketType::Snapshot => "snapshot",
        }
    }

    /// The bucket type that `name` names on the wire, if it names one.
    pub open spec fn named(name: Seq<char>) -> Option<BucketType> {
        if name == BucketType::Public.wire_name() {
            Some(BucketType::Public)
        } else if name == BucketType::Private.wire_name() {
            Some(BucketType::Private)
        } else if name == BucketType::Snapshot.wire_name() {
            Some(BucketType::Snapshot)
        } else {
            None
        }
    }

    /// The bucket type that `name` names on the wire, if it names one.
    pub fn from_name(name: &str) -> (r: Option<BucketType>)
        ensures
            r == BucketType::named(name@),
    {
        if is_text(name, BucketType::Public.name()) {
            Some(BucketType::Public)
        } else if is_text(name, BucketType::Private.name()) {
            Some(BucketType::Private)
        } else if is_text(name, BucketType::Snapshot.name()) {
            Some(BucketType::Snapshot)
        } else {
            None
        }
    }
}

/// Something that an authorization may allow its holder to do with buckets.
#[derive(Clone, Copy, Debug, PartialEq, Eq, Structural)]
pub enum Capability {
    ListBuckets,
    WriteBuckets,
    DeleteBuckets,
    WriteBucketRetentions,
    WriteBucketEncryption,
}

/// A request needs a capability that the authorization does not grant.
#[derive(Clone, Copy, Debug, PartialEq, Eq, Structural)]
pub struct MissingCapability {
    pub capability: Capability,
}

/// Whether `wanted` is among the capabilities `granted`.
pub fn has_capability(granted: &Vec<Capability>, wanted: Capability) -> (r: bool)
    ensures
        r == granted@.contains(wanted),
{
    let mut i: usize = 0;
    while i < granted.len()
        invariant
            i <= granted.len(),
            forall|j: int| 0 <= j < i ==> granted@[j] != wanted,
        decreases granted.len() - i,
    {
        if granted[i] == wanted {
            return true;
        }
        i += 1;
    }
    false
}

/// The first of the capabilities `wanted` that is not among `granted`.
pub open spec fn first_missing(granted: Seq<Capability>, wanted: Seq<Capability>) -> Option<
    Capability,
>
    decreases wanted.len(),
{
    if wanted.len() == 0 {
        None
    } else if !granted.contains(wanted[0]) {
        Some(wanted[0])
    } else {
        first_missing(granted, wanted.drop_first())
    }
}

/// No capability is missing if and only if each one wanted is granted.
pub proof fn lemma_none_missing(granted: Seq<Capability>, wanted: Seq<Capability>)
    ensures
        first_missing(granted, wanted) is None <==> forall|i: int|
            0 <= i < wanted.len() ==> granted.contains(#[trigger] wanted[i]),
        first_missing(granted, wanted) matches Some(capability) ==> wanted.contains(capability)
            && !granted.contains(capability),
    decreases wanted.len(),
{
    if wanted.len() > 0 {
        let rest = wanted.drop_first();
        lemma_none_missing(granted, rest);
        if granted.contains(wanted[0]) {
            if first_missing(granted, rest) is None {
                assert forall|i: int| 0 <= i < wanted.len() implies granted.contains(
                    #[trigger] wanted[i],
                ) by {
                    if i > 0 {
                        assert(wanted[i] == rest[i - 1]);
                    }
                }
            } else {
                let capability = first_missing(granted, rest)->0;
                let k = choose|k: int| 0 <= k < rest.len() && rest[k] == capability;
                assert(wanted[k + 1] == capability);
            }
        } else {
            assert(wanted[0] == wanted[0]);
        }
    }
}

/// Holds the capabilities that a request needs against those granted, in the
/// order in which they are wanted.
pub fn require_capabilities(granted: &Vec<Capability>, wanted: &Vec<Capability>) -> (r: Result<
    (),
    MissingCapability,
>)
    ensures
        match r {
            Ok(_) => first_missing(granted@, wanted@) is None,
            Err(e) => first_missing(granted@, wanted@) == Some(e.capability),
        },
{
    let mut i: usize = 0;
    assert(wanted@.subrange(0, wanted.len() as int) =~= wanted@);
    while i < wanted.len()
        invariant
            i <= wanted.len(),
            first_missing(granted@, wanted@) == first_missing(
                granted@,
                wanted@.subrange(i as int, wanted.len() as int),
            ),
        decreases wanted.len() - i,
    {
        let ghost rest = wanted@.subrange(i as int, wanted.len() as int);
        assert(rest[0] == wanted@[i as int]);
        assert(rest.drop_first() =~= wanted@.subrange(i + 1, wanted.len() as int));
        if !has_capability(granted, wanted[i]) {
            return Err(MissingCapability { capability: wanted[i] });
        }
        i += 1;
    }
    Ok(())
}

/// What a response tells of the encryption of a bucket. The service hides
/// the setting from a caller who may not read it.
#[derive(Clone, Debug, PartialEq, Eq)]
pub struct BucketEncryptionInfo {
    is_client_authorized_to_read: bool,
    value: Option<ServerSideEncryption>,
}

impl BucketEncryptionInfo {
    /// Whether the caller may read the setting.
    pub closed spec fn readable(self) -> bool {
        self.is_client_authorized_to_read
    }

    /// The setting that the response held, if it held one.
    pub closed spec fn value(self) -> Option<ServerSideEncryption> {
        self.value
    }

    /// What a response told: whether the caller may read the setting, and
    /// the setting, if the response held one.
    pub fn new(can_read: bool, value: Option<ServerSideEncryption>) -> (r: Self)
        ensures
            r.readable() == can_read,
            r.value() == value,
    {
        BucketEncryptionInfo { is_client_authorized_to_read: can_read, value }
    }

    /// Whether the caller may read the setting. If not, [`Self::settings`]
    /// gives `None`.
    pub fn can_read(&self) -> (r: bool)
        ensures
            r == self.readable(),
    {
        self.is_client_authorized_to_read
    }

    /// The encryption setting of the bucket; `None` if the caller may not
    /// read it, whatever the response held.
    pub fn settings(&self) -> (r: Option<&ServerSideEncryption>)
        ensures
            match r {
                Some(setting) => self.readable() && self.value() == Some(*setting),
                None => !self.readable() || self.value() is None,
            },
    {
        if self.is_client_authorized_to_read {
            self.value.as_ref()
        } else {
            None
        }
    }
}

/// `r` refers to what `held` holds, or both hold nothing.
pub open spec fn refers_to<T>(r: Option<&T>, held: Option<T>) -> bool {
    match r {
        Some(value) => held == Some(*value),
        None => held is None,
    }
}

/// The key under which the information of a bucket holds the default
/// `Cache-Control` header of its files.
pub open spec fn cache_control_key() -> Seq<char> {
    "Cache-Control"@
}

/// The members of the information of a bucket, if it has any.
pub open spec fn info_members(info: Option<serde_json::Value>) -> Map<
    Seq<char>,
    (bool, Seq<char>),
> {
    match info {
        Some(value) => json_members(value),
        None => Map::empty(),
    }
}

/// `out` is the information `info` with the cache setting `cache_control`
/// worked in: without a setting the information as it is; with one, an
/// object that holds the setting under `Cache-Control`, in place of what
/// stood there, and the other members of `info`. Information that is no
/// object is left as it is.
pub open spec fn info_with_cache_control(
    info: Option<serde_json::Value>,
    cache_control: Option<String>,
    out: Option<serde_json::Value>,
) -> bool {
    match cache_control {
        None => out == info,
        Some(setting) => if info matches Some(value) && !json_is_object(value) {
            out == info
        } else {
            &&& out matches Some(value)
            &&& json_is_object(value)
            &&& json_members(value) == info_members(info).insert(
                cache_control_key(),
                (true, setting@),
            )
        },
    }
}

/// Works a cache setting into the information of a bucket.
fn with_cache_control(info: Option<serde_json::Value>, cache_control: Option<String>) -> (out:
    Option<serde_json::Value>)
    ensures
        info_with_cache_control(info, cache_control, out),
{
    match cache_control {
        None => info,
        Some(setting) => {
            let mut value = match info {
                Some(value) => value,
                None => empty_object(),
            };
            if is_object(&value) {
                set_string(&mut value, "Cache-Control", setting);
            }
            Some(value)
        },
    }
}

/// What a request to create a bucket holds.
pub struct CreateBucketView {
    pub account_id: Option<String>,
    pub bucket_name: String,
    pub bucket_type: BucketType,
    pub bucket_info: Option<serde_json::Value>,
    pub cors_rules: Option<Vec<CorsRule>>,
    pub file_lock_enabled: bool,
    pub lifecycle_rules: Option<Vec<LifecycleRule>>,
    pub default_server_side_encryption: Option<ServerSideEncryption>,
}

impl CreateBucketView {
    /// What holds of every request that a builder gives.
    pub open spec fn valid(self) -> bool {
        &&& name_fault(self.bucket_name@) is None
        &&& self.bucket_type != BucketType::Snapshot
        &&& self.bucket_info matches Some(info) ==> json_is_object(info)
        &&& self.cors_rules matches Some(rules) ==> 0 < rules@.len() <= 100
        &&& self.lifecycle_rules matches Some(rules) ==> !has_conflict(prefixes_of(rules@))
    }

    /// The capabilities that the request needs, in the order in which they
    /// are asked for.
    pub open spec fn needs(self) -> Seq<Capability> {
        seq![Capability::WriteBuckets] + if self.file_lock_enabled {
            seq![Capability::WriteBucketRetentions]
        } else {
            Seq::empty()
        } + if self.default_server_side_encryption is Some {
            seq![Capability::WriteBucketEncryption]
        } else {
            Seq::empty()
        }
    }
}

/// A request to create a bucket.
#[derive(Clone, Debug)]
pub struct CreateBucket {
    account_id: Option<String>,
    bucket_name: String,
    bucket_type: BucketType,
    bucket_info: Option<serde_json::Value>,
    cors_rules: Option<Vec<CorsRule>>,
    file_lock_enabled: bool,
    lifecycle_rules: Option<Vec<LifecycleRule>>,
    default_server_side_encryption: Option<ServerSideEncryption>,
}

impl View for CreateBucket {
    type V = CreateBucketView;

    closed spec fn view(&self) -> CreateBucketView {
        CreateBucketView {
            account_id: self.account_id,
            bucket_name: self.bucket_name,
            bucket_type: self.bucket_type,
            bucket_info: self.bucket_info,
            cors_rules: self.cors_rules,
            file_lock_enabled: self.file_lock_enabled,
            lifecycle_rules: self.lifecycle_rules,
            default_server_side_encryption: self.default_server_side_encryption,
        }
    }
}

impl CreateBucket {
    /// A builder with nothing set and the file lock off.
    pub fn builder() -> (r: CreateBucketBuilder)
        ensures
            r@ == CreateBucketBuilderView::empty(),
    {
        CreateBucketBuilder::default()
    }

    /// The account that the bucket is created in, once it is filled in.
    pub fn account_id(&self) -> (r: Option<&String>)
        ensures
            refers_to(r, self@.account_id),
    {
        self.account_id.as_ref()
    }

    /// The name of the bucket.
    pub fn bucket_name(&self) -> (r: &str)
        ensures
            r@ == self@.bucket_name@,
    {
        self.bucket_name.as_str()
    }

    /// The type of the bucket.
    pub fn bucket_type(&self) -> (r: BucketType)
        ensures
            r == self@.bucket_type,
    {
        self.bucket_type
    }

    /// The information stored with the bucket, if any.
    pub fn bucket_info(&self) -> (r: Option<&serde_json::Value>)
        ensures
            refers_to(r, self@.bucket_info),
    {
        self.bucket_info.as_ref()
    }

    /// The CORS rules of the bucket, if any.
    pub fn cors_rules(&self) -> (r: Option<&Vec<CorsRule>>)
        ensures
            refers_to(r, self@.cors_rules),
    {
        self.cors_rules.as_ref()
    }

    /// Whether files in the bucket can be locked.
    pub fn file_lock_enabled(&self) -> (r: bool)
        ensures
            r == self@.file_lock_enabled,
    {
        self.file_lock_enabled
    }

    /// The lifecycle rules of the bucket, if any.
    pub fn lifecycle_rules(&self) -> (r: Option<&Vec<LifecycleRule>>)
        ensures
            refers_to(r, self@.lifecycle_rules),
    {
        self.lifecycle_rules.as_ref()
    }

    /// The encryption setting of the bucket, if one is asked for.
    pub fn default_server_side_encryption(&self) -> (r: Option<&ServerSideEncryption>)
        ensures
            refers_to(r, self@.default_server_side_encryption),
    {
        self.default_server_side_encryption.as_ref()
    }
}

/// What a builder of a request to create a bucket holds.
pub struct CreateBucketBuilderView {
    pub bucket_name: Option<String>,
    pub bucket_type: Option<BucketType>,
    pub bucket_info: Option<serde_json::Value>,
    pub cache_control: Option<String>,
    pub cors_rules: Option<Vec<CorsRule>>,
    pub file_lock_enabled: bool,
    pub lifecycle_rules: Option<Vec<LifecycleRule>>,
    pub default_server_side_encryption: Option<ServerSideEncryption>,
}

impl CreateBucketBuilderView {
    /// Nothing set, and the file lock off.
    pub open spec fn empty() -> CreateBucketBuilderView {
        CreateBucketBuilderView {
            bucket_name: None,
            bucket_type: None,
            bucket_info: None,
            cache_control: None,
            cors_rules: None,
            file_lock_enabled: false,
            lifecycle_rules: None,
            default_server_side_encryption: None,
        }
    }

    /// Why these parts make no request, if they do not: the name is missing,
    /// or else the type.
    pub open spec fn fault(self) -> Option<ValidationError> {
        if self.bucket_name is None {
            Some(ValidationError::MissingData(Subject::BucketName))
        } else if self.bucket_type is None {
            Some(ValidationError::MissingData(Subject::BucketType))
        } else {
            None
        }
    }
}

/// A request to create a bucket in the making.
#[derive(Debug)]
pub struct CreateBucketBuilder {
    bucket_name: Option<String>,
    bucket_type: Option<BucketType>,
    bucket_info: Option<serde_json::Value>,
    cache_control: Option<String>,
    cors_rules: Option<Vec<CorsRule>>,
    file_lock_enabled: bool,
    lifecycle_rules: Option<Vec<LifecycleRule>>,
    default_server_side_encryption: Option<ServerSideEncryption>,
}

impl View for CreateBucketBuilder {
    type V = CreateBucketBuilderView;

    closed spec fn view(&self) -> CreateBucketBuilderView {
        CreateBucketBuilderView {
            bucket_name: self.bucket_name,
            bucket_type: self.bucket_type,
            bucket_info: self.bucket_info,
            cache_control: self.cache_control,
            cors_rules: self.cors_rules,
            file_lock_enabled: self.file_lock_enabled,
            lifecycle_rules: self.lifecycle_rules,
            default_server_side_encryption: self.default_server_side_encryption,
        }
    }
}

impl Default for CreateBucketBuilder {
    fn default() -> (r: Self)
        ensures
            r@ == CreateBucketBuilderView::empty(),
    {
        CreateBucketBuilder {
            bucket_name: None,
            bucket_type: None,
            bucket_info: None,
            cache_control: None,
            cors_rules: None,
            file_lock_enabled: false,
            lifecycle_rules: None,
            default_server_side_encryption: None,
        }
    }
}

impl CreateBucketBuilder {
    #[verifier::type_invariant]
    spec fn well_formed(self) -> bool {
        &&& self.bucket_name matches Some(name) ==> name_fault(name@) is None
        &&& self.bucket_type != Some(BucketType::Snapshot)
        &&& self.bucket_info matches Some(info) ==> json_is_object(info)
        &&& self.cors_rules matches Some(rules) ==> 0 < rules@.len() <= 100
        &&& self.lifecycle_rules matches Some(rules) ==> !has_conflict(prefixes_of(rules@))
    }

    /// Sets the name of the bucket: 6 to 50 ASCII letters, digits and `-`,
    /// not beginning with `b2-`.
    pub fn name(self, name: &str) -> (r: Result<Self, BucketValidationError>)
        ensures
            match r {
                Ok(b) => {
                    &&& name_fault(name@) is None
                    &&& b@.bucket_name matches Some(set) && set@ == name@
                    &&& b@ == (CreateBucketBuilderView { bucket_name: b@.bucket_name, ..self@ })
                },
                Err(e) => name_fault(name@) matches Some(fault) && e == bucket_name_error(fault),
            },
    {
        proof {
            use_type_invariant(&self);
        }
        match validated_bucket_name(name) {
            Ok(name) => Ok(
                CreateBucketBuilder {
                    bucket_name: Some(name),
                    bucket_type: self.bucket_type,
                    bucket_info: self.bucket_info,
                    cache_control: self.cache_control,
                    cors_rules: self.cors_rules,
                    file_lock_enabled: self.file_lock_enabled,
                    lifecycle_rules: self.lifecycle_rules,
                    default_server_side_encryption: self.default_server_side_encryption,
                },
            ),
            Err(e) => Err(e),
        }
    }

    /// Sets the type of the bucket, which is public or private: a snapshot
    /// bucket cannot be asked for.
    pub fn bucket_type(self, typ: BucketType) -> (r: Result<Self, ValidationError>)
        ensures
            match r {
                Ok(b) => typ != BucketType::Snapshot && b@ == (CreateBucketBuilderView {
                    bucket_type: Some(typ),
                    ..self@
                }),
                Err(e) => typ == BucketType::Snapshot && e == ValidationError::OutOfBounds(
                    Subject::BucketType,
                ),
            },
    {
        proof {
            use_type_invariant(&self);
        }
        match typ {
            BucketType::Snapshot => Err(ValidationError::OutOfBounds(Subject::BucketType)),
            _ => Ok(
                CreateBucketBuilder {
                    bucket_name: self.bucket_name,
                    bucket_type: Some(typ),
                    bucket_info: self.bucket_info,
                    cache_control: self.cache_control,
                    cors_rules: self.cors_rules,
                    file_lock_enabled: self.file_lock_enabled,
                    lifecycle_rules: self.lifecycle_rules,
                    default_server_side_encryption: self.default_server_side_encryption,
                },
            ),
        }
    }

    /// Sets the information stored with the bucket, which must be a JSON
    /// object.
    pub fn bucket_info(self, info: serde_json::Value) -> (r: Result<Self, ValidationError>)
        ensures
            match r {
                Ok(b) => json_is_object(info) && b@ == (CreateBucketBuilderView {
                    bucket_info: Some(info),
                    ..self@
                }),
                Err(e) => !json_is_object(info) && e == ValidationError::BadFormat(
                    Subject::BucketInfo,
                ),
            },
    {
        proof {
            use_type_invariant(&self);
        }
        if is_object(&info) {
            Ok(
                CreateBucketBuilder {
                    bucket_name: self.bucket_name,
                    bucket_type: self.bucket_type,
                    bucket_info: Some(info),
                    cache_control: self.cache_control,
                    cors_rules: self.cors_rules,
                    file_lock_enabled: self.file_lock_enabled,
                    lifecycle_rules: self.lifecycle_rules,
                    default_server_side_encryption: self.default_server_side_encryption,
                },
            )
        } else {
            Err(ValidationError::BadFormat(Subject::BucketInfo))
        }
    }

    /// Sets the default `Cache-Control` header of the files of the bucket.
    /// It takes the place of a `Cache-Control` member of the information of
    /// the bucket.
    pub fn cache_control(self, cache_control: String) -> (r: Self)
        ensures
            r@ == (CreateBucketBuilderView { cache_control: Some(cache_control), ..self@ }),
    {
        proof {
            use_type_invariant(&self);
        }
        CreateBucketBuilder {
            bucket_name: self.bucket_name,
            bucket_type: self.bucket_type,
            bucket_info: self.bucket_info,
            cache_control: Some(cache_control),
            cors_rules: self.cors_rules,
            file_lock_enabled: self.file_lock_enabled,
            lifecycle_rules: self.lifecycle_rules,
            default_server_side_encryption: self.default_server_side_encryption,
        }
    }

    /// Sets the CORS rules of the bucket, at most 100. An empty list changes
    /// nothing.
    pub fn cors_rules(self, rules: Vec<CorsRule>) -> (r: Result<Self, ValidationError>)
        ensures
            match r {
                Ok(b) => rules@.len() <= 100 && b@ == if rules@.len() == 0 {
                    self@
                } else {
                    CreateBucketBuilderView { cors_rules: Some(rules), ..self@ }
                },
                Err(e) => rules@.len() > 100 && e == ValidationError::OutOfBounds(
                    Subject::CorsRules,
                ),
            },
    {
        proof {
            use_type_invariant(&self);
        }
        if rules.len() > 100 {
            Err(ValidationError::OutOfBounds(Subject::CorsRules))
        } else if rules.len() == 0 {
            Ok(self)
        } else {
            Ok(
                CreateBucketBuilder {
                    bucket_name: self.bucket_name,
                    bucket_type: self.bucket_type,
                    bucket_info: self.bucket_info,
                    cache_control: self.cache_control,
                    cors_rules: Some(rules),
                    file_lock_enabled: self.file_lock_enabled,
                    lifecycle_rules: self.lifecycle_rules,
                    default_server_side_encryption: self.default_server_side_encryption,
                },
            )
        }
    }

    /// Lets files in the bucket be locked.
    pub fn with_file_lock(self) -> (r: Self)
        ensures
            r@ == (CreateBucketBuilderView { file_lock_enabled: true, ..self@ }),
    {
        proof {
            use_type_invariant(&self);
        }
        CreateBucketBuilder {
            bucket_name: self.bucket_name,
            bucket_type: self.bucket_type,
            bucket_info: self.bucket_info,
            cache_control: self.cache_control,
            cors_rules: self.cors_rules,
            file_lock_enabled: true,
            lifecycle_rules: self.lifecycle_rules,
            default_server_side_encryption: self.default_server_side_encryption,
        }
    }

    /// Lets no file in the bucket be locked, as it is at the start.
    pub fn without_file_lock(self) -> (r: Self)
        ensures
            r@ == (CreateBucketBuilderView { file_lock_enabled: false, ..self@ }),
    {
        proof {
            use_type_invariant(&self);
        }
        CreateBucketBuilder {
            bucket_name: self.bucket_name,
            bucket_type: self.bucket_type,
            bucket_info: self.bucket_info,
            cache_control: self.cache_control,
            cors_rules: self.cors_rules,
            file_lock_enabled: false,
            lifecycle_rules: self.lifecycle_rules,
            default_server_side_encryption: self.default_server_side_encryption,
        }
    }

    /// Sets the lifecycle rules of the bucket. Rules of which one covers
    /// files of another are refused with the report of their conflicts.
    pub fn lifecycle_rules(self, rules: Vec<LifecycleRule>) -> (r: Result<
        Self,
        LifecycleRuleValidationError,
    >)
        ensures
            match r {
                Ok(b) => !has_conflict(prefixes_of(rules@)) && b@ == (CreateBucketBuilderView {
                    lifecycle_rules: Some(rules),
                    ..self@
                }),
                Err(LifecycleRuleValidationError::ConflictingRules(report)) => {
                    &&& has_conflict(prefixes_of(rules@))
                    &&& is_conflict_report(prefixes_of(rules@), report_view(report@))
                },
            },
    {
        proof {
            use_type_invariant(&self);
        }
        match validated_lifecycle_rules(rules) {
            Ok(rules) => Ok(
                CreateBucketBuilder {
                    bucket_name: self.bucket_name,
                    bucket_type: self.bucket_type,
                    bucket_info: self.bucket_info,
                    cache_control: self.cache_control,
                    cors_rules: self.cors_rules,
                    file_lock_enabled: self.file_lock_enabled,
                    lifecycle_rules: Some(rules),
                    default_server_side_encryption: self.default_server_side_encryption,
                },
            ),
            Err(e) => Err(e),
        }
    }

    /// Sets the encryption of the bucket.
    pub fn encryption_settings(self, settings: ServerSideEncryption) -> (r: Self)
        ensures
            r@ == (CreateBucketBuilderView {
                default_server_side_encryption: Some(settings),
                ..self@
            }),
    {
        proof {
            use_type_invariant(&self);
        }
        CreateBucketBuilder {
            bucket_name: self.bucket_name,
            bucket_type: self.bucket_type,
            bucket_info: self.bucket_info,
            cache_control: self.cache_control,
            cors_rules: self.cors_rules,
            file_lock_enabled: self.file_lock_enabled,
            lifecycle_rules: self.lifecycle_rules,
            default_server_side_encryption: Some(settings),
        }
    }

    /// The request, if the name and the type of the bucket are set. The
    /// account is left open, and a cache setting is worked into the
    /// information of the bucket.
    pub fn build(self) -> (r: Result<CreateBucket, ValidationError>)
        ensures
            match r {
                Ok(request) => {
                    &&& self@.fault() is None
                    &&& request@.account_id is None
                    &&& Some(request@.bucket_name) == self@.bucket_name
                    &&& Some(request@.bucket_type) == self@.bucket_type
                    &&& info_with_cache_control(
                        self@.bucket_info,
                        self@.cache_control,
                        request@.bucket_info,
                    )
                    &&& request@.cors_rules == self@.cors_rules
                    &&& request@.file_lock_enabled == self@.file_lock_enabled
                    &&& request@.lifecycle_rules == self@.lifecycle_rules
                    &&& request@.default_server_side_encryption
                        == self@.default_server_side_encryption
                    &&& request@.valid()
                },
                Err(e) => self@.fault() == Some(e),
            },
    {
        proof {
            use_type_invariant(&self);
        }
        let bucket_name = match self.bucket_name {
            Some(name) => name,
            None => {
                return Err(ValidationError::MissingData(Subject::BucketName));
            },
        };
        let bucket_type = match self.bucket_type {
            Some(typ) => typ,
            None => {
                return Err(ValidationError::MissingData(Subject::BucketType));
            },
        };
        let bucket_info = with_cache_control(self.bucket_info, self.cache_control);
        Ok(
            CreateBucket {
                account_id: None,
                bucket_name,
                bucket_type,
                bucket_info,
                cors_rules: self.cors_rules,
                file_lock_enabled: self.file_lock_enabled,
                lifecycle_rules: self.lifecycle_rules,
                default_server_side_encryption: self.default_server_side_encryption,
            },
        )
    }
}

/// The capabilities that a request to create a bucket needs.
fn create_bucket_needs(request: &CreateBucket) -> (wanted: Vec<Capability>)
    ensures
        wanted@ == request@.needs(),
{
    let mut wanted: Vec<Capability> = Vec::new();
    wanted.push(Capability::WriteBuckets);
    if request.file_lock_enabled {
        wanted.push(Capability::WriteBucketRetentions);
    }
    if request.default_server_side_encryption.is_some() {
        wanted.push(Capability::WriteBucketEncryption);
    }
    assert(wanted@ =~= request@.needs());
    wanted
}

/// Makes a request to create a bucket ready to be sent for the account
/// `account_id`, whose authorization grants the capabilities `granted`.
///
/// The request needs the capability to write buckets; with the file lock on,
/// also the one to write bucket retentions; with an encryption setting, also
/// the one to write bucket encryption. The first that is missing is
/// reported. Else the request comes back with the account filled in.
pub fn prepare_create_bucket(
    granted: &Vec<Capability>,
    account_id: &str,
    request: CreateBucket,
) -> (r: Result<CreateBucket, MissingCapability>)
    ensures
        match r {
            Ok(ready) => {
                &&& first_missing(granted@, request@.needs()) is None
                &&& ready@.account_id matches Some(id) && id@ == account_id@
                &&& ready@ == (CreateBucketView { account_id: ready@.account_id, ..request@ })
            },
            Err(e) => first_missing(granted@, request@.needs()) == Some(e.capability),
        },
{
    let wanted = create_bucket_needs(&request);
    match require_capabilities(granted, &wanted) {
        Err(e) => Err(e),
        Ok(_) => Ok(
            CreateBucket {
                account_id: Some(account_id.to_owned()),
                bucket_name: request.bucket_name,
                bucket_type: request.bucket_type,
                bucket_info: request.bucket_info,
                cors_rules: request.cors_rules,
                file_lock_enabled: request.file_lock_enabled,
                lifecycle_rules: request.lifecycle_rules,
                default_server_side_encryption: request.default_server_side_encryption,
            },
        ),
    }
}

/// What a request to update a bucket holds.
pub struct UpdateBucketView {
    pub account_id: Option<String>,
    pub bucket_id: String,
    pub bucket_type: Option<BucketType>,
    pub bucket_info: Option<serde_json::Value>,
    pub cors_rules: Option<Vec<CorsRule>>,
    pub default_retention: Option<FileRetentionPolicy>,
    pub default_server_side_encryption: Option<ServerSideEncryption>,
    pub lifecycle_rules: Option<Vec<LifecycleRule>>,
    pub if_revision_is: Option<u16>,
}

impl UpdateBucketView {
    /// What holds of every request that a builder gives.
    pub open spec fn valid(self) -> bool {
        &&& self.bucket_type != Some(BucketType::Snapshot)
        &&& self.cors_rules matches Some(rules) ==> 0 < rules@.len() <= 100
        &&& self.lifecycle_rules matches Some(rules) ==> !has_conflict(prefixes_of(rules@))
    }

    /// The capabilities that the request needs, in the order in which they
    /// are asked for.
    pub open spec fn needs(self) -> Seq<Capability> {
        seq![Capability::WriteBuckets] + if self.default_retention is Some {
            seq![Capability::WriteBucketRetentions]
        } else {
            Seq::empty()
        } + if self.default_server_side_encryption is Some {
            seq![Capability::WriteBucketEncryption]
        } else {
            Seq::empty()
        }
    }
}

/// A request to change settings of a bucket. What is not set stays as it is.
#[derive(Clone, Debug)]
pub struct UpdateBucket {
    account_id: Option<String>,
    bucket_id: String,
    bucket_type: Option<BucketType>,
    bucket_info: Option<serde_json::Value>,
    cors_rules: Option<Vec<CorsRule>>,
    default_retention: Option<FileRetentionPolicy>,
    default_server_side_encryption: Option<ServerSideEncryption>,
    lifecycle_rules: Option<Vec<LifecycleRule>>,
    if_revision_is: Option<u16>,
}

impl View for UpdateBucket {
    type V = UpdateBucketView;

    closed spec fn view(&self) -> UpdateBucketView {
        UpdateBucketView {
            account_id: self.account_id,
            bucket_id: self.bucket_id,
            bucket_type: self.bucket_type,
            bucket_info: self.bucket_info,
            cors_rules: self.cors_rules,
            default_retention: self.default_retention,
            default_server_side_encryption: self.default_server_side_encryption,
            lifecycle_rules: self.lifecycle_rules,
            if_revision_is: self.if_revision_is,
        }
    }
}

impl UpdateBucket {
    /// A builder with nothing set.
    pub fn builder() -> (r: UpdateBucketBuilder)
        ensures
            r@ == UpdateBucketBuilderView::empty(),
    {
        UpdateBucketBuilder::default()
    }

    /// The account that the bucket belongs to, once it is filled in.
    pub fn account_id(&self) -> (r: Option<&String>)
        ensures
            refers_to(r, self@.account_id),
    {
        self.account_id.as_ref()
    }

    /// The ID of the bucket.
    pub fn bucket_id(&self) -> (r: &str)
        ensures
            r@ == self@.bucket_id@,
    {
        self.bucket_id.as_str()
    }

    /// The new type of the bucket, if it is to change.
    pub fn bucket_type(&self) -> (r: Option<BucketType>)
        ensures
            r == self@.bucket_type,
    {
        self.bucket_type
    }

    /// The new information of the bucket, if it is to change.
    pub fn bucket_info(&self) -> (r: Option<&serde_json::Value>)
        ensures
            refers_to(r, self@.bucket_info),
    {
        self.bucket_info.as_ref()
    }

    /// The new CORS rules of the bucket, if they are to change.
    pub fn cors_rules(&self) -> (r: Option<&Vec<CorsRule>>)
        ensures
            refers_to(r, self@.cors_rules),
    {
        self.cors_rules.as_ref()
    }

    /// The new default retention policy of the bucket, if it is to change.
    pub fn default_retention(&self) -> (r: Option<FileRetentionPolicy>)
        ensures
            r == self@.default_retention,
    {
        self.default_retention
    }

    /// The new encryption setting of the bucket, if it is to change.
    pub fn default_server_side_encryption(&self) -> (r: Option<&ServerSideEncryption>)
        ensures
            refers_to(r, self@.default_server_side_encryption),
    {
        self.default_server_side_encryption.as_ref()
    }

    /// The new lifecycle rules of the bucket, if they are to change.
    pub fn lifecycle_rules(&self) -> (r: Option<&Vec<LifecycleRule>>)
        ensures
            refers_to(r, self@.lifecycle_rules),
    {
        self.lifecycle_rules.as_ref()
    }

    /// The revision that the bucket must have for the update to be made, if
    /// one is asked for.
    pub fn if_revision_is(&self) -> (r: Option<u16>)
        ensures
            r == self@.if_revision_is,
    {
        self.if_revision_is
    }
}

/// What a builder of a request to update a bucket holds.
pub struct UpdateBucketBuilderView {
    pub bucket_id: Option<String>,
    pub bucket_type: Option<BucketType>,
    pub bucket_info: Option<serde_json::Value>,
    pub cache_control: Option<String>,
    pub cors_rules: Option<Vec<CorsRule>>,
    pub default_retention: Option<FileRetentionPolicy>,
    pub default_server_side_encryption: Option<ServerSideEncryption>,
    pub lifecycle_rules: Option<Vec<LifecycleRule>>,
    pub if_revision_is: Option<u16>,
}

impl UpdateBucketBuilderView {
    /// Nothing set.
    pub open spec fn empty() -> UpdateBucketBuilderView {
        UpdateBucketBuilderView {
            bucket_id: None,
            bucket_type: None,
            bucket_info: None,
            cache_control: None,
            cors_rules: None,
            default_retention: None,
            default_server_side_encryption: None,
            lifecycle_rules: None,
            if_revision_is: None,
        }
    }
}

/// A request to update a bucket in the making.
#[derive(Debug)]
pub struct UpdateBucketBuilder {
    bucket_id: Option<String>,
    bucket_type: Option<BucketType>,
    bucket_info: Option<serde_json::Value>,
    cache_control: Option<String>,
    cors_rules: Option<Vec<CorsRule>>,
    default_retention: Option<FileRetentionPolicy>,
    default_server_side_encryption: Option<ServerSideEncryption>,
    lifecycle_rules: Option<Vec<LifecycleRule>>,
    if_revision_is: Option<u16>,
}

impl View for UpdateBucketBuilder {
    type V = UpdateBucketBuilderView;

    closed spec fn view(&self) -> UpdateBucketBuilderView {
        UpdateBucketBuilderView {
            bucket_id: self.bucket_id,
            bucket_type: self.bucket_type,
            bucket_info: self.bucket_info,
            cache_control: self.cache_control,
            cors_rules: self.cors_rules,
            default_retention: self.default_retention,
            default_server_side_encryption: self.default_server_side_encryption,
            lifecycle_rules: self.lifecycle_rules,
            if_revision_is: self.if_revision_is,
        }
    }
}

impl Default for UpdateBucketBuilder {
    fn default() -> (r: Self)
        ensures
            r@ == UpdateBucketBuilderView::empty(),
    {
        UpdateBucketBuilder {
            bucket_id: None,
            bucket_type: None,
            bucket_info: None,
            cache_control: None,
            cors_rules: None,
            default_retention: None,
            default_server_side_encryption: None,
            lifecycle_rules: None,
            if_revision_is: None,
        }
    }
}

impl UpdateBucketBuilder {
    #[verifier::type_invariant]
    spec fn well_formed(self) -> bool {
        &&& self.bucket_type != Some(BucketType::Snapshot)
        &&& self.cors_rules matches Some(rules) ==> 0 < rules@.len() <= 100
        &&& self.lifecycle_rules matches Some(rules) ==> !has_conflict(prefixes_of(rules@))
    }

    /// Sets the ID of the bucket to update.
    pub fn bucket_id(self, bucket_id: &str) -> (r: Self)
        ensures
            r@.bucket_id matches Some(set) && set@ == bucket_id@,
            r@ == (UpdateBucketBuilderView { bucket_id: r@.bucket_id, ..self@ }),
    {
        proof {
            use_type_invariant(&self);
        }
        UpdateBucketBuilder {
            bucket_id: Some(bucket_id.to_owned()),
            bucket_type: self.bucket_type,
            bucket_info: self.bucket_info,
            cache_control: self.cache_control,
            cors_rules: self.cors_rules,
            default_retention: self.default_retention,
            default_server_side_encryption: self.default_server_side_encryption,
            lifecycle_rules: self.lifecycle_rules,
            if_revision_is: self.if_revision_is,
        }
    }

    /// Sets the new type of the bucket, which is public or private.
    pub fn bucket_type(self, typ: BucketType) -> (r: Result<Self, ValidationError>)
        ensures
            match r {
                Ok(b) => typ != BucketType::Snapshot && b@ == (UpdateBucketBuilderView {
                    bucket_type: Some(typ),
                    ..self@
                }),
                Err(e) => typ == BucketType::Snapshot && e == ValidationError::OutOfBounds(
                    Subject::BucketType,
                ),
            },
    {
        proof {
            use_type_invariant(&self);
        }
        match typ {
            BucketType::Snapshot => Err(ValidationError::OutOfBounds(Subject::BucketType)),
            _ => Ok(
                UpdateBucketBuilder {
                    bucket_id: self.bucket_id,
                    bucket_type: Some(typ),
                    bucket_info: self.bucket_info,
                    cache_control: self.cache_control,
                    cors_rules: self.cors_rules,
                    default_retention: self.default_retention,
                    default_server_side_encryption: self.default_server_side_encryption,
                    lifecycle_rules: self.lifecycle_rules,
                    if_revision_is: self.if_revision_is,
                },
            ),
        }
    }

    /// Sets the new information of the bucket, which takes the place of all
    /// that the bucket holds.
    pub fn bucket_info(self, info: serde_json::Value) -> (r: Self)
        ensures
            r@ == (UpdateBucketBuilderView { bucket_info: Some(info), ..self@ }),
    {
        proof {
            use_type_invariant(&self);
        }
        UpdateBucketBuilder {
            bucket_id: self.bucket_id,
            bucket_type: self.bucket_type,
            bucket_info: Some(info),
            cache_control: self.cache_control,
            cors_rules: self.cors_rules,
            default_retention: self.default_retention,
            default_server_side_encryption: self.default_server_side_encryption,
            lifecycle_rules: self.lifecycle_rules,
            if_revision_is: self.if_revision_is,
        }
    }

    /// Sets the default `Cache-Control` header of the files of the bucket.
    pub fn cache_control(self, cache_control: String) -> (r: Self)
        ensures
            r@ == (UpdateBucketBuilderView { cache_control: Some(cache_control), ..self@ }),
    {
        proof {
            use_type_invariant(&self);
        }
        UpdateBucketBuilder {
            bucket_id: self.bucket_id,
            bucket_type: self.bucket_type,
            bucket_info: self.bucket_info,
            cache_control: Some(cache_control),
            cors_rules: self.cors_rules,
            default_retention: self.default_retention,
            default_server_side_encryption: self.default_server_side_encryption,
            lifecycle_rules: self.lifecycle_rules,
            if_revision_is: self.if_revision_is,
        }
    }

    /// Sets the new CORS rules of the bucket, at most 100. An empty list
    /// changes nothing.
    pub fn cors_rules(self, rules: Vec<CorsRule>) -> (r: Result<Self, ValidationError>)
        ensures
            match r {
                Ok(b) => rules@.len() <= 100 && b@ == if rules@.len() == 0 {
                    self@
                } else {
                    UpdateBucketBuilderView { cors_rules: Some(rules), ..self@ }
                },
                Err(e) => rules@.len() > 100 && e == ValidationError::OutOfBounds(
                    Subject::CorsRules,
                ),
            },
    {
        proof {
            use_type_invariant(&self);
        }
        if rules.len() > 100 {
            Err(ValidationError::OutOfBounds(Subject::CorsRules))
        } else if rules.len() == 0 {
            Ok(self)
        } else {
            Ok(
                UpdateBucketBuilder {
                    bucket_id: self.bucket_id,
                    bucket_type: self.bucket_type,
                    bucket_info: self.bucket_info,
                    cache_control: self.cache_control,
                    cors_rules: Some(rules),
                    default_retention: self.default_retention,
                    default_server_side_encryption: self.default_server_side_encryption,
                    lifecycle_rules: self.lifecycle_rules,
                    if_revision_is: self.if_revision_is,
                },
            )
        }
    }

    /// Sets the new default retention policy of the bucket.
    pub fn retention_policy(self, policy: FileRetentionPolicy) -> (r: Self)
        ensures
            r@ == (UpdateBucketBuilderView { default_retention: Some(policy), ..self@ }),
    {
        proof {
            use_type_invariant(&self);
        }
        UpdateBucketBuilder {
            bucket_id: self.bucket_id,
            bucket_type: self.bucket_type,
            bucket_info: self.bucket_info,
            cache_control: self.cache_control,
            cors_rules: self.cors_rules,
            default_retention: Some(policy),
            default_server_side_encryption: self.default_server_side_encryption,
            lifecycle_rules: self.lifecycle_rules,
            if_revision_is: self.if_revision_is,
        }
    }

    /// Sets the new encryption of the bucket.
    pub fn encryption_settings(self, settings: ServerSideEncryption) -> (r: Self)
        ensures
            r@ == (UpdateBucketBuilderView {
                default_server_side_encryption: Some(settings),
                ..self@
            }),
    {
        proof {
            use_type_invariant(&self);
        }
        UpdateBucketBuilder {
            bucket_id: self.bucket_id,
            bucket_type: self.bucket_type,
            bucket_info: self.bucket_info,
            cache_control: self.cache_control,
            cors_rules: self.cors_rules,
            default_retention: self.default_retention,
            default_server_side_encryption: Some(settings),
            lifecycle_rules: self.lifecycle_rules,
            if_revision_is: self.if_revision_is,
        }
    }

    /// Sets the new lifecycle rules of the bucket. Rules of which one covers
    /// files of another are refused with the report of their conflicts.
    pub fn lifecycle_rules(self, rules: Vec<LifecycleRule>) -> (r: Result<
        Self,
        LifecycleRuleValidationError,
    >)
        ensures
            match r {
                Ok(b) => !has_conflict(prefixes_of(rules@)) && b@ == (UpdateBucketBuilderView {
                    lifecycle_rules: Some(rules),
                    ..self@
                }),
                Err(LifecycleRuleValidationError::ConflictingRules(report)) => {
                    &&& has_conflict(prefixes_of(rules@))
                    &&& is_conflict_report(prefixes_of(rules@), report_view(report@))
                },
            },
    {
        proof {
            use_type_invariant(&self);
        }
        match validated_lifecycle_rules(rules) {
            Ok(rules) => Ok(
                UpdateBucketBuilder {
                    bucket_id: self.bucket_id,
                    bucket_type: self.bucket_type,
                    bucket_info: self.bucket_info,
                    cache_control: self.cache_control,
                    cors_rules: self.cors_rules,
                    default_retention: self.default_retention,
                    default_server_side_encryption: self.default_server_side_encryption,
                    lifecycle_rules: Some(rules),
                    if_revision_is: self.if_revision_is,
                },
            ),
            Err(e) => Err(e),
        }
    }

    /// Lets the update be made only if the bucket has this revision.
    pub fn if_revision_is(self, revision: u16) -> (r: Self)
        ensures
            r@ == (UpdateBucketBuilderView { if_revision_is: Some(revision), ..self@ }),
    {
        proof {
            use_type_invariant(&self);
        }
        UpdateBucketBuilder {
            bucket_id: self.bucket_id,
            bucket_type: self.bucket_type,
            bucket_info: self.bucket_info,
            cache_control: self.cache_control,
            cors_rules: self.cors_rules,
            default_retention: self.default_retention,
            default_server_side_encryption: self.default_server_side_encryption,
            lifecycle_rules: self.lifecycle_rules,
            if_revision_is: Some(revision),
        }
    }

    /// The request, if the ID of the bucket is set. The account is left
    /// open, and a cache setting is worked into the information of the
    /// bucket.
    pub fn build(self) -> (r: Result<UpdateBucket, ValidationError>)
        ensures
            match r {
                Ok(request) => {
                    &&& request@.account_id is None
                    &&& Some(request@.bucket_id) == self@.bucket_id
                    &&& request@.bucket_type == self@.bucket_type
                    &&& info_with_cache_control(
                        self@.bucket_info,
                        self@.cache_control,
                        request@.bucket_info,
                    )
                    &&& request@.cors_rules == self@.cors_rules
                    &&& request@.default_retention == self@.default_retention
                    &&& request@.default_server_side_encryption
                        == self@.default_server_side_encryption
                    &&& request@.lifecycle_rules == self@.lifecycle_rules
                    &&& request@.if_revision_is == self@.if_revision_is
                    &&& request@.valid()
                },
                Err(e) => self@.bucket_id is None && e == ValidationError::MissingData(
                    Subject::BucketId,
                ),
            },
    {
        proof {
            use_type_invariant(&self);
        }
        let bucket_id = match self.bucket_id {
            Some(id) => id,
            None => {
                return Err(ValidationError::MissingData(Subject::BucketId));
            },
        };
        let bucket_info = with_cache_control(self.bucket_info, self.cache_control);
        Ok(
            UpdateBucket {
                account_id: None,
                bucket_id,
                bucket_type: self.bucket_type,
                bucket_info,
                cors_rules: self.cors_rules,
                default_retention: self.default_retention,
                default_server_side_encryption: self.default_server_side_encryption,
                lifecycle_rules: self.lifecycle_rules,
                if_revision_is: self.if_revision_is,
            },
        )
    }
}

/// The capabilities that a request to update a bucket needs.
fn update_bucket_needs(request: &UpdateBucket) -> (wanted: Vec<Capability>)
    ensures
        wanted@ == request@.needs(),
{
    let mut wanted: Vec<Capability> = Vec::new();
    wanted.push(Capability::WriteBuckets);
    if request.default_retention.is_some() {
        wanted.push(Capability::WriteBucketRetentions);
    }
    if request.default_server_side_encryption.is_some() {
        wanted.push(Capability::WriteBucketEncryption);
    }
    assert(wanted@ =~= request@.needs());
    wanted
}

/// Makes a request to update a bucket ready to be sent for the account
/// `account_id`, whose authorization grants the capabilities `granted`.
///
/// The request needs the capability to write buckets; with a retention
/// policy, also the one to write bucket retentions; with an encryption
/// setting, also the one to write bucket encryption. The first that is
/// missing is reported. Else the request comes back with the account filled
/// in.
pub fn prepare_update_bucket(
    granted: &Vec<Capability>,
    account_id: &str,
    request: UpdateBucket,
) -> (r: Result<UpdateBucket, MissingCapability>)
    ensures
        match r {
            Ok(ready) => {
                &&& first_missing(granted@, request@.needs()) is None
                &&& ready@.account_id matches Some(id) && id@ == account_id@
                &&& ready@ == (UpdateBucketView { account_id: ready@.account_id, ..request@ })
            },
            Err(e) => first_missing(granted@, request@.needs()) == Some(e.capability),
        },
{
    let wanted = update_bucket_needs(&request);
    match require_capabilities(granted, &wanted) {
        Err(e) => Err(e),
        Ok(_) => Ok(
            UpdateBucket {
                account_id: Some(account_id.to_owned()),
                bucket_id: request.bucket_id,
                bucket_type: request.bucket_type,
                bucket_info: request.bucket_info,
                cors_rules: request.cors_rules,
                default_retention: request.default_retention,
                default_server_side_encryption: request.default_server_side_encryption,
                lifecycle_rules: request.lifecycle_rules,
                if_revision_is: request.if_revision_is,
            },
        ),
    }
}

/// A request to delete a bucket.
#[derive(Clone, Debug, PartialEq, Eq)]
pub struct DeleteBucket {
    pub account_id: String,
    pub bucket_id: String,
}

/// Makes the request to delete the bucket `bucket_id` of the account
/// `account_id`, if the capabilities `granted` hold the one to delete
/// buckets.
pub fn prepare_delete_bucket(granted: &Vec<Capability>, account_id: &str, bucket_id: &str) -> (r:
    Result<DeleteBucket, MissingCapability>)
    ensures
        match r {
            Ok(ready) => {
                &&& granted@.contains(Capability::DeleteBuckets)
                &&& ready.account_id@ == account_id@
                &&& ready.bucket_id@ == bucket_id@
            },
            Err(e) => !granted@.contains(Capability::DeleteBuckets) && e.capability
                == Capability::DeleteBuckets,
        },
{
    if has_capability(granted, Capability::DeleteBuckets) {
        Ok(DeleteBucket { account_id: account_id.to_owned(), bucket_id: bucket_id.to_owned() })
    } else {
        Err(MissingCapability { capability: Capability::DeleteBuckets })
    }
}

/// The one bucket that a request to list buckets asks for.
#[derive(Clone, Debug, PartialEq, Eq)]
pub enum BucketRef {
    /// The bucket with this ID.
    Id(String),
    /// The bucket with this name.
    Name(String),
}

/// The types of buckets that a request to list buckets asks for.
#[derive(Clone, Copy, Debug, PartialEq, Eq, Structural)]
pub enum BucketFilter {
    /// Buckets of this type.
    Type(BucketType),
    /// Buckets of every type.
    All,
}

impl BucketFilter {
    /// The filter as it is written on the wire.
    pub open spec fn wire_name(self) -> Seq<char> {
        match self {
            BucketFilter::Type(typ) => typ.wire_name(),
            BucketFilter::All => "all"@,
        }
    }

    /// The filter as it is written on the wire.
    pub fn name(&self) -> (s: &'static str)
        ensures
            s@ == self.wire_name(),
    {
        match self {
            BucketFilter::Type(typ) => typ.name(),
            BucketFilter::All => "all",
        }
    }
}

/// The filters for the bucket types `types`, one for each, in their order.
pub open spec fn filters_of(types: Seq<BucketType>) -> Seq<BucketFilter> {
    Seq::new(types.len(), |i: int| BucketFilter::Type(types[i]))
}

/// The filters as they are written on the wire.
pub open spec fn filter_names(filters: Seq<BucketFilter>) -> Seq<Seq<char>> {
    Seq::new(filters.len(), |i: int| filters[i].wire_name())
}

/// What a request to list buckets holds.
pub struct ListBucketsView {
    pub account_id: Option<String>,
    pub bucket: Option<BucketRef>,
    pub bucket_types: Option<Seq<BucketFilter>>,
}

/// A request to list the buckets of an account: all of them, or the one
/// with an ID or a name, and of all types or of some.
#[derive(Clone, Debug)]
pub struct ListBuckets {
    account_id: Option<String>,
    bucket: Option<BucketRef>,
    bucket_types: Option<Vec<BucketFilter>>,
}

impl View for ListBuckets {
    type V = ListBucketsView;

    closed spec fn view(&self) -> ListBucketsView {
        ListBucketsView {
            account_id: self.account_id,
            bucket: self.bucket,
            bucket_types: match self.bucket_types {
                Some(filters) => Some(filters@),
                None => None,
            },
        }
    }
}

impl ListBuckets {
    /// A builder with nothing set.
    pub fn builder() -> (r: ListBucketsBuilder)
        ensures
            r@ == (ListBucketsView { account_id: None, bucket: None, bucket_types: None }),
    {
        ListBucketsBuilder::default()
    }

    /// The account whose buckets are listed, once it is filled in.
    pub fn account_id(&self) -> (r: Option<&String>)
        ensures
            refers_to(r, self@.account_id),
    {
        self.account_id.as_ref()
    }

    /// The bucket that is asked for, if one is.
    pub fn bucket(&self) -> (r: Option<&BucketRef>)
        ensures
            refers_to(r, self@.bucket),
    {
        self.bucket.as_ref()
    }

    /// The types of buckets that are asked for, if any are.
    pub fn bucket_types(&self) -> (r: Option<&Vec<BucketFilter>>)
        ensures
            match r {
                Some(filters) => self@.bucket_types == Some(filters@),
                None => self@.bucket_types is None,
            },
    {
        self.bucket_types.as_ref()
    }
}

/// A request to list buckets in the making.
#[derive(Debug)]
pub struct ListBucketsBuilder {
    bucket: Option<BucketRef>,
    bucket_types: Option<Vec<BucketFilter>>,
}

impl View for ListBucketsBuilder {
    type V = ListBucketsView;

    /// What the request will hold; the account is open.
    closed spec fn view(&self) -> ListBucketsView {
        ListBucketsView {
            account_id: None,
            bucket: self.bucket,
            bucket_types: match self.bucket_types {
                Some(filters) => Some(filters@),
                None => None,
            },
        }
    }
}

impl Default for ListBucketsBuilder {
    fn default() -> (r: Self)
        ensures
            r@ == (ListBucketsView { account_id: None, bucket: None, bucket_types: None }),
    {
        ListBucketsBuilder { bucket: None, bucket_types: None }
    }
}

impl ListBucketsBuilder {
    /// Asks for the bucket with this ID only, in place of a bucket asked for
    /// before.
    pub fn bucket_id(self, id: &str) -> (r: Self)
        ensures
            r@.bucket matches Some(BucketRef::Id(set)) && set@ == id@,
            r@ == (ListBucketsView { bucket: r@.bucket, ..self@ }),
    {
        ListBucketsBuilder {
            bucket: Some(BucketRef::Id(id.to_owned())),
            bucket_types: self.bucket_types,
        }
    }

    /// Asks for the bucket with this name only, in place of a bucket asked
    /// for before. The name is checked as the name of a new bucket is.
    pub fn bucket_name(self, name: &str) -> (r: Result<Self, BucketValidationError>)
        ensures
            match r {
                Ok(b) => {
                    &&& name_fault(name@) is None
                    &&& b@.bucket matches Some(BucketRef::Name(set)) && set@ == name@
                    &&& b@ == (ListBucketsView { bucket: b@.bucket, ..self@ })
                },
                Err(e) => name_fault(name@) matches Some(fault) && e == bucket_name_error(fault),
            },
    {
        match validated_bucket_name(name) {
            Ok(name) => Ok(
                ListBucketsBuilder {
                    bucket: Some(BucketRef::Name(name)),
                    bucket_types: self.bucket_types,
                },
            ),
            Err(e) => Err(e),
        }
    }

    /// Asks for buckets of these types only.
    pub fn bucket_types(self, types: &[BucketType]) -> (r: Self)
        ensures
            r@ == (ListBucketsView { bucket_types: Some(filters_of(types@)), ..self@ }),
    {
        let mut filters: Vec<BucketFilter> = Vec::new();
        let mut i: usize = 0;
        while i < types.len()
            invariant
                i <= types.len(),
                filters@ == filters_of(types@.subrange(0, i as int)),
            decreases types.len() - i,
        {
            filters.push(BucketFilter::Type(types[i]));
            assert(filters@ =~= filters_of(types@.subrange(0, i + 1)));
            i += 1;
        }
        assert(types@.subrange(0, i as int) =~= types@);
        ListBucketsBuilder { bucket: self.bucket, bucket_types: Some(filters) }
    }

    /// Asks for buckets of every type.
    pub fn with_all_bucket_types(self) -> (r: Self)
        ensures
            r@ == (ListBucketsView { bucket_types: Some(seq![BucketFilter::All]), ..self@ }),
    {
        let mut filters: Vec<BucketFilter> = Vec::new();
        filters.push(BucketFilter::All);
        assert(filters@ =~= seq![BucketFilter::All]);
        ListBucketsBuilder { bucket: self.bucket, bucket_types: Some(filters) }
    }

    /// The request, with the account left open.
    pub fn build(self) -> (r: ListBuckets)
        ensures
            r@ == self@,
    {
        ListBuckets { account_id: None, bucket: self.bucket, bucket_types: self.bucket_types }
    }
}

/// A request to list buckets as it travels.
#[derive(Clone, Debug, PartialEq, Eq)]
pub struct InnerListBuckets {
    pub account_id: Option<String>,
    pub bucket_id: Option<String>,
    pub bucket_name: Option<String>,
    pub bucket_types: Option<Vec<String>>,
}

impl InnerListBuckets {
    /// The record of a request to list buckets: the ID or the name of the
    /// bucket asked for, whichever the request holds, and the bucket types
    /// as they are written on the wire.
    pub fn from(other: ListBuckets) -> (r: Self)
        ensures
            r.account_id == other@.account_id,
            r.bucket_id == match other@.bucket {
                Some(BucketRef::Id(id)) => Some(id),
                _ => None,
            },
            r.bucket_name == match other@.bucket {
                Some(BucketRef::Name(name)) => Some(name),
                _ => None,
            },
            match (r.bucket_types, other@.bucket_types) {
                (Some(names), Some(filters)) => views(names@) == filter_names(filters),
                (None, None) => true,
                _ => false,
            },
    {
        let (bucket_id, bucket_name) = match other.bucket {
            Some(BucketRef::Id(id)) => (Some(id), None),
            Some(BucketRef::Name(name)) => (None, Some(name)),
            None => (None, None),
        };
        let bucket_types = match other.bucket_types {
            None => None,
            Some(filters) => {
                let mut names: Vec<String> = Vec::new();
                let mut i: usize = 0;
                while i < filters.len()
                    invariant
                        i <= filters.len(),
                        names.len() == i,
                        forall|j: int|
                            0 <= j < i ==> (#[trigger] names@[j])@ == filters@[j].wire_name(),
                    decreases filters.len() - i,
                {
                    names.push(filters[i].name().to_owned());
                    i += 1;
                }
                assert(views(names@) =~= filter_names(filters@));
                Some(names)
            },
        };
        InnerListBuckets { account_id: other.account_id, bucket_id, bucket_name, bucket_types }
    }
}

/// Makes a request to list buckets ready to be sent for the account
/// `account_id`, whose authorization grants the capabilities `granted`. The
/// request needs the capability to list buckets.
pub fn prepare_list_buckets(granted: &Vec<Capability>, account_id: &str, request: ListBuckets) -> (r:
    Result<ListBuckets, MissingCapability>)
    ensures
        match r {
            Ok(ready) => {
                &&& granted@.contains(Capability::ListBuckets)
                &&& ready@.account_id matches Some(id) && id@ == account_id@
                &&& ready@ == (ListBucketsView { account_id: ready@.account_id, ..request@ })
            },
            Err(e) => !granted@.contains(Capability::ListBuckets) && e.capability
                == Capability::ListBuckets,
        },
{
    if has_capability(granted, Capability::ListBuckets) {
        Ok(
            ListBuckets {
                account_id: Some(account_id.to_owned()),
                bucket: request.bucket,
                bucket_types: request.bucket_types,
            },
        )
    } else {
        Err(MissingCapability { capability: Capability::ListBuckets })
    }
}

/// What a bucket holds.
pub struct BucketView {
    pub account_id: String,
    pub bucket_id: String,
    pub bucket_name: String,
    pub bucket_type: BucketType,
    pub bucket_info: serde_json::Value,
    pub cors_rules: Vec<CorsRule>,
    pub file_lock_configuration: FileRetentionPolicy,
    pub default_server_side_encryption: BucketEncryptionInfo,
    pub lifecycle_rules: Vec<LifecycleRule>,
    pub revision: u16,
    pub options: Option<Vec<String>>,
}

/// A bucket as the service describes it in a response.
#[derive(Debug)]
pub struct Bucket {
    account_id: String,
    bucket_id: String,
    bucket_name: String,
    bucket_type: BucketType,
    bucket_info: serde_json::Value,
    cors_rules: Vec<CorsRule>,
    file_lock_configuration: FileRetentionPolicy,
    default_server_side_encryption: BucketEncryptionInfo,
    lifecycle_rules: Vec<LifecycleRule>,
    revision: u16,
    options: Option<Vec<String>>,
}

impl View for Bucket {
    type V = BucketView;

    closed spec fn view(&self) -> BucketView {
        BucketView {
            account_id: self.account_id,
            bucket_id: self.bucket_id,
            bucket_name: self.bucket_name,
            bucket_type: self.bucket_type,
            bucket_info: self.bucket_info,
            cors_rules: self.cors_rules,
            file_lock_configuration: self.file_lock_configuration,
            default_server_side_encryption: self.default_server_side_encryption,
            lifecycle_rules: self.lifecycle_rules,
            revision: self.revision,
            options: self.options,
        }
    }
}

impl Bucket {
    /// The bucket that a response describes.
    pub fn new(
        account_id: String,
        bucket_id: String,
        bucket_name: String,
        bucket_type: BucketType,
        bucket_info: serde_json::Value,
        cors_rules: Vec<CorsRule>,
        file_lock_configuration: FileRetentionPolicy,
        default_server_side_encryption: BucketEncryptionInfo,
        lifecycle_rules: Vec<LifecycleRule>,
        revision: u16,
        options: Option<Vec<String>>,
    ) -> (r: Self)
        ensures
            r@ == (BucketView {
                account_id,
                bucket_id,
                bucket_name,
                bucket_type,
                bucket_info,
                cors_rules,
                file_lock_configuration,
                default_server_side_encryption,
                lifecycle_rules,
                revision,
                options,
            }),
    {
        Bucket {
            account_id,
            bucket_id,
            bucket_name,
            bucket_type,
            bucket_info,
            cors_rules,
            file_lock_configuration,
            default_server_side_encryption,
            lifecycle_rules,
            revision,
            options,
        }
    }

    /// The account that the bucket belongs to.
    pub fn account_id(&self) -> (r: &str)
        ensures
            r@ == self@.account_id@,
    {
        self.account_id.as_str()
    }

    /// The ID of the bucket.
    pub fn bucket_id(&self) -> (r: &str)
        ensures
            r@ == self@.bucket_id@,
    {
        self.bucket_id.as_str()
    }

    /// The name of the bucket.
    pub fn name(&self) -> (r: &str)
        ensures
            r@ == self@.bucket_name@,
    {
        self.bucket_name.as_str()
    }

    /// The type of the bucket.
    pub fn bucket_type(&self) -> (r: BucketType)
        ensures
            r == self@.bucket_type,
    {
        self.bucket_type
    }

    /// The information stored with the bucket.
    pub fn info(&self) -> (r: &serde_json::Value)
        ensures
            *r == self@.bucket_info,
    {
        &self.bucket_info
    }

    /// The CORS rules of the bucket.
    pub fn cors_rules(&self) -> (r: &[CorsRule])
        ensures
            r@ == self@.cors_rules@,
    {
        self.cors_rules.as_slice()
    }

    /// The default retention policy of the bucket.
    pub fn retention_policy(&self) -> (r: FileRetentionPolicy)
        ensures
            r == self@.file_lock_configuration,
    {
        self.file_lock_configuration
    }

    /// What the response told of the encryption of the bucket.
    pub fn encryption_info(&self) -> (r: &BucketEncryptionInfo)
        ensures
            *r == self@.default_server_side_encryption,
    {
        &self.default_server_side_encryption
    }

    /// The lifecycle rules of the bucket.
    pub fn lifecycle_rules(&self) -> (r: &[LifecycleRule])
        ensures
            r@ == self@.lifecycle_rules@,
    {
        self.lifecycle_rules.as_slice()
    }

    /// The revision of the bucket, which grows with every update.
    pub fn revision(&self) -> (r: u16)
        ensures
            r == self@.revision,
    {
        self.revision
    }

    /// The options set on the bucket, if the response told of any.
    pub fn options(&self) -> (r: Option<&Vec<String>>)
        ensures
            refers_to(r, self@.options),
    {
        self.options.as_ref()
    }
}

/// Every bucket type is found again by its name on the wire.
pub proof fn lemma_names_round_trip(typ: BucketType)
    ensures
        BucketType::named(typ.wire_name()) == Some(typ),
{
    reveal_strlit("allPublic");
    reveal_strlit("allPrivate");
    reveal_strlit("snapshot");
    assert("allPublic"@.len() == 9 && "allPrivate"@.len() == 10 && "snapshot"@.len() == 8);
}

} // verus!

//! The failures that validation and wire mapping report.

use vstd::prelude::*;

verus! {

/// The part of a request that a [`ValidationError`] is about.
#[derive(Clone, Copy, Debug, PartialEq, Eq, Structural)]
pub enum Subject {
    /// The list of origins of a CORS rule.
    AllowedOrigins,
    /// The list of operations of a CORS rule.
    AllowedOperations,
    /// The name of a CORS rule.
    CorsRuleName,
    /// The time for which a browser may cache a preflight response.
    MaxAge,
    /// The string data of a CORS rule, taken together.
    CorsRuleSize,
    /// The list of CORS rules of a bucket.
    CorsRules,
    /// The file name prefix of a lifecycle rule.
    FilenamePrefix,
    /// The number of days after which an uploaded file is hidden.
    HideAfterUpload,
    /// The number of days after which a hidden file is deleted.
    DeleteAfterHide,
    /// The two actions of a lifecycle rule, taken together.
    LifecycleActions,
    /// The name of a bucket.
    BucketName,
    /// The type of a bucket.
    BucketType,
    /// The free-form information stored with a bucket.
    BucketInfo,
    /// The ID of a bucket.
    BucketId,
}

/// A value that the service would refuse.
#[derive(Clone, Copy, Debug, PartialEq, Eq, Structural)]
pub enum ValidationError {
    /// The value does not have the required shape.
    BadFormat(Subject),
    /// A required value was not given.
    MissingData(Subject),
    /// The value lies outside the accepted range.
    OutOfBounds(Subject),
    /// The value cannot be combined with another one.
    Incompatible(Subject),
}

/// A bucket name that the service would refuse.
#[derive(Clone, Copy, Debug, PartialEq, Eq, Structural)]
pub enum BucketValidationError {
    /// The name has fewer than 6 or more than 50 characters; holds their number.
    BadNameLength(usize),
    /// The name holds a character other than an ASCII letter, a digit or `-`;
    /// holds the first such character.
    InvalidChar(char),
    /// The name begins with the reserved prefix `b2-`.
    ReservedPrefix,
}

/// A CORS rule name that the service would refuse.
#[derive(Clone, Copy, Debug, PartialEq, Eq, Structural)]
pub enum CorsRuleValidationError {
    /// The name has fewer than 6 or more than 50 characters; holds their number.
    BadNameLength(usize),
    /// The name holds a character other than an ASCII letter, a digit or `-`;
    /// holds the first such character.
    InvalidChar(char),
    /// The name begins with the reserved prefix `b2-`.
    ReservedPrefix,
}

/// A file name that the service would refuse.
#[derive(Clone, Copy, Debug, PartialEq, Eq, Structural)]
pub enum FileNameValidationError {
    /// The name is longer than 1024 bytes; holds its length in bytes.
    BadLength(usize),
    /// The name holds a control character; holds the first one.
    InvalidChar(char),
}

/// A header entry of a CORS rule that the service would refuse.
#[derive(Clone, Copy, Debug, PartialEq, Eq, Structural)]
pub enum BadHeaderName {
    /// An entry is the empty string.
    Empty,
    /// An entry holds a character that no header name may hold, or a `*`
    /// where none is allowed; holds the first such character of the first
    /// such entry.
    InvalidChar(char),
    /// The entry `*` stands beside other entries.
    WildcardNotAlone,
}

/// A wire record that contradicts the documented schema.
#[derive(Clone, Copy, Debug, PartialEq, Eq, Structural)]
pub enum DataIntegrityError {
    /// An encryption mode is set and the algorithm is absent.
    MissingAlgorithm,
    /// The mode is customer-managed and the key is absent.
    MissingKey,
    /// The mode is customer-managed and the key digest is absent.
    MissingKeyDigest,
    /// No encryption mode is set and an algorithm is present.
    UnexpectedAlgorithm,
    /// The mode is not customer-managed and a key is present.
    UnexpectedKey,
    /// The mode is not customer-managed and a key digest is present.
    UnexpectedKeyDigest,
    /// A customer-managed record was expected and the mode is another one.
    NotSelfManaged,
    /// A retention mode is set and the period is absent.
    MissingRetentionPeriod,
    /// A retention period is set and the mode is absent.
    MissingRetentionMode,
}

} // verus!

//! Server-side encryption settings and their wire records.
//!
//! On the wire an encryption setting is a record with a mode and three
//! companion fields. Which companions are present depends on the mode alone:
//! [`InnerEncryptionConfig::from`] writes exactly the companions of the mode,
//! and [`ServerSideEncryption::try_from`] refuses every record in which a
//! companion is missing or stands where the mode has no use for it.

use vstd::prelude::*;
use crate::text::is_text;
use vstd::std_specs::convert::FromSpecImpl;
use vstd::std_specs::convert::TryFromSpecImpl;
use crate::error::DataIntegrityError;
use crate::text::byte_len;
use vstd::utf8::encode_utf8;

verus! {

/// The MD5 digest of `data`, as `md5::compute` gives it.
pub uninterp spec fn md5_digest(data: Seq<u8>) -> Seq<u8>;

/// The base64 text of `data`, as `base64::encode` gives it: the standard
/// alphabet, with padding.
pub uninterp spec fn base64_text(data: Seq<u8>) -> Seq<char>;

/// Calls `md5::compute` and hands out the 16 bytes of the digest it returns.
/// The contract names that digest; nothing else is claimed of it.
#[verifier::external_body]
fn md5_of(data: &[u8]) -> (digest: [u8; 16])
    ensures
        digest@ == md5_digest(data@),
{
    md5::compute(data).0
}

/// Calls `base64::encode`. The contract names the text it returns. The
/// function panics when the length of that text does not fit in `usize`,
/// which the precondition excludes.
#[verifier::external_body]
fn base64_of(data: &[u8]) -> (text: String)
    requires
        data@.len() / 3 * 4 + 4 <= usize::MAX,
    ensures
        text@ == base64_text(data@),
{
    base64::encode(data)
}

/// An algorithm for server-side encryption.
#[derive(Clone, Copy, Debug, PartialEq, Eq, Structural)]
pub enum EncryptionAlgorithm {
    /// AES with 256-bit keys, the only algorithm that the service offers.
    Aes256,
}

impl EncryptionAlgorithm {
    /// The name of the algorithm on the wire.
    pub open spec fn wire_name(self) -> Seq<char> {
        "AES256"@
    }

    /// The name of the algorithm on the wire.
    pub fn name(&self) -> (s: &'static str)
        ensures
            s@ == self.wire_name(),
    {
        "AES256"
    }

    /// The algorithm that `name` names on the wire, if it names one.
    pub open spec fn named(name: Seq<char>) -> Option<EncryptionAlgorithm> {
        if name == EncryptionAlgorithm::Aes256.wire_name() {
            Some(EncryptionAlgorithm::Aes256)
        } else {
            None
        }
    }

    /// The algorithm that `name` names on the wire, if it names one.
    pub fn from_name(name: &str) -> (r: Option<EncryptionAlgorithm>)
        ensures
            r == EncryptionAlgorithm::named(name@),
    {
        if is_text(name, EncryptionAlgorithm::Aes256.name()) {
            Some(EncryptionAlgorithm::Aes256)
        } else {
            None
        }
    }
}

/// Encryption with a key that the customer holds.
#[derive(Clone, Debug, PartialEq, Eq)]
pub struct SelfManagedEncryption {
    pub algorithm: EncryptionAlgorithm,
    /// The key, in base64.
    pub key: String,
    /// The MD5 digest of the key, in base64.
    pub digest: String,
}

impl SelfManagedEncryption {
    /// The setting for `key`: the key and the MD5 digest of its bytes, both in
    /// base64.
    pub fn new(algorithm: EncryptionAlgorithm, key: &str) -> (r: Self)
        requires
            byte_len(key@) / 3 * 4 + 4 <= usize::MAX,
        ensures
            r.algorithm == algorithm,
            r.key@ == base64_text(encode_utf8(key@)),
            r.digest@ == base64_text(md5_digest(encode_utf8(key@))),
    {
        let bytes = key.as_bytes();
        let digest = md5_of(bytes);
        let digest = base64_of(digest.as_slice());
        let key = base64_of(bytes);
        SelfManagedEncryption { algorithm, key, digest }
    }
}

/// How the objects of a bucket, or one object, are encrypted at rest.
#[derive(Clone, Debug, PartialEq, Eq)]
pub enum ServerSideEncryption {
    /// The service holds the key.
    B2Managed(EncryptionAlgorithm),
    /// The customer holds the key.
    SelfManaged(SelfManagedEncryption),
    /// No encryption.
    NoEncryption,
}

impl Default for ServerSideEncryption {
    fn default() -> (r: Self)
        ensures
            r == ServerSideEncryption::NoEncryption,
    {
        ServerSideEncryption::NoEncryption
    }
}

/// The name of the header that carries the algorithm.
pub open spec fn algorithm_header() -> Seq<char> {
    "X-Bz-Server-Side-Encryption"@
}

/// The name of the header that carries the customer's key.
pub open spec fn key_header() -> Seq<char> {
    "X-Bz-Server-Side-Encryption-Customer-Key"@
}

/// The name of the header that carries the digest of the customer's key.
pub open spec fn digest_header() -> Seq<char> {
    "X-Bz-Server-Side-Encryption-Customer-Key-Md5"@
}

/// A list of headers as pairs of character sequences.
pub open spec fn header_views(headers: Seq<(&'static str, String)>) -> Seq<(Seq<char>, Seq<char>)> {
    Seq::new(headers.len(), |i: int| (headers[i].0@, headers[i].1@))
}

impl ServerSideEncryption {
    /// The headers that announce this setting when a file is uploaded, by
    /// name and value; none without encryption.
    pub open spec fn headers(self) -> Option<Seq<(Seq<char>, Seq<char>)>> {
        match self {
            ServerSideEncryption::B2Managed(algorithm) => Some(
                seq![(algorithm_header(), algorithm.wire_name())],
            ),
            ServerSideEncryption::SelfManaged(enc) => Some(
                seq![
                    (algorithm_header(), enc.algorithm.wire_name()),
                    (key_header(), enc.key@),
                    (digest_header(), enc.digest@),
                ],
            ),
            ServerSideEncryption::NoEncryption => None,
        }
    }

    /// The headers that announce this setting when a file is uploaded.
    pub fn to_headers(&self) -> (r: Option<Vec<(&'static str, String)>>)
        ensures
            match r {
                Some(v) => self.headers() == Some(header_views(v@)),
                None => self.headers() is None,
            },
    {
        match self {
            ServerSideEncryption::B2Managed(algorithm) => {
                let mut v: Vec<(&'static str, String)> = Vec::new();
                v.push(("X-Bz-Server-Side-Encryption", algorithm.name().to_owned()));
                assert(header_views(v@) =~= self.headers().unwrap());
                Some(v)
            },
            ServerSideEncryption::SelfManaged(enc) => {
                let mut v: Vec<(&'static str, String)> = Vec::new();
                v.push(("X-Bz-Server-Side-Encryption", enc.algorithm.name().to_owned()));
                v.push(("X-Bz-Server-Side-Encryption-Customer-Key", enc.key.clone()));
                v.push(("X-Bz-Server-Side-Encryption-Customer-Key-Md5", enc.digest.clone()));
                assert(header_views(v@) =~= self.headers().unwrap());
                Some(v)
            },
            ServerSideEncryption::NoEncryption => None,
        }
    }
}

/// The mode field of an encryption record.
#[derive(Clone, Copy, Debug, PartialEq, Eq, Structural)]
pub enum Mode {
    /// `SSE-B2`: the service holds the key.
    B2Managed,
    /// `SSE-C`: the customer holds the key.
    SelfManaged,
}

impl Mode {
    /// The value of the mode field on the wire.
    pub open spec fn wire_name(self) -> Seq<char> {
        match self {
            Mode::B2Managed => "SSE-B2"@,
            Mode::SelfManaged => "SSE-C"@,
        }
    }

    /// The value of the mode field on the wire.
    pub fn name(&self) -> (s: &'static str)
        ensures
            s@ == self.wire_name(),
    {
        match self {
            Mode::B2Managed => "SSE-B2",
            Mode::SelfManaged => "SSE-C",
        }
    }

    /// The mode that `name` names on the wire, if it names one.
    pub open spec fn named(name: Seq<char>) -> Option<Mode> {
        if name == Mode::B2Managed.wire_name() {
            Some(Mode::B2Managed)
        } else if name == Mode::SelfManaged.wire_name() {
            Some(Mode::SelfManaged)
        } else {
            None
        }
    }

    /// The mode that `name` names on the wire, if it names one.
    pub fn from_name(name: &str) -> (r: Option<Mode>)
        ensures
            r == Mode::named(name@),
    {
        if is_text(name, Mode::B2Managed.name()) {
            Some(Mode::B2Managed)
        } else if is_text(name, Mode::SelfManaged.name()) {
            Some(Mode::SelfManaged)
        } else {
            None
        }
    }
}

/// An encryption setting as it travels: the mode and its companions, each
/// present or absent.
#[derive(Clone, Debug, PartialEq, Eq)]
pub struct InnerEncryptionConfig {
    pub mode: Option<Mode>,
    pub algorithm: Option<EncryptionAlgorithm>,
    pub customer_key: Option<String>,
    pub customer_key_md5: Option<String>,
}

/// The record of `setting`: its mode and exactly the companions of that mode.
pub open spec fn encode(setting: ServerSideEncryption) -> InnerEncryptionConfig {
    match setting {
        ServerSideEncryption::B2Managed(algorithm) => InnerEncryptionConfig {
            mode: Some(Mode::B2Managed),
            algorithm: Some(algorithm),
            customer_key: None,
            customer_key_md5: None,
        },
        ServerSideEncryption::SelfManaged(enc) => InnerEncryptionConfig {
            mode: Some(Mode::SelfManaged),
            algorithm: Some(enc.algorithm),
            customer_key: Some(enc.key),
            customer_key_md5: Some(enc.digest),
        },
        ServerSideEncryption::NoEncryption => InnerEncryptionConfig {
            mode: None,
            algorithm: None,
            customer_key: None,
            customer_key_md5: None,
        },
    }
}

/// The setting that `record` stands for, or what is wrong with the record.
/// Of several faults the first in the order mode, algorithm, key, digest is
/// reported.
pub open spec fn decode(record: InnerEncryptionConfig) -> Result<
    ServerSideEncryption,
    DataIntegrityError,
> {
    match record.mode {
        None => if record.algorithm is Some {
            Err(DataIntegrityError::UnexpectedAlgorithm)
        } else if record.customer_key is Some {
            Err(DataIntegrityError::UnexpectedKey)
        } else if record.customer_key_md5 is Some {
            Err(DataIntegrityError::UnexpectedKeyDigest)
        } else {
            Ok(ServerSideEncryption::NoEncryption)
        },
        Some(Mode::B2Managed) => if record.algorithm is None {
            Err(DataIntegrityError::MissingAlgorithm)
        } else if record.customer_key is Some {
            Err(DataIntegrityError::UnexpectedKey)
        } else if record.customer_key_md5 is Some {
            Err(DataIntegrityError::UnexpectedKeyDigest)
        } else {
            Ok(ServerSideEncryption::B2Managed(record.algorithm->0))
        },
        Some(Mode::SelfManaged) => if record.algorithm is None {
            Err(DataIntegrityError::MissingAlgorithm)
        } else if record.customer_key is None {
            Err(DataIntegrityError::MissingKey)
        } else if record.customer_key_md5 is None {
            Err(DataIntegrityError::MissingKeyDigest)
        } else {
            Ok(
                ServerSideEncryption::SelfManaged(
                    SelfManagedEncryption {
                        algorithm: record.algorithm->0,
                        key: record.customer_key->0,
                        digest: record.customer_key_md5->0,
                    },
                ),
            )
        },
    }
}

/// Decoding the record of a setting gives the setting back.
pub proof fn lemma_decode_encode(setting: ServerSideEncryption)
    ensures
        decode(encode(setting)) == Ok::<ServerSideEncryption, DataIntegrityError>(setting),
{
}

/// A record that decodes is the record of the setting it decodes to: no two
/// records stand for one setting.
pub proof fn lemma_encode_decode(record: InnerEncryptionConfig)
    requires
        decode(record) is Ok,
    ensures
        encode(decode(record)->Ok_0) == record,
{
}

/// A record with the customer-managed mode and no key is refused, whatever
/// else it holds.
pub proof fn lemma_self_managed_needs_key(record: InnerEncryptionConfig)
    requires
        record.mode == Some(Mode::SelfManaged),
        record.customer_key is None,
    ensures
        decode(record) is Err,
{
}

impl From<ServerSideEncryption> for InnerEncryptionConfig {
    fn from(other: ServerSideEncryption) -> (r: Self) {
        match other {
            ServerSideEncryption::B2Managed(algorithm) => InnerEncryptionConfig {
                mode: Some(Mode::B2Managed),
                algorithm: Some(algorithm),
                customer_key: None,
                customer_key_md5: None,
            },
            ServerSideEncryption::SelfManaged(enc) => InnerEncryptionConfig {
                mode: Some(Mode::SelfManaged),
                algorithm: Some(enc.algorithm),
                customer_key: Some(enc.key),
                customer_key_md5: Some(enc.digest),
            },
            ServerSideEncryption::NoEncryption => InnerEncryptionConfig {
                mode: None,
                algorithm: None,
                customer_key: None,
                customer_key_md5: None,
            },
        }
    }
}

impl FromSpecImpl<ServerSideEncryption> for InnerEncryptionConfig {
    open spec fn obeys_from_spec() -> bool {
        true
    }

    open spec fn from_spec(other: ServerSideEncryption) -> Self {
        encode(other)
    }
}

impl TryFrom<InnerEncryptionConfig> for ServerSideEncryption {
    type Error = DataIntegrityError;

    fn try_from(other: InnerEncryptionConfig) -> (r: Result<Self, DataIntegrityError>) {
        match other.mode {
            None => {
                if other.algorithm.is_some() {
                    Err(DataIntegrityError::UnexpectedAlgorithm)
                } else if other.customer_key.is_some() {
                    Err(DataIntegrityError::UnexpectedKey)
                } else if other.customer_key_md5.is_some() {
                    Err(DataIntegrityError::UnexpectedKeyDigest)
                } else {
                    Ok(ServerSideEncryption::NoEncryption)
                }
            },
            Some(Mode::B2Managed) => {
                match other.algorithm {
                    None => Err(DataIntegrityError::MissingAlgorithm),
                    Some(algorithm) => {
                        if other.customer_key.is_some() {
                            Err(DataIntegrityError::UnexpectedKey)
                        } else if other.customer_key_md5.is_some() {
                            Err(DataIntegrityError::UnexpectedKeyDigest)
                        } else {
                            Ok(ServerSideEncryption::B2Managed(algorithm))
                        }
                    },
                }
            },
            Some(Mode::SelfManaged) => {
                match (other.algorithm, other.customer_key, other.customer_key_md5) {
                    (None, _, _) => Err(DataIntegrityError::MissingAlgorithm),
                    (Some(_), None, _) => Err(DataIntegrityError::MissingKey),
                    (Some(_), Some(_), None) => Err(DataIntegrityError::MissingKeyDigest),
                    (Some(algorithm), Some(key), Some(digest)) => Ok(
                        ServerSideEncryption::SelfManaged(
                            SelfManagedEncryption { algorithm, key, digest },
                        ),
                    ),
                }
            },
        }
    }
}

impl TryFromSpecImpl<InnerEncryptionConfig> for ServerSideEncryption {
    open spec fn obeys_try_from_spec() -> bool {
        true
    }

    open spec fn try_from_spec(other: InnerEncryptionConfig) -> Result<Self, DataIntegrityError> {
        decode(other)
    }
}

/// A customer-managed encryption setting as it travels by itself: the mode
/// and all three companions.
#[derive(Clone, Debug, PartialEq, Eq)]
pub struct InnerSelfEncryption {
    pub mode: Mode,
    pub algorithm: EncryptionAlgorithm,
    pub customer_key: String,
    pub customer_key_md5: String,
}

/// The record of a customer-managed setting.
pub open spec fn encode_self_managed(setting: SelfManagedEncryption) -> InnerSelfEncryption {
    InnerSelfEncryption {
        mode: Mode::SelfManaged,
        algorithm: setting.algorithm,
        customer_key: setting.key,
        customer_key_md5: setting.digest,
    }
}

/// The customer-managed setting that `record` stands for, unless its mode is
/// another one.
pub open spec fn decode_self_managed(record: InnerSelfEncryption) -> Result<
    SelfManagedEncryption,
    DataIntegrityError,
> {
    if record.mode == Mode::SelfManaged {
        Ok(
            SelfManagedEncryption {
                algorithm: record.algorithm,
                key: record.customer_key,
                digest: record.customer_key_md5,
            },
        )
    } else {
        Err(DataIntegrityError::NotSelfManaged)
    }
}

/// Decoding the record of a customer-managed setting gives the setting back.
pub proof fn lemma_decode_encode_self_managed(setting: SelfManagedEncryption)
    ensures
        decode_self_managed(encode_self_managed(setting)) == Ok::<
            SelfManagedEncryption,
            DataIntegrityError,
        >(setting),
{
}

impl From<SelfManagedEncryption> for InnerSelfEncryption {
    fn from(other: SelfManagedEncryption) -> (r: Self) {
        InnerSelfEncryption {
            mode: Mode::SelfManaged,
            algorithm: other.algorithm,
            customer_key: other.key,
            customer_key_md5: other.digest,
        }
    }
}

impl FromSpecImpl<SelfManagedEncryption> for InnerSelfEncryption {
    open spec fn obeys_from_spec() -> bool {
        true
    }

    open spec fn from_spec(other: SelfManagedEncryption) -> Self {
        encode_self_managed(other)
    }
}

impl TryFrom<InnerSelfEncryption> for SelfManagedEncryption {
    type Error = DataIntegrityError;

    fn try_from(other: InnerSelfEncryption) -> (r: Result<Self, DataIntegrityError>) {
        match other.mode {
            Mode::SelfManaged => Ok(
                SelfManagedEncryption {
                    algorithm: other.algorithm,
                    key: other.customer_key,
                    digest: other.customer_key_md5,
                },
            ),
            Mode::B2Managed => Err(DataIntegrityError::NotSelfManaged),
        }
    }
}

impl TryFromSpecImpl<InnerSelfEncryption> for SelfManagedEncryption {
    open spec fn obeys_try_from_spec() -> bool {
        true
    }

    open spec fn try_from_spec(other: InnerSelfEncryption) -> Result<Self, DataIntegrityError> {
        decode_self_managed(other)
    }
}

/// Every mode and every algorithm is found again by its name on the wire.
pub proof fn lemma_names_round_trip(mode: Mode, algorithm: EncryptionAlgorithm)
    ensures
        Mode::named(mode.wire_name()) == Some(mode),
        EncryptionAlgorithm::named(algorithm.wire_name()) == Some(algorithm),
{
    reveal_strlit("SSE-B2");
    reveal_strlit("SSE-C");
    assert("SSE-B2"@.len() == 6 && "SSE-C"@.len() == 5);
}

} // verus!

//! CORS rules: which origins may do what with the files of a bucket.
//!
//! A rule is assembled by a [`CorsRuleBuilder`], which checks each part as it
//! is given. [`CorsRuleBuilder::build`] then asks for the parts that a rule
//! cannot do without and holds the string data of the rule, taken together, to
//! the limit of the service: less than 1000 bytes.

use vstd::prelude::*;
use crate::text::is_text;
use crate::error::BadHeaderName;
use crate::error::CorsRuleValidationError;
use crate::error::Subject;
use crate::error::ValidationError;
use crate::name::cors_rule_name_error;
use crate::name::name_fault;
use crate::name::validated_cors_rule_name;
use crate::origin::origins_fault;
use crate::origin::validated_origins;
use crate::text::byte_len;
use crate::text::chars_of;
use crate::text::utf8_len;
use crate::text::views;
use crate::time::Duration;

verus! {

/// Whether `c` may stand in the name of a header: a letter, a digit, or one
/// of the marks that an HTTP token may hold, except `*`.
pub open spec fn is_header_char(c: char) -> bool {
    ||| 'a' <= c <= 'z'
    ||| 'A' <= c <= 'Z'
    ||| '0' <= c <= '9'
    ||| c == '!'
    ||| c == '#'
    ||| c == '$'
    ||| c == '%'
    ||| c == '&'
    ||| c == '\''
    ||| c == '+'
    ||| c == '-'
    ||| c == '.'
    ||| c == '^'
    ||| c == '_'
    ||| c == '`'
    ||| c == '|'
    ||| c == '~'
}

/// Whether the character of `header` at `i` may stand there: the character
/// of a header name, or, where `wildcard` allows it, a `*` at the very end.
pub open spec fn header_char_fits(header: Seq<char>, wildcard: bool, i: int) -> bool {
    is_header_char(header[i]) || (wildcard && i == header.len() - 1 && header[i] == '*')
}

/// `header` holds at `i` a character that may not stand there, and none
/// before.
pub open spec fn first_misfit_at(header: Seq<char>, wildcard: bool, i: int) -> bool {
    &&& 0 <= i < header.len()
    &&& !header_char_fits(header, wildcard, i)
    &&& forall|j: int| 0 <= j < i ==> #[trigger] header_char_fits(header, wildcard, j)
}

/// What is wrong with one header entry, if anything. With `wildcard` the
/// entry may be a header name, the beginning of one followed by `*`, or `*`
/// alone; without it, a header name only.
pub open spec fn header_fault(header: Seq<char>, wildcard: bool) -> Option<BadHeaderName> {
    if header.len() == 0 {
        Some(BadHeaderName::Empty)
    } else if exists|i: int| first_misfit_at(header, wildcard, i) {
        Some(
            BadHeaderName::InvalidChar(header[choose|i: int| first_misfit_at(header, wildcard, i)]),
        )
    } else {
        None
    }
}

/// The entry of `headers` at `i` has a fault, and none before has one.
pub open spec fn first_faulty_at(headers: Seq<Seq<char>>, wildcard: bool, i: int) -> bool {
    &&& 0 <= i < headers.len()
    &&& header_fault(headers[i], wildcard) is Some
    &&& forall|j: int| 0 <= j < i ==> header_fault(#[trigger] headers[j], wildcard) is None
}

/// `headers` holds the entry `*` and another entry.
pub open spec fn wildcard_in_company(headers: Seq<Seq<char>>) -> bool {
    headers.len() > 1 && exists|i: int| 0 <= i < headers.len() && #[trigger] headers[i] == seq!['*']
}

/// What is wrong with a list of header entries, if anything: the fault of
/// the first entry that has one, or else a `*` that does not stand alone.
pub open spec fn headers_fault(headers: Seq<Seq<char>>, wildcard: bool) -> Option<BadHeaderName> {
    if exists|i: int| first_faulty_at(headers, wildcard, i) {
        header_fault(headers[choose|i: int| first_faulty_at(headers, wildcard, i)], wildcard)
    } else if wildcard_in_company(headers) {
        Some(BadHeaderName::WildcardNotAlone)
    } else {
        None
    }
}

/// The first character that may not stand where it does is at one position
/// only.
proof fn lemma_first_misfit(header: Seq<char>, wildcard: bool, i: int)
    requires
        first_misfit_at(header, wildcard, i),
    ensures
        (choose|k: int| first_misfit_at(header, wildcard, k)) == i,
{
    let k = choose|k: int| first_misfit_at(header, wildcard, k);
    if k < i {
        assert(header_char_fits(header, wildcard, k));
    } else if i < k {
        assert(header_char_fits(header, wildcard, i));
    }
}

/// The first entry with a fault is at one position only.
proof fn lemma_first_faulty(headers: Seq<Seq<char>>, wildcard: bool, i: int)
    requires
        first_faulty_at(headers, wildcard, i),
    ensures
        (choose|k: int| first_faulty_at(headers, wildcard, k)) == i,
{
    let k = choose|k: int| first_faulty_at(headers, wildcard, k);
    if k < i {
        assert(header_fault(headers[k], wildcard) is None);
    } else if i < k {
        assert(header_fault(headers[i], wildcard) is None);
    }
}

/// Whether `c` may stand in the name of a header.
fn header_char(c: char) -> (r: bool)
    ensures
        r == is_header_char(c),
{
    (c >= 'a' && c <= 'z') || (c >= 'A' && c <= 'Z') || (c >= '0' && c <= '9') || c == '!' || c
        == '#' || c == '$' || c == '%' || c == '&' || c == '\'' || c == '+' || c == '-' || c
        == '.' || c == '^' || c == '_' || c == '`' || c == '|' || c == '~'
}

/// What is wrong with one header entry, if anything.
pub fn check_header(header: &str, wildcard: bool) -> (r: Option<BadHeaderName>)
    ensures
        r == header_fault(header@, wildcard),
{
    let chars = chars_of(header);
    if chars.len() == 0 {
        return Some(BadHeaderName::Empty);
    }
    let mut i: usize = 0;
    while i < chars.len()
        invariant
            i <= chars.len(),
            chars.len() > 0,
            chars@ == header@,
            forall|j: int| 0 <= j < i ==> #[trigger] header_char_fits(chars@, wildcard, j),
        decreases chars.len() - i,
    {
        let c = chars[i];
        if !(header_char(c) || (wildcard && i == chars.len() - 1 && c == '*')) {
            proof {
                assert(first_misfit_at(header@, wildcard, i as int));
                lemma_first_misfit(header@, wildcard, i as int);
            }
            return Some(BadHeaderName::InvalidChar(c));
        }
        i += 1;
    }
    proof {
        if exists|k: int| first_misfit_at(header@, wildcard, k) {
            let k = choose|k: int| first_misfit_at(header@, wildcard, k);
            assert(header_char_fits(chars@, wildcard, k));
        }
    }
    None
}

/// Checks the name of a header and hands it back.
pub fn validated_http_header(header: &str) -> (r: Result<&str, BadHeaderName>)
    ensures
        match r {
            Ok(checked) => checked@ == header@ && header_fault(header@, false) is None,
            Err(e) => header_fault(header@, false) == Some(e),
        },
{
    match check_header(header, false) {
        None => Ok(header),
        Some(e) => Err(e),
    }
}

/// What is wrong with a list of header entries, if anything.
pub fn check_headers(headers: &Vec<String>, wildcard: bool) -> (r: Option<BadHeaderName>)
    ensures
        r == headers_fault(views(headers@), wildcard),
{
    let ghost list = views(headers@);
    let mut stars: bool = false;
    let ghost mut star_at: int = 0;
    let mut i: usize = 0;
    while i < headers.len()
        invariant
            i <= headers.len(),
            list == views(headers@),
            forall|j: int| 0 <= j < i ==> header_fault(#[trigger] list[j], wildcard) is None,
            stars ==> 0 <= star_at < i && list[star_at] == seq!['*'],
            !stars ==> forall|j: int| 0 <= j < i ==> #[trigger] list[j] != seq!['*'],
        decreases headers.len() - i,
    {
        assert(list[i as int] == headers@[i as int]@);
        match check_header(headers[i].as_str(), wildcard) {
            Some(e) => {
                proof {
                    assert(first_faulty_at(list, wildcard, i as int));
                    lemma_first_faulty(list, wildcard, i as int);
                }
                return Some(e);
            },
            None => {},
        }
        let chars = chars_of(headers[i].as_str());
        if chars.len() == 1 && chars[0] == '*' {
            assert(chars@ =~= seq!['*']);
            stars = true;
            proof {
                star_at = i as int;
            }
        } else {
            assert(chars@ != seq!['*']) by {
                if chars@ == seq!['*'] {
                    assert(chars@.len() == 1);
                    assert(chars@[0] == '*');
                }
            }
        }
        i += 1;
    }
    proof {
        if exists|k: int| first_faulty_at(list, wildcard, k) {
            let k = choose|k: int| first_faulty_at(list, wildcard, k);
            assert(header_fault(list[k], wildcard) is None);
        }
    }
    if stars && headers.len() > 1 {
        Some(BadHeaderName::WildcardNotAlone)
    } else {
        None
    }
}

/// Something that a CORS rule can allow an origin to do.
#[derive(Clone, Copy, Debug, PartialEq, Eq, Structural)]
pub enum CorsOperation {
    DownloadFileByName,
    DownloadFileById,
    UploadFile,
    UploadPart,
    S3Delete,
    S3Get,
    S3Head,
    S3Post,
    S3Put,
}

impl CorsOperation {
    /// The tag of the operation on the wire.
    pub open spec fn wire_name(self) -> Seq<char> {
        match self {
            CorsOperation::DownloadFileByName => "b2_download_file_by_name"@,
            CorsOperation::DownloadFileById => "b2_download_file_by_id"@,
            CorsOperation::UploadFile => "b2_upload_file"@,
            CorsOperation::UploadPart => "b2_upload_part"@,
            CorsOperation::S3Delete => "s3_delete"@,
            CorsOperation::S3Get => "s3_get"@,
            CorsOperation::S3Head => "s3_head"@,
            CorsOperation::S3Post => "s3_post"@,
            CorsOperation::S3Put => "s3_put"@,
        }
    }

    /// The tag of the operation on the wire.
    pub fn name(&self) -> (s: &'static str)
        ensures
            s@ == self.wire_name(),
    {
        match self {
            CorsOperation::DownloadFileByName => "b2_download_file_by_name",
            CorsOperation::DownloadFileById => "b2_download_file_by_id",
            CorsOperation::UploadFile => "b2_upload_file",
            CorsOperation::UploadPart => "b2_upload_part",
            CorsOperation::S3Delete => "s3_delete",
            CorsOperation::S3Get => "s3_get",
            CorsOperation::S3Head => "s3_head",
            CorsOperation::S3Post => "s3_post",
            CorsOperation::S3Put => "s3_put",
        }
    }

    /// The operation that `name` names on the wire, if it names one.
    pub open spec fn named(name: Seq<char>) -> Option<CorsOperation> {
        if name == CorsOperation::DownloadFileByName.wire_name() {
            Some(CorsOperation::DownloadFileByName)
        } else if name == CorsOperation::DownloadFileById.wire_name() {
            Some(CorsOperation::DownloadFileById)
        } else if name == CorsOperation::UploadFile.wire_name() {
            Some(CorsOperation::UploadFile)
        } else if name == CorsOperation::UploadPart.wire_name() {
            Some(CorsOperation::UploadPart)
        } else if name == CorsOperation::S3Delete.wire_name() {
            Some(CorsOperation::S3Delete)
        } else if name == CorsOperation::S3Get.wire_name() {
            Some(CorsOperation::S3Get)
        } else if name == CorsOperation::S3Head.wire_name() {
            Some(CorsOperation::S3Head)
        } else if name == CorsOperation::S3Post.wire_name() {
            Some(CorsOperation::S3Post)
        } else if name == CorsOperation::S3Put.wire_name() {
            Some(CorsOperation::S3Put)
        } else {
            None
        }
    }

    /// The operation that `name` names on the wire, if it names one.
    pub fn from_name(name: &str) -> (r: Option<CorsOperation>)
        ensures
            r == CorsOperation::named(name@),
    {
        if is_text(name, CorsOperation::DownloadFileByName.name()) {
            Some(CorsOperation::DownloadFileByName)
        } else if is_text(name, CorsOperation::DownloadFileById.name()) {
            Some(CorsOperation::DownloadFileById)
        } else if is_text(name, CorsOperation::UploadFile.name()) {
            Some(CorsOperation::UploadFile)
        } else if is_text(name, CorsOperation::UploadPart.name()) {
            Some(CorsOperation::UploadPart)
        } else if is_text(name, CorsOperation::S3Delete.name()) {
            Some(CorsOperation::S3Delete)
        } else if is_text(name, CorsOperation::S3Get.name()) {
            Some(CorsOperation::S3Get)
        } else if is_text(name, CorsOperation::S3Head.name()) {
            Some(CorsOperation::S3Head)
        } else if is_text(name, CorsOperation::S3Post.name()) {
            Some(CorsOperation::S3Post)
        } else if is_text(name, CorsOperation::S3Put.name()) {
            Some(CorsOperation::S3Put)
        } else {
            None
        }
    }
}

/// The bytes that the strings take together.
pub open spec fn total_bytes(strings: Seq<Seq<char>>) -> nat
    decreases strings.len(),
{
    if strings.len() == 0 {
        0
    } else {
        total_bytes(strings.drop_last()) + byte_len(strings.last())
    }
}

/// The tags of the operations.
pub open spec fn tags(operations: Seq<CorsOperation>) -> Seq<Seq<char>> {
    Seq::new(operations.len(), |i: int| operations[i].wire_name())
}

/// The bytes that the entries of an optional list take together.
pub open spec fn optional_bytes(headers: Option<Seq<Seq<char>>>) -> nat {
    match headers {
        Some(list) => total_bytes(list),
        None => 0,
    }
}

/// `sum` and the bytes of `s`, or 1000 if that is more.
fn add_bytes(sum: usize, s: &str) -> (r: usize)
    requires
        sum <= 1000,
    ensures
        r == if sum + byte_len(s@) < 1000 {
            sum + byte_len(s@)
        } else {
            1000
        },
{
    let n = utf8_len(s);
    if n >= 1000 - sum {
        1000
    } else {
        sum + n
    }
}

/// `sum` and the bytes of the strings, or 1000 if that is more.
fn add_all_bytes(sum: usize, strings: &Vec<String>) -> (r: usize)
    requires
        sum <= 1000,
    ensures
        r == if sum + total_bytes(views(strings@)) < 1000 {
            sum + total_bytes(views(strings@))
        } else {
            1000
        },
{
    let ghost list = views(strings@);
    let mut r: usize = sum;
    let mut i: usize = 0;
    assert(list.subrange(0, 0) =~= Seq::<Seq<char>>::empty());
    while i < strings.len()
        invariant
            i <= strings.len(),
            list == views(strings@),
            r <= 1000,
            r == if sum + total_bytes(list.subrange(0, i as int)) < 1000 {
                sum + total_bytes(list.subrange(0, i as int))
            } else {
                1000
            },
        decreases strings.len() - i,
    {
        proof {
            let longer = list.subrange(0, i + 1);
            assert(longer.drop_last() =~= list.subrange(0, i as int));
            assert(longer.last() == strings@[i as int]@);
        }
        r = add_bytes(r, strings[i].as_str());
        i += 1;
    }
    assert(list.subrange(0, i as int) =~= list);
    r
}

/// `sum` and the bytes of the tags of the operations, or 1000 if that is
/// more.
fn add_tag_bytes(sum: usize, operations: &Vec<CorsOperation>) -> (r: usize)
    requires
        sum <= 1000,
    ensures
        r == if sum + total_bytes(tags(operations@)) < 1000 {
            sum + total_bytes(tags(operations@))
        } else {
            1000
        },
{
    let ghost list = tags(operations@);
    let mut r: usize = sum;
    let mut i: usize = 0;
    assert(list.subrange(0, 0) =~= Seq::<Seq<char>>::empty());
    while i < operations.len()
        invariant
            i <= operations.len(),
            list == tags(operations@),
            r <= 1000,
            r == if sum + total_bytes(list.subrange(0, i as int)) < 1000 {
                sum + total_bytes(list.subrange(0, i as int))
            } else {
                1000
            },
        decreases operations.len() - i,
    {
        proof {
            let longer = list.subrange(0, i + 1);
            assert(longer.drop_last() =~= list.subrange(0, i as int));
            assert(longer.last() == operations@[i as int].wire_name());
        }
        r = add_bytes(r, operations[i].name());
        i += 1;
    }
    assert(list.subrange(0, i as int) =~= list);
    r
}

/// The character sequences of an optional list of strings.
pub open spec fn optional_views(list: Option<Vec<String>>) -> Option<Seq<Seq<char>>> {
    match list {
        Some(strings) => Some(views(strings@)),
        None => None,
    }
}

/// What a CORS rule holds.
pub struct CorsRuleView {
    pub name: Seq<char>,
    pub origins: Seq<Seq<char>>,
    pub operations: Seq<CorsOperation>,
    pub allowed_headers: Option<Seq<Seq<char>>>,
    pub exposed_headers: Option<Seq<Seq<char>>>,
    pub max_age_seconds: u32,
}

impl CorsRuleView {
    /// The bytes of the string data of the rule: of its name, its origins,
    /// the tags of its operations and its header entries.
    pub open spec fn size(self) -> nat {
        byte_len(self.name) + total_bytes(self.origins) + total_bytes(tags(self.operations))
            + optional_bytes(self.allowed_headers) + optional_bytes(self.exposed_headers)
    }

    /// What holds of every rule that a builder gives.
    pub open spec fn valid(self) -> bool {
        &&& name_fault(self.name) is None
        &&& origins_fault(self.origins) is None
        &&& self.operations.len() > 0
        &&& self.allowed_headers matches Some(list) ==> headers_fault(list, true) is None
        &&& self.exposed_headers matches Some(list) ==> headers_fault(list, false) is None
        &&& self.max_age_seconds <= 86_400
        &&& self.size() < 1000
    }
}

/// A rule that allows some origins some operations on the files of a bucket.
#[derive(Clone, Debug, PartialEq, Eq)]
pub struct CorsRule {
    cors_rule_name: String,
    allowed_origins: Vec<String>,
    allowed_operations: Vec<CorsOperation>,
    allowed_headers: Option<Vec<String>>,
    expose_headers: Option<Vec<String>>,
    max_age_seconds: u32,
}

impl View for CorsRule {
    type V = CorsRuleView;

    closed spec fn view(&self) -> CorsRuleView {
        CorsRuleView {
            name: self.cors_rule_name@,
            origins: views(self.allowed_origins@),
            operations: self.allowed_operations@,
            allowed_headers: optional_views(self.allowed_headers),
            exposed_headers: optional_views(self.expose_headers),
            max_age_seconds: self.max_age_seconds,
        }
    }
}

impl CorsRule {
    /// A builder with nothing set.
    pub fn builder() -> (r: CorsRuleBuilder)
        ensures
            r@ == CorsRuleBuilderView::empty(),
    {
        CorsRuleBuilder::default()
    }

    /// The name of the rule.
    pub fn name(&self) -> (r: &str)
        ensures
            r@ == self@.name,
    {
        self.cors_rule_name.as_str()
    }

    /// The origins that the rule covers.
    pub fn allowed_origins(&self) -> (r: &Vec<String>)
        ensures
            views(r@) == self@.origins,
    {
        &self.allowed_origins
    }

    /// The operations that the rule allows.
    pub fn allowed_operations(&self) -> (r: &Vec<CorsOperation>)
        ensures
            r@ == self@.operations,
    {
        &self.allowed_operations
    }

    /// The headers that a request may carry, if any are set.
    pub fn allowed_headers(&self) -> (r: Option<&Vec<String>>)
        ensures
            match r {
                Some(list) => self@.allowed_headers == Some(views(list@)),
                None => self@.allowed_headers is None,
            },
    {
        self.allowed_headers.as_ref()
    }

    /// The headers of a response that a browser may show, if any are set.
    pub fn expose_headers(&self) -> (r: Option<&Vec<String>>)
        ensures
            match r {
                Some(list) => self@.exposed_headers == Some(views(list@)),
                None => self@.exposed_headers is None,
            },
    {
        self.expose_headers.as_ref()
    }

    /// The seconds for which a browser may cache a preflight response.
    pub fn max_age_seconds(&self) -> (r: u32)
        ensures
            r == self@.max_age_seconds,
    {
        self.max_age_seconds
    }
}

/// What a builder of a CORS rule holds.
pub struct CorsRuleBuilderView {
    pub name: Option<Seq<char>>,
    pub origins: Seq<Seq<char>>,
    pub operations: Seq<CorsOperation>,
    pub allowed_headers: Option<Seq<Seq<char>>>,
    pub exposed_headers: Option<Seq<Seq<char>>>,
    pub max_age: Option<u32>,
}

impl CorsRuleBuilderView {
    /// Nothing set.
    pub open spec fn empty() -> CorsRuleBuilderView {
        CorsRuleBuilderView {
            name: None,
            origins: Seq::empty(),
            operations: Seq::empty(),
            allowed_headers: None,
            exposed_headers: None,
            max_age: None,
        }
    }

    /// The rule that these parts make, once the name and the cache time are
    /// set.
    pub open spec fn rule(self) -> CorsRuleView {
        CorsRuleView {
            name: self.name.unwrap(),
            origins: self.origins,
            operations: self.operations,
            allowed_headers: self.allowed_headers,
            exposed_headers: self.exposed_headers,
            max_age_seconds: self.max_age.unwrap(),
        }
    }

    /// Why these parts make no rule, if they do not: the first part that is
    /// missing among the name, the cache time, the origins and the
    /// operations, or else string data of 1000 bytes or more.
    pub open spec fn fault(self) -> Option<ValidationError> {
        if self.name is None {
            Some(ValidationError::MissingData(Subject::CorsRuleName))
        } else if self.max_age is None {
            Some(ValidationError::MissingData(Subject::MaxAge))
        } else if self.origins.len() == 0 {
            Some(ValidationError::MissingData(Subject::AllowedOrigins))
        } else if self.operations.len() == 0 {
            Some(ValidationError::MissingData(Subject::AllowedOperations))
        } else if self.rule().size() >= 1000 {
            Some(ValidationError::OutOfBounds(Subject::CorsRuleSize))
        } else {
            None
        }
    }
}

/// Parts that lack nothing make a rule with 999 bytes of string data or
/// fewer, and none with 1000 or more.
pub proof fn lemma_size_limit(parts: CorsRuleBuilderView)
    requires
        parts.name is Some,
        parts.max_age is Some,
        parts.origins.len() > 0,
        parts.operations.len() > 0,
    ensures
        parts.rule().size() <= 999 ==> parts.fault() is None,
        parts.rule().size() >= 1000 ==> parts.fault() == Some(
            ValidationError::OutOfBounds(Subject::CorsRuleSize),
        ),
{
}

/// A CORS rule in the making.
#[derive(Debug)]
pub struct CorsRuleBuilder {
    name: Option<String>,
    allowed_origins: Vec<String>,
    allowed_operations: Vec<CorsOperation>,
    allowed_headers: Option<Vec<String>>,
    expose_headers: Option<Vec<String>>,
    max_age: Option<u32>,
}

impl View for CorsRuleBuilder {
    type V = CorsRuleBuilderView;

    closed spec fn view(&self) -> CorsRuleBuilderView {
        CorsRuleBuilderView {
            name: match self.name {
                Some(name) => Some(name@),
                None => None,
            },
            origins: views(self.allowed_origins@),
            operations: self.allowed_operations@,
            allowed_headers: optional_views(self.allowed_headers),
            exposed_headers: optional_views(self.expose_headers),
            max_age: self.max_age,
        }
    }
}

impl Default for CorsRuleBuilder {
    fn default() -> (r: Self)
        ensures
            r@ == CorsRuleBuilderView::empty(),
    {
        let r = CorsRuleBuilder {
            name: None,
            allowed_origins: Vec::new(),
            allowed_operations: Vec::new(),
            allowed_headers: None,
            expose_headers: None,
            max_age: None,
        };
        assert(r@.origins =~= Seq::empty());
        r
    }
}

/// Whether a rule can hold the whole seconds of a span as its cache time:
/// the span is not negative and no longer than a day of 86,400 seconds.
pub open spec fn is_cache_time(age: Duration) -> bool {
    0 <= age.total_nanos() <= 86_400 * 1_000_000_000
}

impl CorsRuleBuilder {
    #[verifier::type_invariant]
    spec fn well_formed(self) -> bool {
        &&& self.name matches Some(name) ==> name_fault(name@) is None
        &&& self.allowed_origins.len() > 0 ==> origins_fault(views(self.allowed_origins@)) is None
        &&& self.allowed_headers matches Some(list) ==> headers_fault(views(list@), true) is None
        &&& self.expose_headers matches Some(list) ==> headers_fault(views(list@), false) is None
        &&& self.max_age matches Some(seconds) ==> seconds <= 86_400
    }

    /// Sets the name of the rule: 6 to 50 ASCII letters, digits and `-`, not
    /// beginning with `b2-`.
    pub fn name(self, name: &str) -> (r: Result<Self, CorsRuleValidationError>)
        ensures
            match r {
                Ok(b) => name_fault(name@) is None && b@ == (CorsRuleBuilderView {
                    name: Some(name@),
                    ..self@
                }),
                Err(e) => name_fault(name@) matches Some(fault) && e == cors_rule_name_error(fault),
            },
    {
        proof {
            use_type_invariant(&self);
        }
        match validated_cors_rule_name(name) {
            Ok(name) => Ok(
                CorsRuleBuilder {
                    name: Some(name),
                    allowed_origins: self.allowed_origins,
                    allowed_operations: self.allowed_operations,
                    allowed_headers: self.allowed_headers,
                    expose_headers: self.expose_headers,
                    max_age: self.max_age,
                },
            ),
            Err(e) => Err(e),
        }
    }

    /// Sets the origins that the rule covers, in place of those set before.
    pub fn allowed_origins(self, origins: Vec<String>) -> (r: Result<Self, ValidationError>)
        ensures
            match r {
                Ok(b) => origins_fault(views(origins@)) is None && b@ == (CorsRuleBuilderView {
                    origins: views(origins@),
                    ..self@
                }),
                Err(e) => origins_fault(views(origins@)) == Some(e),
            },
    {
        proof {
            use_type_invariant(&self);
        }
        match validated_origins(origins) {
            Ok(origins) => Ok(
                CorsRuleBuilder {
                    name: self.name,
                    allowed_origins: origins,
                    allowed_operations: self.allowed_operations,
                    allowed_headers: self.allowed_headers,
                    expose_headers: self.expose_headers,
                    max_age: self.max_age,
                },
            ),
            Err(e) => Err(e),
        }
    }

    /// Adds an origin to those that the rule covers. The list is checked as
    /// a whole with the new origin at its end.
    pub fn add_allowed_origin(self, origin: &str) -> (r: Result<Self, ValidationError>)
        ensures
            match r {
                Ok(b) => origins_fault(self@.origins.push(origin@)) is None && b@
                    == (CorsRuleBuilderView { origins: self@.origins.push(origin@), ..self@ }),
                Err(e) => origins_fault(self@.origins.push(origin@)) == Some(e),
            },
    {
        proof {
            use_type_invariant(&self);
        }
        let mut origins = self.allowed_origins;
        let ghost before = views(origins@);
        origins.push(origin.to_owned());
        assert(views(origins@) =~= before.push(origin@));
        match validated_origins(origins) {
            Ok(origins) => Ok(
                CorsRuleBuilder {
                    name: self.name,
                    allowed_origins: origins,
                    allowed_operations: self.allowed_operations,
                    allowed_headers: self.allowed_headers,
                    expose_headers: self.expose_headers,
                    max_age: self.max_age,
                },
            ),
            Err(e) => Err(e),
        }
    }

    /// Sets the operations that the rule allows, in place of those set
    /// before. An empty list is refused.
    pub fn allowed_operations(self, ops: Vec<CorsOperation>) -> (r: Result<Self, ValidationError>)
        ensures
            match r {
                Ok(b) => ops@.len() > 0 && b@ == (CorsRuleBuilderView {
                    operations: ops@,
                    ..self@
                }),
                Err(e) => ops@.len() == 0 && e == ValidationError::MissingData(
                    Subject::AllowedOperations,
                ),
            },
    {
        proof {
            use_type_invariant(&self);
        }
        if ops.len() == 0 {
            return Err(ValidationError::MissingData(Subject::AllowedOperations));
        }
        Ok(
            CorsRuleBuilder {
                name: self.name,
                allowed_origins: self.allowed_origins,
                allowed_operations: ops,
                allowed_headers: self.allowed_headers,
                expose_headers: self.expose_headers,
                max_age: self.max_age,
            },
        )
    }

    /// Adds an operation to those that the rule allows.
    pub fn add_allowed_operation(self, op: CorsOperation) -> (r: Self)
        ensures
            r@ == (CorsRuleBuilderView { operations: self@.operations.push(op), ..self@ }),
    {
        proof {
            use_type_invariant(&self);
        }
        let mut ops = self.allowed_operations;
        ops.push(op);
        CorsRuleBuilder {
            name: self.name,
            allowed_origins: self.allowed_origins,
            allowed_operations: ops,
            allowed_headers: self.allowed_headers,
            expose_headers: self.expose_headers,
            max_age: self.max_age,
        }
    }

    /// Sets the headers that a request may carry, in place of those set
    /// before. Each entry is a header name, the beginning of one followed by
    /// `*`, or `*`, which then stands alone. An empty list changes nothing.
    pub fn allowed_headers(self, headers: Vec<String>) -> (r: Result<Self, BadHeaderName>)
        ensures
            match r {
                Ok(b) => headers_fault(views(headers@), true) is None && b@ == if headers@.len()
                    == 0 {
                    self@
                } else {
                    CorsRuleBuilderView { allowed_headers: Some(views(headers@)), ..self@ }
                },
                Err(e) => headers_fault(views(headers@), true) == Some(e),
            },
    {
        proof {
            use_type_invariant(&self);
        }
        match check_headers(&headers, true) {
            Some(e) => Err(e),
            None => {
                if headers.len() == 0 {
                    Ok(self)
                } else {
                    Ok(
                        CorsRuleBuilder {
                            name: self.name,
                            allowed_origins: self.allowed_origins,
                            allowed_operations: self.allowed_operations,
                            allowed_headers: Some(headers),
                            expose_headers: self.expose_headers,
                            max_age: self.max_age,
                        },
                    )
                }
            },
        }
    }

    /// Adds an entry to the headers that a request may carry. The list is
    /// checked as a whole with the new entry at its end.
    pub fn add_allowed_header(self, header: &str) -> (r: Result<Self, BadHeaderName>)
        ensures
            ({
                let list = match self@.allowed_headers {
                    Some(list) => list.push(header@),
                    None => seq![header@],
                };
                match r {
                    Ok(b) => headers_fault(list, true) is None && b@ == (CorsRuleBuilderView {
                        allowed_headers: Some(list),
                        ..self@
                    }),
                    Err(e) => headers_fault(list, true) == Some(e),
                }
            }),
    {
        proof {
            use_type_invariant(&self);
        }
        let mut headers = match self.allowed_headers {
            Some(list) => list,
            None => Vec::new(),
        };
        let ghost before = views(headers@);
        headers.push(header.to_owned());
        assert(views(headers@) =~= before.push(header@));
        assert(before.len() == 0 ==> before.push(header@) =~= seq![header@]);
        match check_headers(&headers, true) {
            Some(e) => Err(e),
            None => Ok(
                CorsRuleBuilder {
                    name: self.name,
                    allowed_origins: self.allowed_origins,
                    allowed_operations: self.allowed_operations,
                    allowed_headers: Some(headers),
                    expose_headers: self.expose_headers,
                    max_age: self.max_age,
                },
            ),
        }
    }

    /// Sets the headers of a response that a browser may show, in place of
    /// those set before. Each entry is a header name. An empty list changes
    /// nothing.
    pub fn exposed_headers(self, headers: Vec<String>) -> (r: Result<Self, BadHeaderName>)
        ensures
            match r {
                Ok(b) => headers_fault(views(headers@), false) is None && b@ == if headers@.len()
                    == 0 {
                    self@
                } else {
                    CorsRuleBuilderView { exposed_headers: Some(views(headers@)), ..self@ }
                },
                Err(e) => headers_fault(views(headers@), false) == Some(e),
            },
    {
        proof {
            use_type_invariant(&self);
        }
        match check_headers(&headers, false) {
            Some(e) => Err(e),
            None => {
                if headers.len() == 0 {
                    Ok(self)
                } else {
                    Ok(
                        CorsRuleBuilder {
                            name: self.name,
                            allowed_origins: self.allowed_origins,
                            allowed_operations: self.allowed_operations,
                            allowed_headers: self.allowed_headers,
                            expose_headers: Some(headers),
                            max_age: self.max_age,
                        },
                    )
                }
            },
        }
    }

    /// Adds a header to those of a response that a browser may show.
    pub fn add_exposed_header(self, header: &str) -> (r: Result<Self, BadHeaderName>)
        ensures
            ({
                let list = match self@.exposed_headers {
                    Some(list) => list.push(header@),
                    None => seq![header@],
                };
                match r {
                    Ok(b) => headers_fault(list, false) is None && b@ == (CorsRuleBuilderView {
                        exposed_headers: Some(list),
                        ..self@
                    }),
                    Err(e) => headers_fault(list, false) == Some(e),
                }
            }),
    {
        proof {
            use_type_invariant(&self);
        }
        let mut headers = match self.expose_headers {
            Some(list) => list,
            None => Vec::new(),
        };
        let ghost before = views(headers@);
        headers.push(header.to_owned());
        assert(views(headers@) =~= before.push(header@));
        assert(before.len() == 0 ==> before.push(header@) =~= seq![header@]);
        match check_headers(&headers, false) {
            Some(e) => Err(e),
            None => Ok(
                CorsRuleBuilder {
                    name: self.name,
                    allowed_origins: self.allowed_origins,
                    allowed_operations: self.allowed_operations,
                    allowed_headers: self.allowed_headers,
                    expose_headers: Some(headers),
                    max_age: self.max_age,
                },
            ),
        }
    }

    /// Sets the time for which a browser may cache a preflight response to
    /// the whole seconds of `age`, which must not be negative nor longer than
    /// a day: from 0 to 86,400 seconds.
    pub fn max_age(self, age: Duration) -> (r: Result<Self, ValidationError>)
        ensures
            match r {
                Ok(b) => {
                    &&& is_cache_time(age)
                    &&& 0 <= age.whole_seconds() <= 86_400
                    &&& b@ == (CorsRuleBuilderView {
                        max_age: Some(age.whole_seconds() as u32),
                        ..self@
                    })
                },
                Err(e) => !is_cache_time(age) && e == ValidationError::OutOfBounds(Subject::MaxAge),
            },
    {
        proof {
            use_type_invariant(&self);
        }
        let day = Duration::days(1);
        if age.is_negative() || day.is_less_than(&age) {
            return Err(ValidationError::OutOfBounds(Subject::MaxAge));
        }
        let seconds = age.num_seconds();
        Ok(
            CorsRuleBuilder {
                name: self.name,
                allowed_origins: self.allowed_origins,
                allowed_operations: self.allowed_operations,
                allowed_headers: self.allowed_headers,
                expose_headers: self.expose_headers,
                max_age: Some(seconds as u32),
            },
        )
    }

    /// The rule, if it has a name, a cache time, an origin and an operation,
    /// and its string data takes less than 1000 bytes in all.
    pub fn build(self) -> (r: Result<CorsRule, ValidationError>)
        ensures
            match r {
                Ok(rule) => self@.fault() is None && rule@ == self@.rule() && rule@.valid(),
                Err(e) => self@.fault() == Some(e),
            },
    {
        proof {
            use_type_invariant(&self);
        }
        let cors_rule_name = match self.name {
            Some(name) => name,
            None => {
                return Err(ValidationError::MissingData(Subject::CorsRuleName));
            },
        };
        let max_age_seconds = match self.max_age {
            Some(age) => age,
            None => {
                return Err(ValidationError::MissingData(Subject::MaxAge));
            },
        };
        if self.allowed_origins.len() == 0 {
            return Err(ValidationError::MissingData(Subject::AllowedOrigins));
        }
        if self.allowed_operations.len() == 0 {
            return Err(ValidationError::MissingData(Subject::AllowedOperations));
        }
        let mut bytes: usize = add_bytes(0, cors_rule_name.as_str());
        bytes = add_all_bytes(bytes, &self.allowed_origins);
        bytes = add_tag_bytes(bytes, &self.allowed_operations);
        match &self.allowed_headers {
            Some(list) => {
                bytes = add_all_bytes(bytes, list);
            },
            None => {},
        }
        match &self.expose_headers {
            Some(list) => {
                bytes = add_all_bytes(bytes, list);
            },
            None => {},
        }
        if bytes >= 1000 {
            return Err(ValidationError::OutOfBounds(Subject::CorsRuleSize));
        }
        Ok(
            CorsRule {
                cors_rule_name,
                allowed_origins: self.allowed_origins,
                allowed_operations: self.allowed_operations,
                allowed_headers: self.allowed_headers,
                expose_headers: self.expose_headers,
                max_age_seconds,
            },
        )
    }
}

/// Every operation is found again by its tag on the wire.
pub proof fn lemma_names_round_trip(operation: CorsOperation)
    ensures
        CorsOperation::named(operation.wire_name()) == Some(operation),
{
    reveal_strlit("b2_download_file_by_name");
    reveal_strlit("b2_download_file_by_id");
    reveal_strlit("b2_upload_file");
    reveal_strlit("b2_upload_part");
    reveal_strlit("s3_delete");
    reveal_strlit("s3_get");
    reveal_strlit("s3_head");
    reveal_strlit("s3_post");
    reveal_strlit("s3_put");
    assert("b2_download_file_by_name"@.len() == 24 && "b2_download_file_by_id"@.len() == 22);
    assert("b2_upload_file"@.len() == 14 && "b2_upload_part"@.len() == 14);
    assert("b2_upload_file"@[10] == 'f' && "b2_upload_part"@[10] == 'p');
    assert("s3_delete"@.len() == 9);
    assert("s3_get"@.len() == 6 && "s3_put"@.len() == 6);
    assert("s3_get"@[3] == 'g' && "s3_put"@[3] == 'p');
    assert("s3_head"@.len() == 7 && "s3_post"@.len() == 7);
    assert("s3_head"@[3] == 'h' && "s3_post"@[3] == 'p');
}

} // verus!

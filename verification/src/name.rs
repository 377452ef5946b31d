//! The names of buckets and of CORS rules.
//!
//! Both follow the same rules: 6 to 50 characters, each an ASCII letter, a
//! digit or `-`, and no name begins with `b2-`, which the service keeps for
//! itself.

use vstd::prelude::*;
use crate::error::BucketValidationError;
use crate::error::CorsRuleValidationError;
use crate::text::chars_of;

verus! {

/// What can be wrong with a name.
#[derive(Clone, Copy, Debug, PartialEq, Eq, Structural)]
pub enum NameFault {
    /// The name has fewer than 6 or more than 50 characters; holds their number.
    BadLength(usize),
    /// The name holds a character that no name may hold; holds the first one.
    InvalidChar(char),
    /// The name begins with `b2-`.
    ReservedPrefix,
}

/// Whether `c` may stand in a name.
pub open spec fn is_name_char(c: char) -> bool {
    ||| 'a' <= c <= 'z'
    ||| 'A' <= c <= 'Z'
    ||| '0' <= c <= '9'
    ||| c == '-'
}

/// `name` holds at `i` a character that no name may hold, and none before.
pub open spec fn first_bad_char_at(name: Seq<char>, i: int) -> bool {
    &&& 0 <= i < name.len()
    &&& !is_name_char(name[i])
    &&& forall|j: int| 0 <= j < i ==> is_name_char(#[trigger] name[j])
}

/// `name` begins with `b2-`.
pub open spec fn is_reserved(name: Seq<char>) -> bool {
    name.len() >= 3 && name[0] == 'b' && name[1] == '2' && name[2] == '-'
}

/// What is wrong with `name`, if anything: its length, or else its first
/// character that no name may hold, or else its beginning.
pub open spec fn name_fault(name: Seq<char>) -> Option<NameFault> {
    if name.len() < 6 || name.len() > 50 {
        Some(NameFault::BadLength(name.len() as usize))
    } else if exists|i: int| first_bad_char_at(name, i) {
        Some(NameFault::InvalidChar(name[choose|i: int| first_bad_char_at(name, i)]))
    } else if is_reserved(name) {
        Some(NameFault::ReservedPrefix)
    } else {
        None
    }
}

/// The fault of a name as a fault of a bucket name.
pub open spec fn bucket_name_error(fault: NameFault) -> BucketValidationError {
    match fault {
        NameFault::BadLength(n) => BucketValidationError::BadNameLength(n),
        NameFault::InvalidChar(c) => BucketValidationError::InvalidChar(c),
        NameFault::ReservedPrefix => BucketValidationError::ReservedPrefix,
    }
}

/// The fault of a name as a fault of the name of a CORS rule.
pub open spec fn cors_rule_name_error(fault: NameFault) -> CorsRuleValidationError {
    match fault {
        NameFault::BadLength(n) => CorsRuleValidationError::BadNameLength(n),
        NameFault::InvalidChar(c) => CorsRuleValidationError::InvalidChar(c),
        NameFault::ReservedPrefix => CorsRuleValidationError::ReservedPrefix,
    }
}

/// The first character that no name may hold is at one position only.
proof fn lemma_first_bad_char(name: Seq<char>, i: int)
    requires
        first_bad_char_at(name, i),
    ensures
        (choose|k: int| first_bad_char_at(name, k)) == i,
{
    let k = choose|k: int| first_bad_char_at(name, k);
    if k < i {
        assert(is_name_char(name[k]));
    } else if i < k {
        assert(is_name_char(name[i]));
    }
}

/// What is wrong with `name`, if anything.
pub fn check_name(name: &str) -> (r: Option<NameFault>)
    ensures
        r == name_fault(name@),
{
    let chars = chars_of(name);
    if chars.len() < 6 || chars.len() > 50 {
        return Some(NameFault::BadLength(chars.len()));
    }
    let mut i: usize = 0;
    while i < chars.len()
        invariant
            i <= chars.len(),
            6 <= chars.len() <= 50,
            chars@ == name@,
            forall|j: int| 0 <= j < i ==> is_name_char(#[trigger] chars@[j]),
        decreases chars.len() - i,
    {
        let c = chars[i];
        if !((c >= 'a' && c <= 'z') || (c >= 'A' && c <= 'Z') || (c >= '0' && c <= '9') || c
            == '-') {
            proof {
                assert(first_bad_char_at(name@, i as int));
                lemma_first_bad_char(name@, i as int);
            }
            return Some(NameFault::InvalidChar(c));
        }
        i += 1;
    }
    if chars[0] == 'b' && chars[1] == '2' && chars[2] == '-' {
        Some(NameFault::ReservedPrefix)
    } else {
        None
    }
}

/// Checks the name of a bucket and hands it out as a `String`.
pub fn validated_bucket_name(name: &str) -> (r: Result<String, BucketValidationError>)
    ensures
        match r {
            Ok(checked) => checked@ == name@ && name_fault(name@) is None,
            Err(e) => name_fault(name@) matches Some(fault) && e == bucket_name_error(fault),
        },
{
    match check_name(name) {
        None => Ok(name.to_owned()),
        Some(NameFault::BadLength(n)) => Err(BucketValidationError::BadNameLength(n)),
        Some(NameFault::InvalidChar(c)) => Err(BucketValidationError::InvalidChar(c)),
        Some(NameFault::ReservedPrefix) => Err(BucketValidationError::ReservedPrefix),
    }
}

/// Checks the name of a CORS rule and hands it out as a `String`.
pub fn validated_cors_rule_name(name: &str) -> (r: Result<String, CorsRuleValidationError>)
    ensures
        match r {
            Ok(checked) => checked@ == name@ && name_fault(name@) is None,
            Err(e) => name_fault(name@) matches Some(fault) && e == cors_rule_name_error(fault),
        },
{
    match check_name(name) {
        None => Ok(name.to_owned()),
        Some(NameFault::BadLength(n)) => Err(CorsRuleValidationError::BadNameLength(n)),
        Some(NameFault::InvalidChar(c)) => Err(CorsRuleValidationError::InvalidChar(c)),
        Some(NameFault::ReservedPrefix) => Err(CorsRuleValidationError::ReservedPrefix),
    }
}

} // verus!

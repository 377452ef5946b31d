//! Lifecycle rules, and the check that no two of them cover the same files.
//!
//! A lifecycle rule hides or deletes the files whose names begin with its
//! prefix. The service refuses a list of rules in which the prefix of one
//! rule is a proper beginning of the prefix of another: both would cover the
//! files under the longer prefix. A rule with the empty prefix covers all
//! files and stands alone. [`detect_conflicts`] reports every such pair,
//! grouped by the shorter prefix.

use vstd::prelude::*;
use crate::error::FileNameValidationError;
use crate::error::Subject;
use crate::error::ValidationError;
use crate::text::byte_len;
use crate::text::chars_of;
use crate::text::comes_before;
use crate::text::is_proper_prefix;
use crate::text::lemma_lex_total;
use crate::text::lemma_sorted_unique;
use crate::text::lemma_lex_transitive;
use crate::text::lex_lt;
use crate::text::same_chars;
use crate::text::starts_with;
use crate::text::strictly_sorted;
use crate::text::utf8_len;
use crate::text::views;
use crate::time::Duration;

verus! {

/// Whether `c` may stand in a file name: no control character may.
pub open spec fn is_file_name_char(c: char) -> bool {
    32 <= c as int && c as int != 127
}

/// The position of the first character of `name` that no file name may hold.
pub open spec fn first_bad_file_name_char(name: Seq<char>) -> Option<int> {
    if exists|i: int| 0 <= i < name.len() && !is_file_name_char(#[trigger] name[i]) {
        Some(
            choose|i: int|
                0 <= i < name.len() && !is_file_name_char(#[trigger] name[i]) && forall|j: int|
                    0 <= j < i ==> is_file_name_char(#[trigger] name[j]),
        )
    } else {
        None
    }
}

/// What is wrong with `name` as a file name, if anything: it is longer than
/// 1024 bytes, or else it holds a control character.
pub open spec fn file_name_fault(name: Seq<char>) -> Option<FileNameValidationError> {
    if byte_len(name) > 1024 {
        Some(FileNameValidationError::BadLength(byte_len(name) as usize))
    } else {
        match first_bad_file_name_char(name) {
            Some(i) => Some(FileNameValidationError::InvalidChar(name[i])),
            None => None,
        }
    }
}

/// The first character of `name` that no file name may hold stands where
/// such a character stands with none before it.
proof fn lemma_first_bad_file_name_char(name: Seq<char>, i: int)
    requires
        0 <= i < name.len(),
        !is_file_name_char(name[i]),
        forall|j: int| 0 <= j < i ==> is_file_name_char(#[trigger] name[j]),
    ensures
        first_bad_file_name_char(name) == Some(i),
{
    let k = first_bad_file_name_char(name)->0;
    assert(0 <= k < name.len() && !is_file_name_char(name[k]) && forall|j: int|
        0 <= j < k ==> is_file_name_char(#[trigger] name[j]));
    if k < i {
        assert(is_file_name_char(name[k]));
    } else if i < k {
        assert(is_file_name_char(name[i]));
    }
}

/// Checks a file name, or the beginning of one: at most 1024 bytes and no
/// control character. The empty string passes.
pub fn validated_file_name(name: &str) -> (r: Result<&str, FileNameValidationError>)
    ensures
        match r {
            Ok(s) => s@ == name@ && file_name_fault(name@) is None,
            Err(e) => file_name_fault(name@) == Some(e),
        },
{
    let length = utf8_len(name);
    if length > 1024 {
        return Err(FileNameValidationError::BadLength(length));
    }
    let chars = chars_of(name);
    let mut i: usize = 0;
    while i < chars.len()
        invariant
            i <= chars.len(),
            chars@ == name@,
            byte_len(name@) <= 1024,
            forall|j: int| 0 <= j < i ==> is_file_name_char(#[trigger] chars@[j]),
        decreases chars.len() - i,
    {
        let c = chars[i];
        if c < ' ' || c == '\u{7f}' {
            proof {
                lemma_first_bad_file_name_char(name@, i as int);
            }
            return Err(FileNameValidationError::InvalidChar(c));
        }
        i += 1;
    }
    Ok(name)
}

/// What a lifecycle rule holds.
pub struct LifecycleRuleView {
    /// The beginning of the names of the files that the rule covers.
    pub prefix: Seq<char>,
    /// The days after which an uploaded file is hidden.
    pub hide_after: Option<u16>,
    /// The days after which a hidden file is deleted.
    pub delete_after: Option<u16>,
}

impl LifecycleRuleView {
    /// What holds of every rule: the prefix could begin a file name, at least
    /// one of the two actions is set, and no action is set to less than a day.
    pub open spec fn valid(self) -> bool {
        &&& file_name_fault(self.prefix) is None
        &&& self.hide_after is Some || self.delete_after is Some
        &&& self.hide_after != Some(0u16)
        &&& self.delete_after != Some(0u16)
    }
}

/// A rule that hides or deletes the files under a file name prefix after some
/// days. The empty prefix covers every file.
#[derive(Debug, PartialEq, Eq, Hash)]
pub struct LifecycleRule {
    file_name_prefix: String,
    delete_after: Option<u16>,
    hide_after: Option<u16>,
}

impl View for LifecycleRule {
    type V = LifecycleRuleView;

    closed spec fn view(&self) -> LifecycleRuleView {
        LifecycleRuleView {
            prefix: self.file_name_prefix@,
            hide_after: self.hide_after,
            delete_after: self.delete_after,
        }
    }
}

/// What a builder of a lifecycle rule holds.
pub struct LifecycleRuleBuilderView {
    pub prefix: Option<Seq<char>>,
    pub hide_after: Option<u16>,
    pub delete_after: Option<u16>,
}

/// A lifecycle rule in the making.
#[derive(Clone, Copy, Debug, Default)]
pub struct LifecycleRuleBuilder<'a> {
    prefix: Option<&'a str>,
    delete_after: Option<u16>,
    hide_after: Option<u16>,
}

impl<'a> View for LifecycleRuleBuilder<'a> {
    type V = LifecycleRuleBuilderView;

    closed spec fn view(&self) -> LifecycleRuleBuilderView {
        LifecycleRuleBuilderView {
            prefix: match self.prefix {
                Some(p) => Some(p@),
                None => None,
            },
            hide_after: self.hide_after,
            delete_after: self.delete_after,
        }
    }
}

/// Whether a rule can hold `days` as the number of days of an action.
pub open spec fn days_in_range(days: int) -> bool {
    1 <= days <= u16::MAX
}

impl<'a> LifecycleRuleBuilder<'a> {
    #[verifier::type_invariant]
    spec fn well_formed(self) -> bool {
        &&& self.prefix matches Some(p) ==> file_name_fault(p@) is None
        &&& self.hide_after != Some(0u16)
        &&& self.delete_after != Some(0u16)
    }

    /// Sets the prefix of the names of the files that the rule covers. The
    /// empty prefix covers all files.
    pub fn filename_prefix(self, prefix: &'a str) -> (r: Result<Self, FileNameValidationError>)
        ensures
            match r {
                Ok(b) => file_name_fault(prefix@) is None && b@ == (LifecycleRuleBuilderView {
                    prefix: Some(prefix@),
                    ..self@
                }),
                Err(e) => file_name_fault(prefix@) == Some(e),
            },
    {
        proof {
            use_type_invariant(self);
        }
        match validated_file_name(prefix) {
            Ok(p) => Ok(
                LifecycleRuleBuilder {
                    prefix: Some(p),
                    delete_after: self.delete_after,
                    hide_after: self.hide_after,
                },
            ),
            Err(e) => Err(e),
        }
    }

    /// Sets the number of days after which an uploaded file is hidden to the
    /// whole days of `days`, which must be from 1 to 65,535.
    pub fn hide_after_upload(self, days: Duration) -> (r: Result<Self, ValidationError>)
        ensures
            match r {
                Ok(b) => days_in_range(days.whole_days()) && b@ == (LifecycleRuleBuilderView {
                    hide_after: Some(days.whole_days() as u16),
                    ..self@
                }),
                Err(e) => !days_in_range(days.whole_days()) && e == ValidationError::OutOfBounds(
                    Subject::HideAfterUpload,
                ),
            },
    {
        proof {
            use_type_invariant(self);
        }
        let days = days.num_days();
        if days < 1 {
            Err(ValidationError::OutOfBounds(Subject::HideAfterUpload))
        } else if days > 65_535 {
            Err(ValidationError::OutOfBounds(Subject::HideAfterUpload))
        } else {
            Ok(
                LifecycleRuleBuilder {
                    prefix: self.prefix,
                    delete_after: self.delete_after,
                    hide_after: Some(days as u16),
                },
            )
        }
    }

    /// Sets the number of days after which a hidden file is deleted to the
    /// whole days of `days`, which must be from 1 to 65,535.
    pub fn delete_after_hide(self, days: Duration) -> (r: Result<Self, ValidationError>)
        ensures
            match r {
                Ok(b) => days_in_range(days.whole_days()) && b@ == (LifecycleRuleBuilderView {
                    delete_after: Some(days.whole_days() as u16),
                    ..self@
                }),
                Err(e) => !days_in_range(days.whole_days()) && e == ValidationError::OutOfBounds(
                    Subject::DeleteAfterHide,
                ),
            },
    {
        proof {
            use_type_invariant(self);
        }
        let days = days.num_days();
        if days < 1 {
            Err(ValidationError::OutOfBounds(Subject::DeleteAfterHide))
        } else if days > 65_535 {
            Err(ValidationError::OutOfBounds(Subject::DeleteAfterHide))
        } else {
            Ok(
                LifecycleRuleBuilder {
                    prefix: self.prefix,
                    delete_after: Some(days as u16),
                    hide_after: self.hide_after,
                },
            )
        }
    }

    /// The rule, if a prefix and at least one of the two actions are set.
    /// Without a prefix the prefix is reported as missing; with a prefix and
    /// no action, the actions as incompatible.
    pub fn build(self) -> (r: Result<LifecycleRule, ValidationError>)
        ensures
            match (r, self@.prefix) {
                (Ok(rule), Some(prefix)) => {
                    &&& self@.hide_after is Some || self@.delete_after is Some
                    &&& rule@ == (LifecycleRuleView {
                        prefix,
                        hide_after: self@.hide_after,
                        delete_after: self@.delete_after,
                    })
                    &&& rule@.valid()
                },
                (Err(e), Some(_)) => {
                    &&& self@.hide_after is None
                    &&& self@.delete_after is None
                    &&& e == ValidationError::Incompatible(Subject::LifecycleActions)
                },
                (Err(e), None) => e == ValidationError::MissingData(Subject::FilenamePrefix),
                (Ok(_), None) => false,
            },
    {
        proof {
            use_type_invariant(self);
        }
        match self.prefix {
            None => Err(ValidationError::MissingData(Subject::FilenamePrefix)),
            Some(prefix) => {
                if self.hide_after.is_none() && self.delete_after.is_none() {
                    Err(ValidationError::Incompatible(Subject::LifecycleActions))
                } else {
                    Ok(
                        LifecycleRule {
                            file_name_prefix: prefix.to_owned(),
                            delete_after: self.delete_after,
                            hide_after: self.hide_after,
                        },
                    )
                }
            },
        }
    }
}

impl Clone for LifecycleRule {
    fn clone(&self) -> (r: Self)
        ensures
            r@ == self@,
    {
        proof {
            use_type_invariant(self);
        }
        LifecycleRule {
            file_name_prefix: self.file_name_prefix.clone(),
            delete_after: self.delete_after,
            hide_after: self.hide_after,
        }
    }
}

impl LifecycleRule {
    #[verifier::type_invariant]
    spec fn well_formed(self) -> bool {
        self@.valid()
    }

    /// A builder with nothing set.
    pub fn builder<'a>() -> (r: LifecycleRuleBuilder<'a>)
        ensures
            r@ == (LifecycleRuleBuilderView { prefix: None, hide_after: None, delete_after: None }),
    {
        LifecycleRuleBuilder { prefix: None, delete_after: None, hide_after: None }
    }

    /// The beginning of the names of the files that the rule covers.
    pub fn file_name_prefix(&self) -> (r: &str)
        ensures
            r@ == self@.prefix,
            self@.valid(),
    {
        proof {
            use_type_invariant(self);
        }
        self.file_name_prefix.as_str()
    }

    /// The days after which an uploaded file is hidden, if it is.
    pub fn hide_after(&self) -> (r: Option<u16>)
        ensures
            r == self@.hide_after,
            self@.valid(),
    {
        proof {
            use_type_invariant(self);
        }
        self.hide_after
    }

    /// The days after which a hidden file is deleted, if it is.
    pub fn delete_after(&self) -> (r: Option<u16>)
        ensures
            r == self@.delete_after,
            self@.valid(),
    {
        proof {
            use_type_invariant(self);
        }
        self.delete_after
    }
}

/// One group of a conflict report: the prefix of a rule, and the prefixes of
/// the rules whose files it covers as well.
#[derive(Clone, Debug, PartialEq, Eq)]
pub struct Conflict {
    pub prefix: String,
    pub covered: Vec<String>,
}

/// One group of a conflict report, as character sequences.
pub struct ConflictView {
    pub prefix: Seq<char>,
    pub covered: Seq<Seq<char>>,
}

impl View for Conflict {
    type V = ConflictView;

    open spec fn view(&self) -> ConflictView {
        ConflictView { prefix: self.prefix@, covered: views(self.covered@) }
    }
}

/// A list of lifecycle rules that the service would refuse.
#[derive(Clone, Debug, PartialEq, Eq)]
pub enum LifecycleRuleValidationError {
    /// Some rules cover the same files; holds the report of
    /// [`detect_conflicts`].
    ConflictingRules(Vec<Conflict>),
}

/// The groups of a report, as character sequences.
pub open spec fn report_view(report: Seq<Conflict>) -> Seq<ConflictView> {
    Seq::new(report.len(), |i: int| report[i]@)
}

/// The prefixes of a list of rules, in the order of the rules.
pub open spec fn prefixes_of(rules: Seq<LifecycleRule>) -> Seq<Seq<char>> {
    Seq::new(rules.len(), |i: int| rules[i]@.prefix)
}

/// Two of `prefixes` are empty.
pub open spec fn empty_twice(prefixes: Seq<Seq<char>>) -> bool {
    exists|i: int, j: int|
        0 <= i < j < prefixes.len() && (#[trigger] prefixes[i]).len() == 0 && (
        #[trigger] prefixes[j]).len() == 0
}

/// A rule with the prefix `key` covers files of another rule of the list,
/// whose prefix is `x`: `key` is a proper beginning of `x`, or both are the
/// empty prefix of two rules. Two rules with the same prefix do not count as
/// a conflict, unless the prefix is empty: a rule for all files stands alone.
pub open spec fn covers(prefixes: Seq<Seq<char>>, key: Seq<char>, x: Seq<char>) -> bool {
    is_proper_prefix(key, x) || (key.len() == 0 && x.len() == 0 && empty_twice(prefixes))
}

/// A rule with the prefix `key` covers files of another rule of the list.
pub open spec fn covers_another(prefixes: Seq<Seq<char>>, key: Seq<char>) -> bool {
    exists|j: int| 0 <= j < prefixes.len() && covers(prefixes, key, #[trigger] prefixes[j])
}

/// One rule of the list covers files of another.
pub open spec fn has_conflict(prefixes: Seq<Seq<char>>) -> bool {
    exists|i: int|
        0 <= i < prefixes.len() && covers_another(prefixes, #[trigger] prefixes[i])
}

/// `covered` lists, in ascending order and each once, the `prefixes` of the
/// rules whose files a rule with the prefix `key` covers.
pub open spec fn lists_covered(
    prefixes: Seq<Seq<char>>,
    key: Seq<char>,
    covered: Seq<Seq<char>>,
) -> bool {
    &&& strictly_sorted(covered)
    &&& forall|x: Seq<char>| #[trigger]
        covered.contains(x) <==> prefixes.contains(x) && covers(prefixes, key, x)
}

/// `report` is the conflict report of `prefixes`: one group for each prefix
/// whose rule covers files of another rule, in ascending order of these
/// prefixes, and in each group the prefixes of all those other rules, whether
/// or not a prefix between them has a group of its own.
pub open spec fn is_conflict_report(prefixes: Seq<Seq<char>>, report: Seq<ConflictView>) -> bool {
    &&& forall|g: int, h: int|
        0 <= g < h < report.len() ==> lex_lt(
            (#[trigger] report[g]).prefix,
            (#[trigger] report[h]).prefix,
        )
    &&& forall|g: int|
        0 <= g < report.len() ==> {
            &&& prefixes.contains((#[trigger] report[g]).prefix)
            &&& report[g].covered.len() > 0
            &&& lists_covered(prefixes, report[g].prefix, report[g].covered)
        }
    &&& forall|i: int|
        0 <= i < prefixes.len() && covers_another(prefixes, #[trigger] prefixes[i])
            ==> exists|g: int|
            0 <= g < report.len() && (#[trigger] report[g]).prefix == prefixes[i]
}

/// The prefixes of the groups of a report.
pub open spec fn report_keys(report: Seq<ConflictView>) -> Seq<Seq<char>> {
    Seq::new(report.len(), |g: int| report[g].prefix)
}

/// A list of prefixes has one conflict report only.
pub proof fn lemma_report_unique(
    prefixes: Seq<Seq<char>>,
    first: Seq<ConflictView>,
    second: Seq<ConflictView>,
)
    requires
        is_conflict_report(prefixes, first),
        is_conflict_report(prefixes, second),
    ensures
        first == second,
{
    lemma_report_keys(prefixes, first, second);
    lemma_report_keys(prefixes, second, first);
    let keys = report_keys(first);
    let others = report_keys(second);
    assert(strictly_sorted(keys)) by {
        assert forall|g: int, h: int| 0 <= g < h < keys.len() implies lex_lt(keys[g], keys[h]) by {
            assert(lex_lt(first[g].prefix, first[h].prefix));
        }
    }
    assert(strictly_sorted(others)) by {
        assert forall|g: int, h: int| 0 <= g < h < others.len() implies lex_lt(
            others[g],
            others[h],
        ) by {
            assert(lex_lt(second[g].prefix, second[h].prefix));
        }
    }
    lemma_sorted_unique(keys, others);
    assert(first.len() == keys.len() && second.len() == others.len());
    assert forall|g: int| 0 <= g < first.len() implies first[g] == second[g] by {
        assert(keys[g] == others[g]);
        assert(first[g].prefix == second[g].prefix);
        let key = first[g].prefix;
        assert(lists_covered(prefixes, key, first[g].covered));
        assert(lists_covered(prefixes, key, second[g].covered));
        assert forall|x: Seq<char>|
            first[g].covered.contains(x) <==> second[g].covered.contains(x) by {
            assert(first[g].covered.contains(x) <==> prefixes.contains(x) && covers(
                prefixes,
                key,
                x,
            ));
            assert(second[g].covered.contains(x) <==> prefixes.contains(x) && covers(
                prefixes,
                key,
                x,
            ));
        }
        lemma_sorted_unique(first[g].covered, second[g].covered);
    }
    assert(first =~= second);
}

/// Every prefix that has a group in one report of a list has one in each.
proof fn lemma_report_keys(
    prefixes: Seq<Seq<char>>,
    first: Seq<ConflictView>,
    second: Seq<ConflictView>,
)
    requires
        is_conflict_report(prefixes, first),
        is_conflict_report(prefixes, second),
    ensures
        forall|x: Seq<char>| report_keys(first).contains(x) ==> report_keys(second).contains(x),
{
    assert forall|x: Seq<char>| report_keys(first).contains(x) implies report_keys(
        second,
    ).contains(x) by {
        let g = choose|g: int| 0 <= g < report_keys(first).len() && report_keys(first)[g] == x;
        assert(first[g].prefix == x);
        assert(prefixes.contains(first[g].prefix));
        let i = choose|i: int| 0 <= i < prefixes.len() && prefixes[i] == x;
        let y = first[g].covered[0];
        assert(first[g].covered.contains(y));
        assert(prefixes.contains(y) && covers(prefixes, x, y));
        let j = choose|j: int| 0 <= j < prefixes.len() && prefixes[j] == y;
        assert(covers(prefixes, x, prefixes[j]));
        assert(covers_another(prefixes, prefixes[i]));
        let h = choose|h: int| 0 <= h < second.len() && (#[trigger] second[h]).prefix == prefixes[i];
        assert(report_keys(second)[h] == x);
    }
}

/// In a list without conflict no prefix is a proper beginning of another.
pub proof fn lemma_no_conflict(prefixes: Seq<Seq<char>>, i: int, j: int)
    requires
        !has_conflict(prefixes),
        0 <= i < prefixes.len(),
        0 <= j < prefixes.len(),
    ensures
        !is_proper_prefix(prefixes[i], prefixes[j]),
{
    if is_proper_prefix(prefixes[i], prefixes[j]) {
        assert(covers(prefixes, prefixes[i], prefixes[j]));
        assert(covers_another(prefixes, prefixes[i]));
    }
}

/// A list of two or more rules of which one has the empty prefix has a
/// conflict: a rule for all files stands alone.
pub proof fn lemma_empty_prefix_stands_alone(prefixes: Seq<Seq<char>>, i: int)
    requires
        0 <= i < prefixes.len(),
        prefixes[i].len() == 0,
        prefixes.len() >= 2,
    ensures
        has_conflict(prefixes),
{
    let j = if i == 0 {
        1
    } else {
        0
    };
    if prefixes[j].len() == 0 {
        if i < j {
            assert(prefixes[i].len() == 0 && prefixes[j].len() == 0);
        } else {
            assert(prefixes[j].len() == 0 && prefixes[i].len() == 0);
        }
        assert(empty_twice(prefixes));
    } else {
        assert(is_proper_prefix(prefixes[i], prefixes[j]));
    }
    assert(covers(prefixes, prefixes[i], prefixes[j]));
    assert(covers_another(prefixes, prefixes[i]));
}

/// The character sequences of a list of character vectors.
spec fn text_views(texts: Seq<Vec<char>>) -> Seq<Seq<char>> {
    Seq::new(texts.len(), |i: int| texts[i]@)
}

/// What stands in `p` at the position that `order` holds at `a`.
spec fn key_at(p: Seq<Seq<char>>, order: Seq<usize>, a: int) -> Seq<char> {
    p[order[a] as int]
}

/// What stands in `p` at `j` also stands at one of the positions of `order`.
spec fn found(p: Seq<Seq<char>>, order: Seq<usize>, j: int) -> bool {
    exists|a: int| 0 <= a < order.len() && #[trigger] key_at(p, order, a) == p[j]
}

/// `order` holds positions of `p` before `upto`, in ascending order of what
/// stands there, and each of the sequences before `upto` stands at one of
/// them.
spec fn is_order(p: Seq<Seq<char>>, order: Seq<usize>, upto: int) -> bool {
    &&& upto <= p.len()
    &&& forall|a: int| 0 <= a < order.len() ==> (#[trigger] order[a]) < upto
    &&& forall|a: int, b: int|
        0 <= a < b < order.len() ==> lex_lt(
            #[trigger] key_at(p, order, a),
            #[trigger] key_at(p, order, b),
        )
    &&& forall|j: int| 0 <= j < upto ==> #[trigger] found(p, order, j)
}

/// `picked` holds `e`.
spec fn holds(picked: Seq<int>, e: int) -> bool {
    exists|c: int| 0 <= c < picked.len() && #[trigger] picked[c] == e
}

/// `picked` is ascending.
spec fn ascending(picked: Seq<int>) -> bool {
    forall|c: int, d: int| 0 <= c < d < picked.len() ==> (#[trigger] picked[c]) < (
    #[trigger] picked[d])
}

/// Adding a value at the end of `picked` keeps what it held.
proof fn lemma_holds_push(picked: Seq<int>, last: int, e: int)
    requires
        holds(picked, e) || e == last,
    ensures
        holds(picked.push(last), e),
{
    if e == last {
        assert(picked.push(last)[picked.len() as int] == e);
    } else {
        let c = choose|c: int| 0 <= c < picked.len() && #[trigger] picked[c] == e;
        assert(picked.push(last)[c] == e);
    }
}

/// An order stays one when the next sequence already stands at one of its
/// positions.
proof fn lemma_order_skip(p: Seq<Seq<char>>, order: Seq<usize>, at: int, i: int)
    requires
        0 <= i < p.len(),
        is_order(p, order, i),
        0 <= at < order.len(),
        key_at(p, order, at) == p[i],
    ensures
        is_order(p, order, i + 1),
{
    assert forall|j: int| 0 <= j < i + 1 implies #[trigger] found(p, order, j) by {
        if j < i {
            assert(found(p, order, j));
        }
    }
}

/// An order stays one when the next position is put where the sequences
/// before are smaller and the one after is larger.
proof fn lemma_order_insert(p: Seq<Seq<char>>, order: Seq<usize>, at: int, i: usize)
    requires
        0 <= i < p.len(),
        is_order(p, order, i as int),
        0 <= at <= order.len(),
        forall|a: int| 0 <= a < at ==> lex_lt(#[trigger] key_at(p, order, a), p[i as int]),
        at < order.len() ==> lex_lt(p[i as int], key_at(p, order, at)),
    ensures
        is_order(p, order.insert(at, i), i + 1),
{
    let after = order.insert(at, i);
    assert forall|a: int| 0 <= a < after.len() implies {
        &&& (#[trigger] after[a]) < i + 1
        &&& a < at ==> key_at(p, after, a) == key_at(p, order, a)
        &&& a == at ==> key_at(p, after, a) == p[i as int]
        &&& a > at ==> key_at(p, after, a) == key_at(p, order, a - 1)
    } by {
        if a < at {
            assert(after[a] == order[a]);
        } else if a > at {
            assert(after[a] == order[a - 1]);
        }
    }
    assert forall|a: int, b: int| 0 <= a < b < after.len() implies lex_lt(
        #[trigger] key_at(p, after, a),
        #[trigger] key_at(p, after, b),
    ) by {
        assert(after[a] < i + 1);
        assert(after[b] < i + 1);
        if b < at {
            assert(lex_lt(key_at(p, order, a), key_at(p, order, b)));
        } else if b == at {
            assert(lex_lt(key_at(p, order, a), p[i as int]));
        } else if a == at {
            if b - 1 > at {
                assert(lex_lt(key_at(p, order, at), key_at(p, order, b - 1)));
                lemma_lex_transitive(p[i as int], key_at(p, order, at), key_at(p, order, b - 1));
            }
        } else if a < at {
            assert(lex_lt(key_at(p, order, a), key_at(p, order, b - 1)));
        } else {
            assert(lex_lt(key_at(p, order, a - 1), key_at(p, order, b - 1)));
        }
    }
    assert forall|j: int| 0 <= j < i + 1 implies #[trigger] found(p, after, j) by {
        if j == i {
            assert(after[at] < i + 1);
            assert(key_at(p, after, at) == p[j]);
        } else {
            assert(found(p, order, j));
            let a0 = choose|a: int| 0 <= a < order.len() && #[trigger] key_at(p, order, a) == p[j];
            let a1 = if a0 < at {
                a0
            } else {
                a0 + 1
            };
            assert(after[a1] < i + 1);
            assert(key_at(p, after, a1) == p[j]);
        }
    }
}

/// The prefixes of the rules, as vectors of characters.
fn prefix_texts(rules: &Vec<LifecycleRule>) -> (texts: Vec<Vec<char>>)
    ensures
        texts.len() == rules.len(),
        text_views(texts@) == prefixes_of(rules@),
{
    let mut texts: Vec<Vec<char>> = Vec::new();
    let mut i: usize = 0;
    while i < rules.len()
        invariant
            i <= rules.len(),
            texts.len() == i,
            forall|j: int| 0 <= j < i ==> (#[trigger] texts@[j])@ == rules@[j]@.prefix,
        decreases rules.len() - i,
    {
        texts.push(chars_of(rules[i].file_name_prefix.as_str()));
        i += 1;
    }
    assert(text_views(texts@) =~= prefixes_of(rules@));
    texts
}

/// Puts position `i` in its place in `order`, unless what stands there
/// already stands at one of the positions of `order`.
fn place(texts: &Vec<Vec<char>>, order: &mut Vec<usize>, i: usize)
    requires
        i < texts.len(),
        is_order(text_views(texts@), old(order)@, i as int),
    ensures
        is_order(text_views(texts@), final(order)@, i + 1),
{
    let ghost p = text_views(texts@);
    let ghost before = order@;
    let mut at: usize = 0;
    let mut searching = true;
    while searching && at < order.len()
        invariant
            i < texts.len(),
            p == text_views(texts@),
            order@ == before,
            is_order(p, before, i as int),
            at <= order.len(),
            forall|a: int| 0 <= a < at ==> lex_lt(#[trigger] key_at(p, before, a), p[i as int]),
            !searching ==> at < order.len() && !lex_lt(key_at(p, before, at as int), p[i as int]),
        decreases order.len() - at, searching as int,
    {
        assert(order@[at as int] < i);
        if comes_before(&texts[order[at]], &texts[i]) {
            at += 1;
        } else {
            searching = false;
        }
    }
    if at < order.len() {
        assert(order@[at as int] < i);
        if same_chars(&texts[order[at]], &texts[i]) {
            proof {
                lemma_order_skip(p, before, at as int, i as int);
            }
            return ;
        }
        proof {
            lemma_lex_total(key_at(p, before, at as int), p[i as int]);
        }
    }
    order.insert(at, i);
    proof {
        lemma_order_insert(p, before, at as int, i);
    }
}

/// The positions of the different sequences of `texts`, in ascending order of
/// the sequences.
fn sorted_order(texts: &Vec<Vec<char>>) -> (order: Vec<usize>)
    ensures
        is_order(text_views(texts@), order@, texts.len() as int),
{
    let mut order: Vec<usize> = Vec::new();
    let mut i: usize = 0;
    while i < texts.len()
        invariant
            i <= texts.len(),
            is_order(text_views(texts@), order@, i as int),
        decreases texts.len() - i,
    {
        place(texts, &mut order, i);
        i += 1;
    }
    order
}

/// Whether two of the sequences are empty.
fn has_empty_twice(texts: &Vec<Vec<char>>) -> (r: bool)
    ensures
        r == empty_twice(text_views(texts@)),
{
    let ghost p = text_views(texts@);
    let mut seen: bool = false;
    let ghost mut at: int = 0;
    let mut i: usize = 0;
    while i < texts.len()
        invariant
            i <= texts.len(),
            p == text_views(texts@),
            seen ==> 0 <= at < i && p[at].len() == 0,
            !seen ==> forall|j: int| 0 <= j < i ==> (#[trigger] p[j]).len() != 0,
            forall|j: int, k: int|
                0 <= j < k < i ==> !((#[trigger] p[j]).len() == 0 && (#[trigger] p[k]).len() == 0),
        decreases texts.len() - i,
    {
        assert(p[i as int] == texts@[i as int]@);
        if texts[i].len() == 0 {
            if seen {
                assert(p[at].len() == 0 && p[i as int].len() == 0);
                return true;
            }
            seen = true;
            proof {
                at = i as int;
            }
        }
        i += 1;
    }
    false
}

/// The prefixes of the rules whose files the rule with the prefix at
/// `order[at]` covers.
fn covered_by(
    rules: &Vec<LifecycleRule>,
    texts: &Vec<Vec<char>>,
    order: &Vec<usize>,
    at: usize,
    twice: bool,
) -> (covered: Vec<String>)
    requires
        twice == empty_twice(prefixes_of(rules@)),
        texts.len() == rules.len(),
        text_views(texts@) == prefixes_of(rules@),
        is_order(prefixes_of(rules@), order@, rules.len() as int),
        at < order.len(),
    ensures
        lists_covered(
            prefixes_of(rules@),
            key_at(prefixes_of(rules@), order@, at as int),
            views(covered@),
        ),
{
    let ghost p = prefixes_of(rules@);
    let ghost key = key_at(p, order@, at as int);
    let mut covered: Vec<String> = Vec::new();
    let ghost mut picked: Seq<int> = Seq::empty();
    let mut b: usize = 0;
    while b < order.len()
        invariant
            b <= order.len(),
            at < order.len(),
            twice == empty_twice(p),
            texts.len() == rules.len(),
            p == prefixes_of(rules@),
            p == text_views(texts@),
            key == key_at(p, order@, at as int),
            is_order(p, order@, rules.len() as int),
            picked.len() == covered.len(),
            ascending(picked),
            forall|c: int|
                0 <= c < picked.len() ==> 0 <= (#[trigger] picked[c]) < b && covered@[c]@
                    == key_at(p, order@, picked[c]) && covers(p, key, covered@[c]@),
            forall|e: int|
                0 <= e < b && covers(p, key, key_at(p, order@, e)) ==> #[trigger] holds(
                    picked,
                    e,
                ),
        decreases order.len() - b,
    {
        let k = order[b];
        let j = order[at];
        assert(k < rules.len());
        assert(j < rules.len());
        assert(p[k as int] == texts@[k as int]@);
        assert(p[j as int] == texts@[j as int]@);
        let ghost earlier = picked;
        let ghost before = covered@;
        assert(key == p[j as int] && key_at(p, order@, b as int) == p[k as int]);
        if (texts[j].len() < texts[k].len() && starts_with(&texts[k], &texts[j])) || (twice
            && texts[j].len() == 0 && texts[k].len() == 0) {
            assert(covers(p, key, p[k as int]));
            covered.push(rules[k].file_name_prefix.clone());
            proof {
                picked = picked.push(b as int);
                assert(covered@[covered.len() - 1]@ == p[k as int]);
                assert forall|c: int| 0 <= c < picked.len() implies 0 <= (#[trigger] picked[c]) < b
                    + 1 && covered@[c]@ == key_at(p, order@, picked[c]) && covers(
                    p,
                    key,
                    covered@[c]@,
                ) by {
                    if c < earlier.len() {
                        assert(picked[c] == earlier[c]);
                        assert(covered@[c] == before[c]);
                    }
                }
                assert(ascending(picked)) by {
                    assert forall|c: int, d: int| 0 <= c < d < picked.len() implies (
                    #[trigger] picked[c]) < (#[trigger] picked[d]) by {
                        assert(picked[c] == earlier[c]);
                        if d < earlier.len() {
                            assert(picked[d] == earlier[d]);
                        }
                    }
                }
            }
        } else {
            assert(!covers(p, key, p[k as int]));
        }
        proof {
            assert forall|e: int|
                0 <= e < b + 1 && covers(
                    p,
                    key,
                    key_at(p, order@, e),
                ) implies #[trigger] holds(picked, e) by {
                if e < b {
                    assert(holds(earlier, e));
                }
                if picked != earlier {
                    lemma_holds_push(earlier, b as int, e);
                }
            }
        }
        b += 1;
    }
    proof {
        let shown = views(covered@);
        assert forall|c: int, d: int| 0 <= c < d < shown.len() implies lex_lt(
            shown[c],
            shown[d],
        ) by {
            assert(picked[c] < picked[d]);
            assert(lex_lt(key_at(p, order@, picked[c]), key_at(p, order@, picked[d])));
        }
        assert forall|x: Seq<char>| #[trigger]
            shown.contains(x) <==> p.contains(x) && covers(p, key, x) by {
            if shown.contains(x) {
                let c = choose|c: int| 0 <= c < shown.len() && shown[c] == x;
                assert(x == key_at(p, order@, picked[c]));
                assert(order@[picked[c]] < rules.len());
            }
            if p.contains(x) && covers(p, key, x) {
                let j = choose|j: int| 0 <= j < p.len() && p[j] == x;
                assert(found(p, order@, j));
                let e = choose|e: int|
                    0 <= e < order@.len() && #[trigger] key_at(p, order@, e) == p[j];
                assert(holds(picked, e));
                let c = choose|c: int| 0 <= c < picked.len() && #[trigger] picked[c] == e;
                assert(shown[c] == x);
            }
        }
    }
    covered
}

/// The conflict report of a list of rules: for each prefix that is a proper
/// beginning of the prefix of another rule, in ascending order, the prefixes
/// that it is a proper beginning of, in ascending order. A prefix is listed in
/// the group of each of its beginnings. The empty prefix covers all files:
/// its group holds every other prefix, and the empty prefix itself if two rules
/// have it. The report of a list without conflicts is empty.
pub fn detect_conflicts(rules: &Vec<LifecycleRule>) -> (report: Vec<Conflict>)
    ensures
        is_conflict_report(prefixes_of(rules@), report_view(report@)),
        report@.len() > 0 <==> has_conflict(prefixes_of(rules@)),
{
    let ghost p = prefixes_of(rules@);
    let texts = prefix_texts(rules);
    let order = sorted_order(&texts);
    let twice = has_empty_twice(&texts);
    let mut report: Vec<Conflict> = Vec::new();
    let ghost mut picked: Seq<int> = Seq::empty();
    let mut a: usize = 0;
    while a < order.len()
        invariant
            a <= order.len(),
            twice == empty_twice(p),
            texts.len() == rules.len(),
            p == prefixes_of(rules@),
            p == text_views(texts@),
            is_order(p, order@, rules.len() as int),
            picked.len() == report.len(),
            ascending(picked),
            forall|g: int|
                0 <= g < picked.len() ==> {
                    &&& 0 <= (#[trigger] picked[g]) < a
                    &&& report@[g]@.prefix == key_at(p, order@, picked[g])
                    &&& report@[g]@.covered.len() > 0
                    &&& lists_covered(p, report@[g]@.prefix, report@[g]@.covered)
                },
            forall|e: int|
                0 <= e < a && covers_another(p, key_at(p, order@, e)) ==> #[trigger] holds(
                    picked,
                    e,
                ),
        decreases order.len() - a,
    {
        let covered = covered_by(rules, &texts, &order, a, twice);
        let ghost key = key_at(p, order@, a as int);
        let ghost earlier = picked;
        proof {
            if covers_another(p, key) {
                let j = choose|j: int| 0 <= j < p.len() && covers(p, key, #[trigger] p[j]);
                assert(p.contains(p[j]));
                assert(views(covered@).contains(p[j]));
            }
        }
        if covered.len() > 0 {
            assert(order@[a as int] < rules.len());
            let ghost shown = views(covered@);
            let ghost before = report@;
            let group = Conflict { prefix: rules[order[a]].file_name_prefix.clone(), covered };
            assert(group@.prefix == key && group@.covered == shown);
            report.push(group);
            proof {
                picked = picked.push(a as int);
                assert forall|g: int| 0 <= g < picked.len() implies {
                    &&& 0 <= (#[trigger] picked[g]) < a + 1
                    &&& report@[g]@.prefix == key_at(p, order@, picked[g])
                    &&& report@[g]@.covered.len() > 0
                    &&& lists_covered(p, report@[g]@.prefix, report@[g]@.covered)
                } by {
                    if g < earlier.len() {
                        assert(picked[g] == earlier[g]);
                        assert(report@[g] == before[g]);
                    }
                }
            }
        }
        proof {
            assert forall|e: int|
                0 <= e < a + 1 && covers_another(
                    p,
                    key_at(p, order@, e),
                ) implies #[trigger] holds(picked, e) by {
                if e < a {
                    assert(holds(earlier, e));
                }
                if picked != earlier {
                    lemma_holds_push(earlier, a as int, e);
                }
            }
        }
        a += 1;
    }
    proof {
        let shown = report_view(report@);
        assert forall|g: int, h: int| 0 <= g < h < shown.len() implies lex_lt(
            (#[trigger] shown[g]).prefix,
            (#[trigger] shown[h]).prefix,
        ) by {
            assert(picked[g] < picked[h]);
            assert(lex_lt(key_at(p, order@, picked[g]), key_at(p, order@, picked[h])));
        }
        assert forall|g: int| 0 <= g < shown.len() implies {
            &&& p.contains((#[trigger] shown[g]).prefix)
            &&& shown[g].covered.len() > 0
            &&& lists_covered(p, shown[g].prefix, shown[g].covered)
        } by {
            assert(0 <= picked[g] < a);
            assert(shown[g].prefix == key_at(p, order@, picked[g]));
            assert(order@[picked[g]] < rules.len());
        }
        assert forall|i: int|
            0 <= i < p.len() && covers_another(p, #[trigger] p[i]) implies exists|g: int|
            0 <= g < shown.len() && (#[trigger] shown[g]).prefix == p[i] by {
            assert(found(p, order@, i));
            let e = choose|e: int| 0 <= e < order@.len() && #[trigger] key_at(p, order@, e) == p[i];
            assert(holds(picked, e));
            let g = choose|g: int| 0 <= g < picked.len() && #[trigger] picked[g] == e;
            assert(shown[g].prefix == p[i]);
        }
        if report@.len() > 0 {
            let key = shown[0].prefix;
            let i = choose|i: int| 0 <= i < p.len() && p[i] == key;
            let x = shown[0].covered[0];
            assert(shown[0].covered.contains(x));
            let j = choose|j: int| 0 <= j < p.len() && p[j] == x;
            assert(covers(p, p[i], p[j]));
            assert(covers_another(p, p[i]));
        }
    }
    report
}

/// Checks a list of lifecycle rules as a whole. The list passes, and comes
/// back as it is, if no prefix of a rule is a proper beginning of the prefix
/// of another and a rule with the empty prefix stands alone; else the
/// conflict report of the list comes back.
pub fn validated_lifecycle_rules(rules: Vec<LifecycleRule>) -> (r: Result<
    Vec<LifecycleRule>,
    LifecycleRuleValidationError,
>)
    ensures
        match r {
            Ok(checked) => checked == rules && !has_conflict(prefixes_of(rules@)),
            Err(LifecycleRuleValidationError::ConflictingRules(report)) => {
                &&& has_conflict(prefixes_of(rules@))
                &&& is_conflict_report(prefixes_of(rules@), report_view(report@))
            },
        },
{
    let report = detect_conflicts(&rules);
    if report.len() == 0 {
        Ok(rules)
    } else {
        Err(LifecycleRuleValidationError::ConflictingRules(report))
    }
}

} // verus!

//! The task entity and the validated value objects it is made of.

use crate::domain::error::DomainError;
use std::borrow::Cow;
use validator::ValidateLength;
use validator::ValidationError;
use validator::ValidationErrors;
use vstd::prelude::*;
use vstd::std_specs::iter::IteratorSpec;

verus! {

/// Whether `c` has the Unicode property `White_Space`.
pub open spec fn is_whitespace(c: char) -> bool {
    ||| '\u{9}' <= c <= '\u{D}'
    ||| c == '\u{20}'
    ||| c == '\u{85}'
    ||| c == '\u{A0}'
    ||| c == '\u{1680}'
    ||| '\u{2000}' <= c <= '\u{200A}'
    ||| c == '\u{2028}'
    ||| c == '\u{2029}'
    ||| c == '\u{202F}'
    ||| c == '\u{205F}'
    ||| c == '\u{3000}'
}

/// Whether `text` holds at least one character that is not white space.
pub open spec fn has_visible_char(text: Seq<char>) -> bool {
    exists|i: int| 0 <= i < text.len() && !is_whitespace(#[trigger] text[i])
}

/// Whether `c` is white space.
fn whitespace(c: char) -> (r: bool)
    ensures
        r == is_whitespace(c),
{
    ('\u{9}' <= c && c <= '\u{D}') || c == '\u{20}' || c == '\u{85}' || c == '\u{A0}' || c
        == '\u{1680}' || ('\u{2000}' <= c && c <= '\u{200A}') || c == '\u{2028}' || c
        == '\u{2029}' || c == '\u{202F}' || c == '\u{205F}' || c == '\u{3000}'
}

/// Whether `text` holds a character that is not white space.
fn visible(text: &str) -> (r: bool)
    ensures
        r == has_visible_char(text@),
{
    broadcast use vstd::string::group_string_axioms;

    let mut found = false;
    for c in it: text.chars()
        invariant
            it.seq() == text@,
            found == exists|i: int| 0 <= i < it.index() && !is_whitespace(#[trigger] text@[i]),
    {
        if !whitespace(c) {
            found = true;
        }
    }
    found
}

/// Whether `a` comes before `b` from position `at` on, given that they agree
/// before it: at the first position where they differ `a` has the smaller
/// character, or `a` ends there and `b` goes on.
pub open spec fn precedes_from(a: Seq<char>, b: Seq<char>, at: int) -> bool
    decreases b.len() - at,
{
    if at < 0 || at >= b.len() {
        false
    } else if at >= a.len() {
        true
    } else if a[at] != b[at] {
        a[at] < b[at]
    } else {
        precedes_from(a, b, at + 1)
    }
}

/// The order of identifiers: `a` comes strictly before `b`, character by
/// character.
pub open spec fn precedes(a: Seq<char>, b: Seq<char>) -> bool {
    precedes_from(a, b, 0)
}

proof fn lemma_precedes_from_irreflexive(a: Seq<char>, at: int)
    ensures
        !precedes_from(a, a, at),
    decreases a.len() - at,
{
    if 0 <= at < a.len() {
        lemma_precedes_from_irreflexive(a, at + 1);
    }
}

proof fn lemma_precedes_from_transitive(a: Seq<char>, b: Seq<char>, c: Seq<char>, at: int)
    requires
        precedes_from(a, b, at),
        precedes_from(b, c, at),
    ensures
        precedes_from(a, c, at),
    decreases c.len() - at,
{
    if at < a.len() && a[at] == b[at] && b[at] == c[at] {
        lemma_precedes_from_transitive(a, b, c, at + 1);
    }
}

proof fn lemma_precedes_from_connected(a: Seq<char>, b: Seq<char>, at: int)
    requires
        0 <= at,
        forall|i: int| 0 <= i < at && i < a.len() && i < b.len() ==> a[i] == b[i],
        at <= a.len(),
        at <= b.len(),
        !precedes_from(a, b, at),
        !precedes_from(b, a, at),
    ensures
        a == b,
    decreases a.len() - at,
{
    if at < a.len() && at < b.len() {
        lemma_precedes_from_connected(a, b, at + 1);
    } else {
        assert(a =~= b);
    }
}

/// No identifier comes before itself.
pub proof fn lemma_precedes_irreflexive(a: Seq<char>)
    ensures
        !precedes(a, a),
{
    lemma_precedes_from_irreflexive(a, 0);
}

/// The order of identifiers is transitive.
pub proof fn lemma_precedes_transitive(a: Seq<char>, b: Seq<char>, c: Seq<char>)
    requires
        precedes(a, b),
        precedes(b, c),
    ensures
        precedes(a, c),
{
    lemma_precedes_from_transitive(a, b, c, 0);
}

/// Of two different identifiers one comes before the other.
pub proof fn lemma_precedes_connected(a: Seq<char>, b: Seq<char>)
    requires
        a != b,
    ensures
        precedes(a, b) || precedes(b, a),
{
    if !precedes(a, b) && !precedes(b, a) {
        lemma_precedes_from_connected(a, b, 0);
    }
}

/// Asks `validator::ValidateLength::validate_length` whether `value` keeps to
/// an upper bound, with no lower bound and no exact length. For a string the
/// length it measures is the number of characters, and the answer is `true`
/// exactly when that number does not exceed `max`.
#[verifier::external_body]
fn length_at_most(value: &String, max: u64) -> (ok: bool)
    ensures
        ok == (value@.len() <= max),
{
    value.validate_length(None, Some(max), None)
}

/// Records one violated rule as `validator` does for a derived check:
/// `validator::ValidationError::new` with the rule's code, then the rule's
/// limit under the name `bound` and the offending value under the name
/// `subject`, each attached by `add_param`, and the whole filed under
/// `field` of a fresh set by `validator::ValidationErrors::add`. The result
/// is opaque here.
#[verifier::external_body]
fn violation(
    field: &'static str,
    code: &'static str,
    bound: &'static str,
    limit: u64,
    subject: &'static str,
    value: &String,
) -> (errors: ValidationErrors) {
    let mut error = ValidationError::new(code);
    error.add_param(Cow::from(bound), &limit);
    error.add_param(Cow::from(subject), value);
    let mut errors = ValidationErrors::new();
    errors.add(field, error);
    errors
}

/// The identifier of a task: text with at least one visible character.
#[derive(Debug, PartialEq, Eq)]
pub struct TaskId {
    value: String,
}

impl View for TaskId {
    type V = Seq<char>;

    closed spec fn view(&self) -> Seq<char> {
        self.value@
    }
}

impl Clone for TaskId {
    fn clone(&self) -> (r: Self)
        ensures
            r@ == self@,
    {
        proof {
            use_type_invariant(self);
        }
        TaskId { value: self.value.clone() }
    }
}

impl TaskId {
    /// The least number of visible characters an identifier may have.
    pub const MIN_VISIBLE: u64 = 1;

    /// The rule an identifier obeys: it is neither empty nor white space only.
    pub open spec fn valid(raw: Seq<char>) -> bool {
        has_visible_char(raw)
    }

    #[verifier::type_invariant]
    spec fn well_formed(self) -> bool {
        Self::valid(self.value@)
    }

    /// Checks the rule on `value`, and records the violation if there is one.
    fn validate(value: &String) -> (r: Result<(), ValidationErrors>)
        ensures
            r is Ok <==> Self::valid(value@),
    {
        if visible(value.as_str()) {
            Ok(())
        } else {
            Err(violation("value", "blank", "min", Self::MIN_VISIBLE, "value", value))
        }
    }

    /// Whether `r` is what making an identifier of `raw` must give: the
    /// identifier with that very text where it is valid, a validation failure
    /// where it is not.
    pub open spec fn made_of(raw: Seq<char>, r: Result<Self, DomainError>) -> bool {
        if Self::valid(raw) {
            r matches Ok(id) && id@ == raw
        } else {
            r matches Err(DomainError::Validation(_))
        }
    }

    /// Accepts `id` exactly when it is a valid identifier, and then keeps it
    /// unchanged; otherwise reports a validation failure.
    pub fn new(id: String) -> (r: Result<Self, DomainError>)
        ensures
            Self::made_of(id@, r),
    {
        match Self::validate(&id) {
            Ok(()) => Ok(TaskId { value: id }),
            Err(errors) => Err(DomainError::from(errors)),
        }
    }

    /// The text of the identifier, which is valid.
    pub fn as_str(&self) -> (r: &str)
        ensures
            r@ == self@,
            Self::valid(r@),
    {
        proof {
            use_type_invariant(self);
        }
        self.value.as_str()
    }

    /// The text of the identifier, owned.
    pub fn into_string(self) -> (r: String)
        ensures
            r@ == self@,
            Self::valid(r@),
    {
        proof {
            use_type_invariant(&self);
        }
        self.value
    }

    /// Whether this identifier comes strictly before `other`.
    pub fn precedes(&self, other: &TaskId) -> (r: bool)
        ensures
            r == precedes(self@, other@),
    {
        broadcast use vstd::string::group_string_axioms;

        let mut mine = self.value.as_str().chars();
        let mut theirs = other.value.as_str().chars();
        let ghost mut at: int = 0;
        loop
            invariant
                0 <= at <= self@.len(),
                at <= other@.len(),
                mine.remaining() == self@.subrange(at, self@.len() as int),
                theirs.remaining() == other@.subrange(at, other@.len() as int),
                precedes(self@, other@) == precedes_from(self@, other@, at),
            decreases self@.len() - at,
        {
            let theirs_next = theirs.next();
            let mine_next = mine.next();
            match theirs_next {
                None => {
                    return false;
                },
                Some(b) => match mine_next {
                    None => {
                        return true;
                    },
                    Some(a) => {
                        if a != b {
                            return a < b;
                        }
                    },
                },
            }
            proof {
                assert(self@.subrange(at, self@.len() as int).drop_first() =~= self@.subrange(
                    at + 1,
                    self@.len() as int,
                ));
                assert(other@.subrange(at, other@.len() as int).drop_first() =~= other@.subrange(
                    at + 1,
                    other@.len() as int,
                ));
                at = at + 1;
            }
        }
    }

    /// Whether this identifier is the same text as `other`.
    pub fn same(&self, other: &TaskId) -> (r: bool)
        ensures
            r == (self@ == other@),
    {
        self.value == other.value
    }
}

/// The free-text description of a task. Any text is a valid body.
#[derive(Debug, PartialEq, Eq)]
pub struct TaskBody {
    value: String,
}

impl View for TaskBody {
    type V = Seq<char>;

    closed spec fn view(&self) -> Seq<char> {
        self.value@
    }
}

impl Clone for TaskBody {
    fn clone(&self) -> (r: Self)
        ensures
            r@ == self@,
    {
        TaskBody { value: self.value.clone() }
    }
}

impl TaskBody {
    /// The rule a body obeys: none.
    pub open spec fn valid(raw: Seq<char>) -> bool {
        true
    }

    /// Whether `r` is what making a body of `raw` must give: the body with
    /// that very text.
    pub open spec fn made_of(raw: Seq<char>, r: Result<Self, DomainError>) -> bool {
        r matches Ok(body) && body@ == raw
    }

    /// Accepts every `body` and keeps it unchanged.
    pub fn new(body: String) -> (r: Result<Self, DomainError>)
        ensures
            Self::made_of(body@, r),
    {
        Ok(TaskBody { value: body })
    }

    /// The text of the body.
    pub fn as_str(&self) -> (r: &str)
        ensures
            r@ == self@,
    {
        self.value.as_str()
    }

    /// The text of the body, owned.
    pub fn into_string(self) -> (r: String)
        ensures
            r@ == self@,
    {
        self.value
    }
}

/// The status code of a task: text of at most two characters.
#[derive(Debug, PartialEq, Eq)]
pub struct TaskStatus {
    value: String,
}

impl View for TaskStatus {
    type V = Seq<char>;

    closed spec fn view(&self) -> Seq<char> {
        self.value@
    }
}

impl Clone for TaskStatus {
    fn clone(&self) -> (r: Self)
        ensures
            r@ == self@,
    {
        proof {
            use_type_invariant(self);
        }
        TaskStatus { value: self.value.clone() }
    }
}

impl TaskStatus {
    /// The greatest number of characters a status code may have.
    pub const MAX_LENGTH: u64 = 2;

    /// The rule a status code obeys.
    pub open spec fn valid(raw: Seq<char>) -> bool {
        raw.len() <= Self::MAX_LENGTH
    }

    #[verifier::type_invariant]
    spec fn well_formed(self) -> bool {
        Self::valid(self.value@)
    }

    /// Checks the rule on `value`, and records the violation if there is one.
    fn validate(value: &String) -> (r: Result<(), ValidationErrors>)
        ensures
            r is Ok <==> Self::valid(value@),
    {
        if length_at_most(value, Self::MAX_LENGTH) {
            Ok(())
        } else {
            Err(violation("value", "length", "max", Self::MAX_LENGTH, "value", value))
        }
    }

    /// Whether `r` is what making a status code of `raw` must give: the
    /// code with that very text where it is valid, a validation failure
    /// where it is not.
    pub open spec fn made_of(raw: Seq<char>, r: Result<Self, DomainError>) -> bool {
        if Self::valid(raw) {
            r matches Ok(status) && status@ == raw
        } else {
            r matches Err(DomainError::Validation(_))
        }
    }

    /// Accepts `status` exactly when it has at most two characters, and then
    /// keeps it unchanged; otherwise reports a validation failure.
    pub fn new(status: String) -> (r: Result<Self, DomainError>)
        ensures
            Self::made_of(status@, r),
    {
        match Self::validate(&status) {
            Ok(()) => Ok(TaskStatus { value: status }),
            Err(errors) => Err(DomainError::from(errors)),
        }
    }

    /// The text of the status code, which is valid.
    pub fn as_str(&self) -> (r: &str)
        ensures
            r@ == self@,
            Self::valid(r@),
    {
        proof {
            use_type_invariant(self);
        }
        self.value.as_str()
    }

    /// The text of the status code, owned.
    pub fn into_string(self) -> (r: String)
        ensures
            r@ == self@,
            Self::valid(r@),
    {
        proof {
            use_type_invariant(&self);
        }
        self.value
    }
}

/// What a task holds, as plain text.
pub ghost struct TaskView {
    pub id: Seq<char>,
    pub body: Seq<char>,
    pub status: Seq<char>,
}

impl TaskView {
    /// Whether every field obeys the rule of its value object.
    pub open spec fn valid(self) -> bool {
        TaskId::valid(self.id) && TaskBody::valid(self.body) && TaskStatus::valid(self.status)
    }
}

/// A task: an identifier with a description and a status code.
#[derive(Debug, PartialEq, Eq)]
pub struct Task {
    pub id: TaskId,
    pub body: TaskBody,
    pub status: TaskStatus,
}

impl View for Task {
    type V = TaskView;

    open spec fn view(&self) -> TaskView {
        TaskView { id: self.id@, body: self.body@, status: self.status@ }
    }
}

impl Clone for Task {
    fn clone(&self) -> (r: Self)
        ensures
            r@ == self@,
    {
        Task { id: self.id.clone(), body: self.body.clone(), status: self.status.clone() }
    }
}

impl Task {
    /// The task made of these parts, each of which is valid by its type.
    pub fn new(id: TaskId, body: TaskBody, status: TaskStatus) -> (r: Self)
        ensures
            r.id == id,
            r.body == body,
            r.status == status,
    {
        Self { id, body, status }
    }
}

/// A valid identifier is accepted, and the text read back from it is the
/// text it was made of. `back` stands for what `as_str` or `into_string`
/// returns for the identifier made.
pub proof fn law_id_round_trip(raw: Seq<char>, made: Result<TaskId, DomainError>, back: Seq<char>)
    requires
        TaskId::valid(raw),
        TaskId::made_of(raw, made),
        made matches Ok(id) ==> back == id@,
    ensures
        made is Ok,
        back == raw,
{
}

/// A status code of more than two characters is refused as invalid, and
/// one of at most two characters is accepted as it is.
pub proof fn law_status_length(raw: Seq<char>, made: Result<TaskStatus, DomainError>)
    requires
        TaskStatus::made_of(raw, made),
    ensures
        raw.len() > 2 ==> made is Err && made->Err_0 is Validation,
        raw.len() <= 2 ==> made is Ok && made->Ok_0@ == raw,
{
}

} // verus!

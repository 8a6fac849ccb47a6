//! Identifier and payload validation: UUID syntax, calendar dates, and the
//! length-capped wrappers that guard free-form request fields.

use vstd::prelude::*;

verus! {

/// Why a request value was rejected before touching the store.
#[derive(PartialEq, Eq, Structural, Clone, Copy, Debug)]
pub enum ValidationError {
    InvalidUuid,
    InvalidDate,
    TooLong,
    TooMany,
}

pub open spec fn is_hex_digit(c: char) -> bool {
    ('0' <= c && c <= '9') || ('a' <= c && c <= 'f') || ('A' <= c && c <= 'F')
}

/// What may stand at position `i` of a version-4 UUID: hyphens at the four
/// fixed offsets, the version nibble `4`, a variant digit, hex elsewhere.
pub open spec fn uuid_char_ok(i: int, c: char) -> bool {
    if i == 8 || i == 13 || i == 18 || i == 23 {
        c == '-'
    } else if i == 14 {
        c == '4'
    } else if i == 19 {
        c == '8' || c == '9' || c == 'a' || c == 'b' || c == 'A' || c == 'B'
    } else {
        is_hex_digit(c)
    }
}

pub open spec fn spec_is_uuid(s: Seq<char>) -> bool {
    s.len() == 36 && forall|i: int| 0 <= i < 36 ==> uuid_char_ok(i, #[trigger] s[i])
}

fn is_hex_digit_exec(c: char) -> (r: bool)
    ensures
        r == is_hex_digit(c),
{
    ('0' <= c && c <= '9') || ('a' <= c && c <= 'f') || ('A' <= c && c <= 'F')
}

/// Checks whether a string is a well-formed version-4 UUID.
pub fn is_uuid(id: &str) -> (r: bool)
    ensures
        r == spec_is_uuid(id@),
{
    if id.unicode_len() != 36 {
        return false;
    }
    let mut i: usize = 0;
    while i < 36
        invariant
            id@.len() == 36,
            i <= 36,
            forall|j: int| 0 <= j < i ==> uuid_char_ok(j, #[trigger] id@[j]),
        decreases 36 - i,
    {
        let c = id.get_char(i);
        if i == 8 || i == 13 || i == 18 || i == 23 {
            if c != '-' {
                return false;
            }
        } else if i == 14 {
            if c != '4' {
                return false;
            }
        } else if i == 19 {
            if !(c == '8' || c == '9' || c == 'a' || c == 'b' || c == 'A' || c == 'B') {
                return false;
            }
        } else {
            if !is_hex_digit_exec(c) {
                return false;
            }
        }
        i = i + 1;
    }
    true
}

/// Rejects a string that is not a well-formed UUID.
pub fn validate_uuid(id: &str) -> (r: Result<(), ValidationError>)
    ensures
        r is Ok <==> spec_is_uuid(id@),
        r is Err ==> r->Err_0 == ValidationError::InvalidUuid,
{
    if is_uuid(id) {
        Ok(())
    } else {
        Err(ValidationError::InvalidUuid)
    }
}

/// Whether a string parses as a date under a chrono format string. The
/// outcome is a function of the two strings alone.
pub uninterp spec fn chrono_parses(fmt: Seq<char>, s: Seq<char>) -> bool;

/// Relies on chrono::NaiveDate::parse_from_str to decide whether a string
/// parses under a format.
#[verifier::external_body]
fn date_parses(s: &str, fmt: &str) -> (r: bool)
    ensures
        r == chrono_parses(fmt@, s@),
{
    chrono::NaiveDate::parse_from_str(s, fmt).is_ok()
}

/// A string that names a calendar date in ISO 8601 (`%F`).
pub open spec fn is_calendar_date(s: Seq<char>) -> bool {
    chrono_parses("%F"@, s)
}

/// A string that names a second-precision UTC timestamp (`%FT%TZ`).
pub open spec fn is_timestamp(s: Seq<char>) -> bool {
    chrono_parses("%FT%TZ"@, s)
}

/// Checks whether a string names a calendar date.
pub fn is_date(date: &str) -> (r: bool)
    ensures
        r == is_calendar_date(date@),
{
    date_parses(date, "%F")
}

/// Checks whether a string names a second-precision UTC timestamp.
pub fn is_datetime(s: &str) -> (r: bool)
    ensures
        r == is_timestamp(s@),
{
    date_parses(s, "%FT%TZ")
}

/// Rejects a string that does not name a calendar date.
pub fn validate_date(date: &str) -> (r: Result<(), ValidationError>)
    ensures
        r is Ok <==> is_calendar_date(date@),
        r is Err ==> r->Err_0 == ValidationError::InvalidDate,
{
    if is_date(date) {
        Ok(())
    } else {
        Err(ValidationError::InvalidDate)
    }
}

/// A string known to be a well-formed UUID.
pub struct Uuid(pub String);

impl Uuid {
    pub open spec fn wf(&self) -> bool {
        spec_is_uuid(self.0@)
    }

    /// Accepts a string only if it is a well-formed UUID.
    pub fn new(s: String) -> (r: Result<Uuid, ValidationError>)
        ensures
            r is Ok <==> spec_is_uuid(s@),
            r is Ok ==> r->Ok_0.0@ == s@ && r->Ok_0.wf(),
            r is Err ==> r->Err_0 == ValidationError::InvalidUuid,
    {
        if is_uuid(s.as_str()) {
            Ok(Uuid(s))
        } else {
            Err(ValidationError::InvalidUuid)
        }
    }
}

/// A string whose length is capped at `N` characters.
pub struct MaxLenStr<const N: usize>(pub String);

impl<const N: usize> MaxLenStr<N> {
    pub open spec fn wf(&self) -> bool {
        self.0@.len() <= N
    }

    /// Accepts a string only if it is within the length cap.
    pub fn new(s: String) -> (r: Result<MaxLenStr<N>, ValidationError>)
        ensures
            r is Ok <==> s@.len() <= N,
            r is Ok ==> r->Ok_0.0@ == s@ && r->Ok_0.wf(),
            r is Err ==> r->Err_0 == ValidationError::TooLong,
    {
        if s.as_str().unicode_len() <= N {
            Ok(MaxLenStr(s))
        } else {
            Err(ValidationError::TooLong)
        }
    }
}

/// A vector whose length is capped at `N` items.
pub struct MaxLenVec<T, const N: usize>(pub Vec<T>);

impl<T, const N: usize> MaxLenVec<T, N> {
    pub open spec fn wf(&self) -> bool {
        self.0@.len() <= N
    }

    /// Accepts a vector only if it is within the length cap.
    pub fn new(v: Vec<T>) -> (r: Result<MaxLenVec<T, N>, ValidationError>)
        ensures
            r is Ok <==> v@.len() <= N,
            r is Ok ==> r->Ok_0.0@ == v@ && r->Ok_0.wf(),
            r is Err ==> r->Err_0 == ValidationError::TooMany,
    {
        if v.len() <= N {
            Ok(MaxLenVec(v))
        } else {
            Err(ValidationError::TooMany)
        }
    }
}

} // verus!

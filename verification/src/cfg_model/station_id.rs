use std::convert::TryFrom;
use std::str::FromStr;

use vstd::prelude::*;
use vstd::std_specs::convert::TryFromSpecImpl;

verus! {

/// Whether `c` may appear in a station identifier: an ASCII letter, an ASCII
/// digit, or an underscore.
pub open spec fn is_valid_id_char(c: char) -> bool {
    ||| ('a' <= c && c <= 'z')
    ||| ('A' <= c && c <= 'Z')
    ||| ('0' <= c && c <= '9')
    ||| c == '_'
}

/// Whether every character of `s` may appear in a station identifier.
pub open spec fn is_valid_id_spec(s: Seq<char>) -> bool {
    forall|i: int| 0 <= i < s.len() ==> is_valid_id_char(#[trigger] s[i])
}

/// Which identifiers are valid: exactly those whose every character is an
/// ASCII lowercase letter, an ASCII uppercase letter, an ASCII digit or an
/// underscore. In particular each of these characters alone is a valid
/// identifier, every other character alone is not, and the empty identifier
/// is valid.
pub proof fn lemma_valid_id_chars(s: Seq<char>)
    ensures
        is_valid_id_spec(s) <==> forall|i: int|
            0 <= i < s.len() ==> {
                let c = #[trigger] s[i];
                ||| 'a' <= c <= 'z'
                ||| 'A' <= c <= 'Z'
                ||| '0' <= c <= '9'
                ||| c == '_'
            },
        forall|c: char|
            #![trigger seq![c]]
            is_valid_id_spec(seq![c]) <==> ('a' <= c <= 'z' || 'A' <= c <= 'Z' || '0' <= c <= '9'
                || c == '_'),
        is_valid_id_spec(Seq::<char>::empty()),
{
    assert forall|c: char|
        #![trigger seq![c]]
        is_valid_id_spec(seq![c]) <==> ('a' <= c <= 'z' || 'A' <= c <= 'Z' || '0' <= c <= '9' || c
            == '_') by {
        assert(seq![c][0] == c);
    }
}

/// The message that describes an invalid station identifier `s`.
pub open spec fn invalid_fmt_message(s: Seq<char>) -> Seq<char> {
    "`"@ + s
        + "` is not a valid station ID. Station IDs can only contain letters, numbers, and underscores."@
}

/// Unique identifier for a station.
///
/// Can only contain ASCII letters, numbers, and underscores.
#[derive(Debug, PartialEq, Eq)]
pub struct StationId(String);

/// Error returned when a string is not a valid station identifier.
#[derive(Debug, PartialEq, Eq)]
pub struct StationIdInvalidFmt {
    value: String,
}

impl StationId {
    /// The characters of this identifier.
    pub closed spec fn view(&self) -> Seq<char> {
        self.0@
    }

    /// A station identifier holds only valid characters.
    #[verifier::type_invariant]
    spec fn inv(self) -> bool {
        is_valid_id_spec(self.0@)
    }

    /// Returns whether the provided `&str` is a valid station identifier.
    pub fn is_valid_id(s: &str) -> (valid: bool)
        ensures
            valid == is_valid_id_spec(s@),
    {
        let mut valid = true;
        for c in it: s.chars()
            invariant
                valid == (forall|j: int|
                    0 <= j < it.index() ==> is_valid_id_char(#[trigger] it.seq()[j])),
        {
            let ok = ('a' <= c && c <= 'z') || ('A' <= c && c <= 'Z') || ('0' <= c && c <= '9')
                || c == '_';
            valid = valid && ok;
        }
        valid
    }

    /// Returns a `StationId` if the given `&str` is valid.
    pub fn new(s: &'static str) -> (res: Result<Self, StationIdInvalidFmt>)
        ensures
            res is Ok <==> is_valid_id_spec(s@),
            res matches Ok(id) ==> id@ == s@,
            res matches Err(e) ==> e@ == s@,
    {
        Self::from_string(s.to_owned())
    }

    /// Returns a `StationId` if the given `String` is valid.
    pub fn from_string(s: String) -> (res: Result<Self, StationIdInvalidFmt>)
        ensures
            res is Ok <==> is_valid_id_spec(s@),
            res matches Ok(id) ==> id@ == s@,
            res matches Err(e) ==> e@ == s@,
    {
        if Self::is_valid_id(s.as_str()) {
            Ok(StationId(s))
        } else {
            Err(StationIdInvalidFmt::new(s))
        }
    }

    /// Returns whether this identifier and `other` hold the same characters.
    pub fn same_as(&self, other: &StationId) -> (same: bool)
        ensures
            same == (self@ == other@),
    {
        self.0 == other.0
    }

    /// Returns the identifier as a string slice.
    pub fn as_str(&self) -> (r: &str)
        ensures
            r@ == self@,
            is_valid_id_spec(r@),
    {
        proof {
            use_type_invariant(self);
        }
        self.0.as_str()
    }

    /// Returns the identifier as text, as its `Display` form shows it.
    pub fn to_string(&self) -> (r: String)
        ensures
            r@ == self@,
    {
        self.0.clone()
    }
}

impl StationIdInvalidFmt {
    /// The string that was not a valid identifier.
    pub closed spec fn view(&self) -> Seq<char> {
        self.value@
    }

    /// Returns a new error for the given invalid identifier.
    pub fn new(value: String) -> (e: Self)
        ensures
            e@ == value@,
    {
        StationIdInvalidFmt { value }
    }

    /// Returns the string that was not a valid identifier.
    pub fn value(&self) -> (r: &str)
        ensures
            r@ == self@,
    {
        self.value.as_str()
    }

    /// Returns the readable message of this error, as its `Display` form shows it.
    pub fn to_string(&self) -> (r: String)
        ensures
            r@ == invalid_fmt_message(self@),
    {
        let mut r = "`".to_owned();
        r.append(self.value.as_str());
        r.append(
            "` is not a valid station ID. Station IDs can only contain letters, numbers, and underscores.",
        );
        proof {
            reveal_strlit("`");
            reveal_strlit(
                "` is not a valid station ID. Station IDs can only contain letters, numbers, and underscores.",
            );
        }
        r
    }
}

impl Clone for StationId {
    fn clone(&self) -> (r: Self)
        ensures
            r == *self,
    {
        proof {
            use_type_invariant(self);
        }
        StationId(self.0.clone())
    }
}

impl std::ops::Deref for StationId {
    type Target = String;

    fn deref(&self) -> (r: &String)
        ensures
            r@ == self@,
    {
        &self.0
    }
}

impl TryFrom<String> for StationId {
    type Error = StationIdInvalidFmt;

    fn try_from(s: String) -> (res: Result<StationId, StationIdInvalidFmt>)
        ensures
            res is Ok <==> is_valid_id_spec(s@),
            res matches Ok(id) ==> id@ == s@,
            res matches Err(e) ==> e@ == s@,
    {
        if Self::is_valid_id(s.as_str()) {
            Ok(StationId(s))
        } else {
            Err(StationIdInvalidFmt { value: s })
        }
    }
}

impl TryFrom<&'static str> for StationId {
    type Error = StationIdInvalidFmt;

    fn try_from(s: &'static str) -> (res: Result<StationId, StationIdInvalidFmt>)
        ensures
            res is Ok <==> is_valid_id_spec(s@),
            res matches Ok(id) ==> id@ == s@,
            res matches Err(e) ==> e@ == s@,
    {
        Self::from_string(s.to_owned())
    }
}

impl TryFromSpecImpl<&'static str> for StationId {
    open spec fn obeys_try_from_spec() -> bool {
        false
    }

    open spec fn try_from_spec(v: &'static str) -> Result<Self, StationIdInvalidFmt> {
        arbitrary()
    }
}

impl FromStr for StationId {
    type Err = StationIdInvalidFmt;

    fn from_str(s: &str) -> (res: Result<StationId, StationIdInvalidFmt>)
        ensures
            res is Ok <==> is_valid_id_spec(s@),
            res matches Ok(id) ==> id@ == s@,
            res matches Err(e) ==> e@ == s@,
    {
        Self::from_string(s.to_owned())
    }
}

impl TryFromSpecImpl<String> for StationId {
    open spec fn obeys_try_from_spec() -> bool {
        true
    }

    closed spec fn try_from_spec(v: String) -> Result<Self, StationIdInvalidFmt> {
        if is_valid_id_spec(v@) {
            Ok(StationId(v))
        } else {
            Err(StationIdInvalidFmt { value: v })
        }
    }
}

} // verus!

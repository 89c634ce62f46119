//! Validated remote names and remote ids.
use vstd::prelude::*;
use vstd::string::StrSliceExecFns;

use crate::error::ClubError;

verus! {

/// Number of characters in every remote id.
pub const REMOTE_ID_LEN: usize = 57;

/// Letters, digits, hyphen and underscore.
pub open spec fn is_remote_char(c: char) -> bool {
    ('a' <= c && c <= 'z') || ('A' <= c && c <= 'Z') || ('0' <= c && c <= '9') || c == '-'
        || c == '_'
}

pub open spec fn all_remote_chars(s: Seq<char>) -> bool {
    forall|i: int| 0 <= i < s.len() ==> #[trigger] is_remote_char(s[i])
}

/// A remote name: non-empty, made of letters, digits, hyphens and underscores.
pub open spec fn valid_name(s: Seq<char>) -> bool {
    s.len() > 0 && all_remote_chars(s)
}

/// A remote id: exactly `REMOTE_ID_LEN` letters, digits, hyphens and underscores.
pub open spec fn valid_id(s: Seq<char>) -> bool {
    s.len() == REMOTE_ID_LEN && all_remote_chars(s)
}

fn remote_char(c: char) -> (r: bool)
    ensures
        r == is_remote_char(c),
{
    ('a' <= c && c <= 'z') || ('A' <= c && c <= 'Z') || ('0' <= c && c <= '9') || c == '-'
        || c == '_'
}

/// Whether every character of `s` may appear in a remote name or id.
pub fn only_remote_chars(s: &str) -> (r: bool)
    ensures
        r == all_remote_chars(s@),
{
    let n = s.unicode_len();
    let mut i: usize = 0;
    while i < n
        invariant
            n == s@.len(),
            i <= n,
            all_remote_chars(s@.subrange(0, i as int)),
        decreases n - i,
    {
        let c = s.get_char(i);
        if !remote_char(c) {
            return false;
        }
        assert(s@.subrange(0, i + 1) =~= s@.subrange(0, i as int).push(c));
        i = i + 1;
    }
    assert(s@.subrange(0, n as int) =~= s@);
    true
}

/// Whether `s` is a well-formed remote name.
pub fn is_valid_name(s: &str) -> (r: bool)
    ensures
        r == valid_name(s@),
{
    let n = s.unicode_len();
    n > 0 && only_remote_chars(s)
}

/// Whether `s` is a well-formed remote id.
pub fn is_valid_id(s: &str) -> (r: bool)
    ensures
        r == valid_id(s@),
{
    let n = s.unicode_len();
    n == REMOTE_ID_LEN && only_remote_chars(s)
}

/// The name of a remote; only a valid name can be held.
#[derive(Debug)]
pub struct RemoteName {
    name: String,
}

impl RemoteName {
    #[verifier::type_invariant]
    spec fn inv(self) -> bool {
        valid_name(self.name@)
    }

    pub closed spec fn view(&self) -> Seq<char> {
        self.name@
    }

    /// Validates `value` as a remote name.
    pub fn try_from(value: String) -> (r: Result<RemoteName, ClubError>)
        ensures
            valid_name(value@) <==> r is Ok,
            r matches Ok(n) ==> n@ == value@,
            r matches Err(e) ==> e == ClubError::InvalidRemoteName,
    {
        if is_valid_name(value.as_str()) {
            Ok(RemoteName { name: value })
        } else {
            Err(ClubError::InvalidRemoteName)
        }
    }

    pub fn as_str(&self) -> (r: &str)
        ensures
            r@ == self@,
            valid_name(r@),
    {
        proof {
            use_type_invariant(self);
        }
        self.name.as_str()
    }

    /// Wraps a string already known to be valid.
    pub fn from_checked(value: String) -> (r: RemoteName)
        requires
            valid_name(value@),
        ensures
            r@ == value@,
    {
        RemoteName { name: value }
    }

    /// The name as an owned string.
    pub fn to_string(&self) -> (r: String)
        ensures
            r@ == self@,
            valid_name(r@),
    {
        proof {
            use_type_invariant(self);
        }
        self.name.clone()
    }
}

/// The id of a remote; only a valid id can be held.
#[derive(Debug)]
pub struct RemoteId {
    id: String,
}

impl RemoteId {
    #[verifier::type_invariant]
    spec fn inv(self) -> bool {
        valid_id(self.id@)
    }

    pub closed spec fn view(&self) -> Seq<char> {
        self.id@
    }

    /// Validates `value` as a remote id.
    pub fn try_from(value: String) -> (r: Result<RemoteId, ClubError>)
        ensures
            valid_id(value@) <==> r is Ok,
            r matches Ok(n) ==> n@ == value@,
            r matches Err(e) ==> e == ClubError::InvalidRemoteId,
    {
        if is_valid_id(value.as_str()) {
            Ok(RemoteId { id: value })
        } else {
            Err(ClubError::InvalidRemoteId)
        }
    }

    pub fn as_str(&self) -> (r: &str)
        ensures
            r@ == self@,
            valid_id(r@),
    {
        proof {
            use_type_invariant(self);
        }
        self.id.as_str()
    }

    /// Wraps a string already known to be valid.
    pub fn from_checked(value: String) -> (r: RemoteId)
        requires
            valid_id(value@),
        ensures
            r@ == value@,
    {
        RemoteId { id: value }
    }

    /// The id as an owned string.
    pub fn to_string(&self) -> (r: String)
        ensures
            r@ == self@,
            valid_id(r@),
    {
        proof {
            use_type_invariant(self);
        }
        self.id.clone()
    }
}

} // verus!

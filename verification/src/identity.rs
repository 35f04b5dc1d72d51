//! Identity verification: bearer-credential framing and the audience
//! allow-list.
//!
//! The caller's credential arrives as an optional `Bearer `-framed header
//! value. Checking the credential's signature and expiry against the issuer
//! is the transport collaborator's work; it reports its verdict as the
//! decoded claims, or nothing for an unverifiable credential. The library
//! verifies the framing and admits the claims only when their audience is on
//! the configured allow-list. All three failures look alike to the caller.

use vstd::prelude::*;

verus! {

/// The (subject, audience) pair asserted by a verified credential.
#[derive(Clone, Debug)]
pub struct Identity {
    pub user_id: String,
    pub audience: String,
}

/// The token inside a `Bearer `-framed header value, or `None` when the
/// framing is absent or the token empty.
pub open spec fn bearer_token(h: Seq<char>) -> Option<Seq<char>> {
    if h.len() > 7 && h[0] == 'B' && h[1] == 'e' && h[2] == 'a' && h[3] == 'r' && h[4] == 'e'
        && h[5] == 'r' && h[6] == ' ' {
        Some(h.subrange(7, h.len() as int))
    } else {
        None
    }
}

/// Whether `aud` is one of the configured audiences.
pub open spec fn audience_allowed(projects: Seq<String>, aud: Seq<char>) -> bool {
    exists|i: int| 0 <= i < projects.len() && projects[i]@ == aud
}

/// Whether a request's credential passes all identity checks: present,
/// well-framed, verified by the issuer, and of a recognized audience.
pub open spec fn auth_ok(
    projects: Seq<String>,
    header: Option<String>,
    verdict: Option<Identity>,
) -> bool {
    &&& header matches Some(h) && bearer_token(h@) is Some
    &&& verdict matches Some(c) && audience_allowed(projects, c.audience@)
}

/// Extracts the token from a `Bearer `-framed header value.
pub fn parse_bearer(header: &Option<String>) -> (r: Option<String>)
    ensures
        match *header {
            None => r is None,
            Some(h) => match bearer_token(h@) {
                None => r is None,
                Some(t) => r matches Some(s) && s@ == t,
            },
        },
{
    match header {
        None => None,
        Some(h) => {
            let hs = h.as_str();
            let n = hs.unicode_len();
            if n > 7 && hs.get_char(0) == 'B' && hs.get_char(1) == 'e' && hs.get_char(2) == 'a'
                && hs.get_char(3) == 'r' && hs.get_char(4) == 'e' && hs.get_char(5) == 'r'
                && hs.get_char(6) == ' ' {
                let tok = hs.substring_char(7, n);
                Some(String::from_str(tok))
            } else {
                None
            }
        },
    }
}

/// Admits the issuer's verdict only when its audience is allowed.
pub fn admit_identity(projects: &Vec<String>, verdict: &Option<Identity>) -> (r: bool)
    ensures
        r == (verdict matches Some(c) && audience_allowed(projects@, c.audience@)),
{
    match verdict {
        None => false,
        Some(c) => {
            let mut i: usize = 0;
            while i < projects.len()
                invariant
                    i <= projects.len(),
                    *verdict == Some(*c),
                    forall|j: int| 0 <= j < i ==> projects@[j]@ != c.audience@,
                decreases projects.len() - i,
            {
                if projects[i] == c.audience {
                    proof {
                        assert(audience_allowed(projects@, c.audience@)) by {
                            assert(0 <= (i as int) && (i as int) < projects@.len() && projects@[
                                i as int
                            ]@ == c.audience@);
                        }
                    }
                    return true;
                }
                i = i + 1;
            }
            false
        },
    }
}

/// Runs the full identity check: framing, issuer verdict, audience.
pub fn verify_identity(
    projects: &Vec<String>,
    header: &Option<String>,
    verdict: &Option<Identity>,
) -> (r: bool)
    ensures
        r == auth_ok(projects@, *header, *verdict),
{
    match parse_bearer(header) {
        None => false,
        Some(_) => admit_identity(projects, verdict),
    }
}

} // verus!

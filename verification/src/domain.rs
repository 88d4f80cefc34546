//! The validated subscriber-email domain type.
//!
//! A `SubscriberEmail` can only be built through [`SubscriberEmail::parse`],
//! which runs a standards-based email-format check; every value of the type
//! therefore wraps a string that passed that check.

use vstd::prelude::*;

verus! {

/// The verdict of the email-format check on a string: a function of the
/// characters alone.
pub uninterp spec fn is_valid_email(s: Seq<char>) -> bool;

/// Index of the last `'@'` in `s`, or `-1` if there is none.
pub open spec fn last_at_sign(s: Seq<char>) -> int
    decreases s.len(),
{
    if s.len() == 0 {
        -1
    } else if s[s.len() - 1] == '@' {
        s.len() - 1
    } else {
        last_at_sign(s.drop_last())
    }
}

/// Relies on the validator crate's `ValidateEmail` impl for `&str`, an
/// HTML5-style email-format check: the verdict depends on the characters
/// alone, and a string that is empty, has no `'@'`, has an empty local part
/// (nothing before the last `'@'`) or an empty domain (nothing after the
/// last `'@'`) is always rejected.
#[verifier::external_body]
fn email_format_check(s: &str) -> (r: bool)
    ensures
        r == is_valid_email(s@),
        s@.len() == 0 ==> !r,
        last_at_sign(s@) == -1 ==> !r,
        last_at_sign(s@) == 0 ==> !r,
        last_at_sign(s@) == s@.len() - 1 ==> !r,
{
    validator::ValidateEmail::validate_email(&s)
}

/// An email address that passed the format check at construction time.
///
/// The wrapped string is never mutated; the only constructor is
/// [`SubscriberEmail::parse`].
#[derive(Debug)]
pub struct SubscriberEmail {
    address: String,
}

impl View for SubscriberEmail {
    type V = Seq<char>;

    closed spec fn view(&self) -> Seq<char> {
        self.address@
    }
}

impl SubscriberEmail {
    /// Every value of this type wraps an address the format check accepted.
    #[verifier::type_invariant]
    closed spec fn well_formed(self) -> bool {
        is_valid_email(self.address@)
    }

    /// Wrap `s` if it passes the email-format check; otherwise report why.
    ///
    /// Strings without an `'@'`, with an empty local part or with an empty
    /// domain are always rejected.
    pub fn parse(s: String) -> (r: Result<SubscriberEmail, String>)
        ensures
            r is Ok <==> is_valid_email(s@),
            r matches Ok(e) ==> e@ == s@,
            r matches Err(m) ==> m@ == s@ + " is not a valid subscriber email."@,
            last_at_sign(s@) == -1 ==> r is Err,
            last_at_sign(s@) == 0 ==> r is Err,
            last_at_sign(s@) == s@.len() - 1 ==> r is Err,
    {
        if email_format_check(s.as_str()) {
            Ok(SubscriberEmail { address: s })
        } else {
            Err(s.concat(" is not a valid subscriber email."))
        }
    }

    /// Read-only view of the wrapped address.
    ///
    /// No construction path bypasses the check, so what comes out here was
    /// accepted by the email-format check.
    pub fn as_ref(&self) -> (r: &str)
        ensures
            r@ == self@,
            is_valid_email(self@),
    {
        proof {
            use_type_invariant(self);
        }
        self.address.as_str()
    }
}

} // verus!

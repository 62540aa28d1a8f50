//! The decision of the voting service: a vote on a URL is confirmed or refused.

use vstd::prelude::*;

use crate::diagnostics::Error;
use crate::text::concat_str;

verus! {

/// The vote code of an upvote.
pub const UPVOTE: i32 = 0;
/// The vote code of a downvote.
pub const DOWNVOTE: i32 = 1;

/// What a refused vote is answered with.
pub const INVALID_VOTE: &'static str = "Invalid vote provided";

/// The confirmation of a vote, or `None` for an unknown vote code.
pub open spec fn confirmation_of(vote: i32, url: Seq<char>) -> Option<Seq<char>> {
    if vote == UPVOTE {
        Some("Happy to confirm that you upvoted for "@ + url)
    } else if vote == DOWNVOTE {
        Some("Confirmation that you downvoted for "@ + url)
    } else {
        None
    }
}

/// Confirms a vote on `url`; a vote code other than up or down is refused.
pub fn vote_confirmation(vote: i32, url: &str) -> (r: Result<String, Error>)
    ensures
        match confirmation_of(vote, url@) {
            Some(text) => r is Ok && r->Ok_0@ == text,
            None => r is Err && r->Err_0 is Validation && r->Err_0->Validation_0@ == INVALID_VOTE@,
        },
{
    if vote == UPVOTE {
        Ok(concat_str("Happy to confirm that you upvoted for ".to_owned(), url))
    } else if vote == DOWNVOTE {
        Ok(concat_str("Confirmation that you downvoted for ".to_owned(), url))
    } else {
        Err(Error::Validation(INVALID_VOTE.to_owned()))
    }
}

} // verus!

//! The compute side of the submission handler: drawing a fresh random token
//! and inserting the submitted paste under it.

use vstd::prelude::*;

use crate::db::{Database, PasteRecord};
use crate::errors::StoreError;

verus! {

/// A submitted form: the two fields a user fills in.
pub struct FormData {
    pub title: String,
    pub content: String,
}

/// The length of every issued token.
pub const TOKEN_LEN: usize = 10;

/// A character a token may consist of: ASCII alphanumeric.
pub open spec fn is_token_char(c: char) -> bool {
    ('a' <= c && c <= 'z') || ('A' <= c && c <= 'Z') || ('0' <= c && c <= '9')
}

/// A well-formed token: exactly `TOKEN_LEN` ASCII alphanumeric characters.
pub open spec fn is_token(s: Seq<char>) -> bool {
    s.len() == TOKEN_LEN && forall|i: int| 0 <= i < s.len() ==> is_token_char(#[trigger] s[i])
}

/// Relies on rand's `Alphanumeric` distribution: every sampled value is one
/// of the 62 ASCII alphanumeric characters (a-z, A-Z, 0-9), so collecting
/// `len` of them yields a string of `len` such characters. Nothing is assumed
/// about which characters come out.
#[verifier::external_body]
fn sample_alphanumeric(len: usize) -> (r: String)
    ensures
        r@.len() == len as int,
        forall|i: int| 0 <= i < r@.len() ==> is_token_char(#[trigger] r@[i]),
{
    rand::Rng::sample_iter(rand::thread_rng(), &rand::distributions::Alphanumeric)
        .take(len)
        .map(char::from)
        .collect()
}

/// Handles one submission: draws a fresh random token and stores the form's
/// title and content under it, stamped with the given creation time.
///
/// On success the returned token is a well-formed, previously unused token,
/// and the store gains exactly that one paste. When the drawn token collides
/// with an existing one the submission fails with `Conflict` and the store is
/// left untouched, as the caller's signal to retry the request.
pub fn submit(db: &mut Database, form: &FormData, created_at: u64) -> (r: Result<
    String,
    StoreError,
>)
    requires
        old(db).wf(),
    ensures
        final(db).wf(),
        match r {
            Ok(token) => {
                &&& is_token(token@)
                &&& !old(db)@.contains_key(token@)
                &&& final(db)@ == old(db)@.insert(
                    token@,
                    PasteRecord {
                        id: old(db).next_id(),
                        title: form.title@,
                        content: form.content@,
                        created_at: created_at,
                    },
                )
            },
            Err(e) => {
                &&& e == StoreError::Conflict
                &&& *final(db) == *old(db)
                &&& exists|t: Seq<char>| is_token(t) && old(db)@.contains_key(t)
            },
        },
{
    let token = sample_alphanumeric(TOKEN_LEN);
    match db.insert_paste(token.as_str(), form.title.as_str(), form.content.as_str(), created_at) {
        Ok(()) => Ok(token),
        Err(e) => {
            proof {
                assert(is_token(token@) && old(db)@.contains_key(token@));
            }
            Err(e)
        },
    }
}

} // verus!

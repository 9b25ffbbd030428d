//! The account client registry: a mapping from an owning user's id to
//! the handle of the authorized platform client built for that user.
//!
//! The clients themselves are opaque handles held outside the library;
//! the registry owns the keying rule: one entry per known user keyed by
//! the stringified user id, or a single fallback entry under a sentinel
//! key when no users are configured.

use vstd::prelude::*;
use vstd::string::*;
use crate::errors::UploaderError;
use crate::models::VideosModel;
use crate::text::{int_chars, i32_to_string, str_eq};

verus! {

/// Maps a stringified user id to the index of that user's authorized
/// client in the caller's client list.
pub struct ClientRegistry {
    pub entries: Vec<(String, usize)>,
}

/// The first entry with the given key, scanning in order.
pub open spec fn lookup_key(entries: Seq<(String, usize)>, key: Seq<char>) -> Option<usize>
    decreases entries.len(),
{
    if entries.len() == 0 {
        None
    } else if entries[0].0@ == key {
        Some(entries[0].1)
    } else {
        lookup_key(entries.drop_first(), key)
    }
}

impl ClientRegistry {
    /// Builds the registry for the known users, one client handle per
    /// user in order; with no users at all, a single fallback handle is
    /// registered under the sentinel key.
    pub fn build(user_ids: &Vec<i32>) -> (r: ClientRegistry)
        ensures
            user_ids@.len() > 0 ==> {
                &&& r.entries@.len() == user_ids@.len()
                &&& forall|i: int|
                    0 <= i < user_ids@.len() ==> r.entries@[i].0@ == int_chars(
                        user_ids@[i] as int,
                    ) && r.entries@[i].1 == i
            },
            user_ids@.len() == 0 ==> {
                &&& r.entries@.len() == 1
                &&& r.entries@[0].0@ == "unknown"@
                &&& r.entries@[0].1 == 0
            },
    {
        let mut entries: Vec<(String, usize)> = Vec::new();
        let mut i: usize = 0;
        while i < user_ids.len()
            invariant
                i <= user_ids@.len(),
                entries@.len() == i,
                forall|j: int|
                    0 <= j < i ==> entries@[j].0@ == int_chars(user_ids@[j] as int)
                        && entries@[j].1 == j,
            decreases user_ids@.len() - i,
        {
            entries.push((i32_to_string(user_ids[i]), i));
            i = i + 1;
        }
        if entries.len() == 0 {
            entries.push((String::from_str("unknown"), 0));
        }
        ClientRegistry { entries }
    }

    /// Resolves the client handle for a video's owning user; a user with
    /// no registered client is a hard per-video error.
    pub fn get_client_for_video(&self, video: &VideosModel) -> (r: Result<usize, UploaderError>)
        ensures
            r == match lookup_key(self.entries@, int_chars(video.user_id as int)) {
                Some(idx) => Ok::<usize, UploaderError>(idx),
                None => Err::<usize, UploaderError>(UploaderError::NoClient(video.user_id)),
            },
    {
        let key = i32_to_string(video.user_id);
        let ghost goal = lookup_key(self.entries@, key@);
        let mut j: usize = 0;
        proof {
            assert(self.entries@.skip(0) =~= self.entries@);
        }
        while j < self.entries.len()
            invariant
                j <= self.entries@.len(),
                key@ == int_chars(video.user_id as int),
                goal == lookup_key(self.entries@, key@),
                goal == lookup_key(self.entries@.skip(j as int), key@),
            decreases self.entries@.len() - j,
        {
            proof {
                assert(self.entries@.skip(j as int).drop_first() =~= self.entries@.skip(j + 1));
            }
            if str_eq(self.entries[j].0.as_str(), key.as_str()) {
                return Ok(self.entries[j].1);
            }
            j = j + 1;
        }
        proof {
            assert(self.entries@.skip(j as int).len() == 0);
        }
        Err(UploaderError::NoClient(video.user_id))
    }
}

} // verus!

use vstd::prelude::*;
use crate::orchestration::config::StorageConfig;
use crate::orchestration::errors::{OrchestrationError, OrchestrationErrorKind};
use crate::orchestration::session::{OrchestrationSession, SessionCheckpoint};
use crate::text::{chars_of, concat_str, string_from_chars};

verus! {

/// Where sessions and their checkpoints are kept on disk: the directory of
/// session files and the directory of checkpoint files.
#[derive(Debug, Clone)]
pub struct FileSessionStorage {
    session_dir: String,
    checkpoint_dir: String,
}

/// The extension of stored files.
pub open spec fn json_suffix() -> Seq<char> {
    ".json"@
}

/// Whether `s` ends with `suffix`.
pub open spec fn ends_with(s: Seq<char>, suffix: Seq<char>) -> bool {
    s.len() >= suffix.len() && s.subrange(s.len() - suffix.len(), s.len() as int) == suffix
}

/// `s` with every trailing repetition of `suffix` taken off.
pub open spec fn without_suffixes(s: Seq<char>, suffix: Seq<char>) -> Seq<char>
    decreases s.len(),
{
    if suffix.len() > 0 && ends_with(s, suffix) {
        without_suffixes(s.subrange(0, s.len() - suffix.len()), suffix)
    } else {
        s
    }
}

/// The session identifiers the file names stand for: each name ending in
/// `.json`, in order, with its trailing `.json` endings taken off.
pub open spec fn session_ids(names: Seq<Seq<char>>) -> Seq<Seq<char>>
    decreases names.len(),
{
    if names.len() == 0 {
        Seq::empty()
    } else {
        let rest = session_ids(names.drop_last());
        if ends_with(names.last(), json_suffix()) {
            rest.push(without_suffixes(names.last(), json_suffix()))
        } else {
            rest
        }
    }
}

fn ends_with_chars(s: &Vec<char>, len: usize, suffix: &Vec<char>) -> (b: bool)
    requires
        len <= s@.len(),
    ensures
        ends_with(s@.take(len as int), suffix@) == b,
{
    if len < suffix.len() {
        return false;
    }
    let start = len - suffix.len();
    let mut i: usize = 0;
    while i < suffix.len()
        invariant
            i <= suffix@.len(),
            start + suffix@.len() == len,
            len <= s@.len(),
            forall|j: int| 0 <= j < i ==> s@[start + j] == suffix@[j],
        decreases suffix.len() - i,
    {
        if s[start + i] != suffix[i] {
            proof {
                assert(s@.take(len as int).subrange(start as int, len as int)[i as int] == s@[start + i]);
            }
            return false;
        }
        i = i + 1;
    }
    proof {
        assert(s@.take(len as int).subrange(start as int, len as int) =~= suffix@);
    }
    true
}

/// `name` with its trailing `.json` endings taken off, as [`without_suffixes`] states.
fn strip_json_suffixes(name: &str) -> (r: String)
    ensures
        r@ == without_suffixes(name@, json_suffix()),
{
    let cs = chars_of(name);
    let suffix = chars_of(".json");
    proof {
        reveal_strlit(".json");
        assert(suffix@.len() == 5);
    }
    let mut len: usize = cs.len();
    proof { assert(cs@.take(len as int) =~= cs@); }
    while ends_with_chars(&cs, len, &suffix)
        invariant
            len <= cs@.len(),
            suffix@ == json_suffix(),
            suffix@.len() == 5,
            without_suffixes(cs@.take(len as int), json_suffix()) == without_suffixes(name@, json_suffix()),
            cs@ == name@,
        decreases len,
    {
        proof {
            assert(cs@.take(len as int).subrange(0, len - 5) =~= cs@.take(len - 5));
        }
        len = len - 5;
    }
    let kept = slice_prefix(&cs, len);
    string_from_chars(kept.as_slice())
}

fn slice_prefix(cs: &Vec<char>, len: usize) -> (r: Vec<char>)
    requires
        len <= cs@.len(),
    ensures
        r@ == cs@.take(len as int),
{
    let mut r: Vec<char> = Vec::new();
    let mut i: usize = 0;
    while i < len
        invariant
            i <= len,
            len <= cs@.len(),
            r@ == cs@.take(i as int),
        decreases len - i,
    {
        r.push(cs[i]);
        proof { assert(cs@.take(i + 1) =~= cs@.take(i as int).push(cs@[i as int])); }
        i = i + 1;
    }
    r
}

/// The session identifiers of the files listed in the session directory, as
/// [`session_ids`] states.
pub fn session_ids_of(file_names: &Vec<String>) -> (r: Vec<String>)
    ensures
        r@.map_values(|s: String| s@) == session_ids(file_names@.map_values(|s: String| s@)),
{
    let ghost names = file_names@.map_values(|s: String| s@);
    let suffix = chars_of(".json");
    proof { reveal_strlit(".json"); }
    let mut r: Vec<String> = Vec::new();
    let mut i: usize = 0;
    while i < file_names.len()
        invariant
            i <= file_names@.len(),
            names == file_names@.map_values(|s: String| s@),
            suffix@ == json_suffix(),
            r@.map_values(|s: String| s@) == session_ids(names.take(i as int)),
        decreases file_names.len() - i,
    {
        let cs = chars_of(file_names[i].as_str());
        proof {
            assert(names.take(i + 1).drop_last() =~= names.take(i as int));
            assert(names.take(i + 1).last() == file_names@[i as int]@);
            assert(cs@.take(cs@.len() as int) =~= cs@);
        }
        let ghost before = r@;
        if ends_with_chars(&cs, cs.len(), &suffix) {
            r.push(strip_json_suffixes(file_names[i].as_str()));
            proof {
                assert(r@.map_values(|s: String| s@) =~= before.map_values(|s: String| s@).push(r@.last()@));
            }
        }
        i = i + 1;
    }
    proof { assert(names.take(file_names@.len() as int) =~= names); }
    r
}

impl FileSessionStorage {
    /// The directory of session files.
    pub closed spec fn sessions_at(&self) -> Seq<char> {
        self.session_dir@
    }

    /// The directory of checkpoint files.
    pub closed spec fn checkpoints_at(&self) -> Seq<char> {
        self.checkpoint_dir@
    }

    /// The storage a configuration describes: its session path, which must be
    /// set, and its checkpoint path, by default `checkpoints` under the session path.
    pub fn new(config: StorageConfig) -> (r: Result<Self, OrchestrationError>)
        ensures
            config.session_storage_path is None ==> (r matches Err(e)
                && e@ == (OrchestrationErrorKind::Configuration, "Session storage path not configured"@)),
            config.session_storage_path matches Some(p) ==> (r matches Ok(s) && s.sessions_at() == p@
                && s.checkpoints_at() == match config.checkpoint_storage_path {
                    Some(c) => c@,
                    None => p@ + "/checkpoints"@,
                }),
    {
        let session_dir = match config.session_storage_path {
            Some(p) => p,
            None => {
                return Err(OrchestrationError::ConfigurationError(String::from_str("Session storage path not configured")));
            },
        };
        let checkpoint_dir = match config.checkpoint_storage_path {
            Some(c) => c,
            None => concat_str(session_dir.as_str(), "/checkpoints"),
        };
        Ok(FileSessionStorage { session_dir, checkpoint_dir })
    }

    /// The directory of session files.
    pub fn session_dir(&self) -> (r: &String)
        ensures
            r@ == self.sessions_at(),
    {
        &self.session_dir
    }

    /// The directory of checkpoint files.
    pub fn checkpoint_dir(&self) -> (r: &String)
        ensures
            r@ == self.checkpoints_at(),
    {
        &self.checkpoint_dir
    }

    /// The name of a session's file: its identifier with `.json`.
    pub fn session_file_name(session_id: &str) -> (r: String)
        ensures
            r@ == session_id@ + ".json"@,
    {
        concat_str(session_id, ".json")
    }

    /// The name of a checkpoint's file: the session's and the checkpoint's
    /// identifiers joined by `_`, with `.json`.
    pub fn checkpoint_file_name(session_id: &str, checkpoint_id: &str) -> (r: String)
        ensures
            r@ == session_id@ + "_"@ + checkpoint_id@ + ".json"@,
    {
        let a = concat_str(session_id, "_");
        let b = concat_str(a.as_str(), checkpoint_id);
        concat_str(b.as_str(), ".json")
    }

    /// The checkpoint of `session` to save: its latest one.
    pub fn checkpoint_to_save(session: &OrchestrationSession) -> (r: Result<&SessionCheckpoint, OrchestrationError>)
        ensures
            session.checkpoints@.len() == 0 ==> (r matches Err(e)
                && e@ == (OrchestrationErrorKind::Session, "No checkpoint to save"@)),
            session.checkpoints@.len() > 0 ==> r == Ok::<&SessionCheckpoint, OrchestrationError>(&session.checkpoints@.last()),
    {
        let n = session.checkpoints.len();
        if n == 0 {
            Err(OrchestrationError::SessionError(String::from_str("No checkpoint to save")))
        } else {
            Ok(&session.checkpoints[n - 1])
        }
    }
}

} // verus!

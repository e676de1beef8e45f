//! "Open with a local program" edit sessions: a remote file is copied to a
//! private temporary file, watched for saves, and uploaded back; each
//! session is registered under an edit id and belongs to an SSH session.

use std::path::PathBuf;
use std::sync::Arc;
use std::sync::atomic::AtomicBool;
use vstd::prelude::*;
use crate::error::{AppError, ErrorDetail, ErrorKind, error_is, detail_is_empty, detail_is_message};
use crate::ids::{is_uuid_v4_text, new_id, uuid_v4_text};
use crate::names::{remote_filename, remote_filename_spec};
use crate::paths::clone_path;
use crate::registry::Registry;
use crate::text::str_eq;
use crate::transfers::{new_cancel_flag, share_flag};

verus! {

/// An active edit session. The file watcher holds a clone of `cancel`;
/// raising it stops the watcher.
pub struct EditSession {
    /// Local temporary path of the file.
    pub local_path: PathBuf,
    /// The SSH session that the edit belongs to.
    pub session_id: String,
    /// Raised to stop the watcher.
    pub cancel: Arc<AtomicBool>,
}

impl EditSession {
    /// A session for `local_path` belonging to `session_id`, with a fresh
    /// cancel flag that is not raised.
    pub fn new(local_path: PathBuf, session_id: String) -> (s: EditSession)
        ensures
            s.local_path == local_path,
            s.session_id@ == session_id@,
    {
        EditSession { local_path, session_id, cancel: new_cancel_flag() }
    }
}

/// What preparing an edit returns: the edit id and the local temp path.
pub struct OpenForEditResult {
    pub edit_id: String,
    pub local_path: String,
}

/// The identifiers chosen for a new edit: a fresh edit id (the name of the
/// edit's private temporary directory) and the local file name.
pub struct EditPlan {
    pub edit_id: String,
    pub file_name: String,
}

/// Raises an edit session's cancel flag (relaxed store).
pub fn raise_edit_flag(f: &AtomicBool) {
    f.store(true, std::sync::atomic::Ordering::Relaxed);
}

/// Chooses the edit id (built from the random bytes `random`) and the local
/// file name for editing `remote_path`.
pub fn plan_edit(remote_path: &str, random: [u8; 16]) -> (p: EditPlan)
    ensures
        p.edit_id@ == uuid_v4_text(random@),
        is_uuid_v4_text(p.edit_id@),
        p.file_name@ == remote_filename_spec(remote_path@),
{
    EditPlan { edit_id: new_id(random), file_name: remote_filename(remote_path) }
}

/// Registers the edit session `edit_id` for the temp file `local_path`
/// (displayed as `shown`), belonging to `session_id`.
pub fn register_edit(
    registry: &mut Registry<EditSession>,
    edit_id: String,
    local_path: PathBuf,
    shown: String,
    session_id: String,
) -> (r: OpenForEditResult)
    ensures
        r.edit_id@ == edit_id@,
        r.local_path@ == shown@,
        final(registry)@.contains_key(edit_id@),
        final(registry)@ =~= old(registry)@.insert(edit_id@, final(registry)@[edit_id@]),
        final(registry)@[edit_id@].local_path == local_path,
        final(registry)@[edit_id@].session_id@ == session_id@,
{
    let session = EditSession::new(local_path, session_id);
    let key = edit_id.clone();
    let _ = registry.insert(key, session);
    OpenForEditResult { edit_id, local_path: shown }
}

/// The temp path and cancel flag of the edit session `edit_id`;
/// `sftp_edit_not_found` where there is none.
pub fn edit_watch_target(registry: &Registry<EditSession>, edit_id: &str) -> (r: Result<
    (PathBuf, Arc<AtomicBool>),
    AppError,
>)
    ensures
        match r {
            Ok((p, f)) => registry@.contains_key(edit_id@) && p == registry@[edit_id@].local_path
                && f == registry@[edit_id@].cancel,
            Err(e) => !registry@.contains_key(edit_id@) && error_is(
                e,
                ErrorKind::NotFound,
                "sftp_edit_not_found"@,
            ) && detail_is_empty(e.detail),
        },
{
    match registry.get(edit_id) {
        Some(s) => Ok((clone_path(&s.local_path), share_flag(&s.cancel))),
        None => Err(AppError::not_found("sftp_edit_not_found", ErrorDetail::Empty)),
    }
}

/// Drops the edit session `edit_id` after its file could not be opened and
/// returns the `sftp_edit_open_failed` error carrying `err`.
pub fn abandon_edit(registry: &mut Registry<EditSession>, edit_id: &str, err: String) -> (e:
    AppError)
    ensures
        final(registry)@ =~= old(registry)@.remove(edit_id@),
        error_is(e, ErrorKind::Other, "sftp_edit_open_failed"@),
        detail_is_message(e.detail, err@),
{
    let _ = registry.remove(edit_id);
    AppError::other("sftp_edit_open_failed", ErrorDetail::Message(err))
}

/// Cancels the edit session `edit_id`: removes it, raises its cancel flag,
/// and returns it (so that its temp directory can be deleted).
pub fn cancel_edit(registry: &mut Registry<EditSession>, edit_id: &str) -> (r: Option<
    EditSession,
>)
    ensures
        final(registry)@ =~= old(registry)@.remove(edit_id@),
        match r {
            Some(s) => old(registry)@.contains_key(edit_id@) && s == old(registry)@[edit_id@],
            None => !old(registry)@.contains_key(edit_id@),
        },
{
    let removed = registry.remove(edit_id);
    match removed {
        Some(s) => {
            raise_edit_flag(&s.cancel);
            Some(s)
        },
        None => None,
    }
}

/// The edit sessions of `m` that do not belong to `session_id`.
pub open spec fn edits_not_of(m: Map<Seq<char>, EditSession>, session_id: Seq<char>) -> Map<
    Seq<char>,
    EditSession,
> {
    m.restrict(m.dom().filter(|k: Seq<char>| m[k].session_id@ != session_id))
}

/// Cancels every edit session belonging to `session_id`: removes them,
/// raises their cancel flags, and returns them with their edit ids.
pub fn cancel_edits_for_session(registry: &mut Registry<EditSession>, session_id: &str) -> (r: Vec<
    (String, EditSession),
>)
    ensures
        final(registry)@ =~= edits_not_of(old(registry)@, session_id@),
        forall|j: int|
            0 <= j < r@.len() ==> old(registry)@.contains_key((#[trigger] r@[j]).0@) && r@[j].1
                == old(registry)@[r@[j].0@] && r@[j].1.session_id@ == session_id@,
        forall|k: Seq<char>|
            old(registry)@.contains_key(k) && (#[trigger] old(registry)@[k]).session_id@
                == session_id@ ==> exists|j: int| 0 <= j < r@.len() && (#[trigger] r@[j]).0@ == k,
        forall|i: int, j: int|
            0 <= i < r@.len() && 0 <= j < r@.len() && i != j ==> (#[trigger] r@[i]).0@ != (
            #[trigger] r@[j]).0@,
{
    let ghost old_map = registry@;
    let keys = registry.keys();
    let n = keys.len();
    let mut out: Vec<(String, EditSession)> = Vec::new();
    let mut i: usize = 0;
    while i < n
        invariant
            n == keys@.len(),
            i <= n,
            forall|j: int| 0 <= j < n ==> old_map.contains_key((#[trigger] keys@[j])@),
            forall|k: Seq<char>|
                #[trigger] old_map.contains_key(k) ==> exists|j: int| 0 <= j < n && (
                #[trigger] keys@[j])@ == k,
            forall|k: Seq<char>|
                #[trigger] registry@.contains_key(k) ==> old_map.contains_key(k) && registry@[k]
                    == old_map[k],
            forall|k: Seq<char>|
                old_map.contains_key(k) && (#[trigger] old_map[k]).session_id@ != session_id@
                    ==> registry@.contains_key(k),
            forall|j: int|
                0 <= j < i ==> old_map[(#[trigger] keys@[j])@].session_id@ == session_id@
                    ==> !registry@.contains_key(keys@[j]@),
            forall|j: int|
                0 <= j < out@.len() ==> old_map.contains_key((#[trigger] out@[j]).0@)
                    && out@[j].1 == old_map[out@[j].0@] && out@[j].1.session_id@ == session_id@
                    && !registry@.contains_key(out@[j].0@),
            forall|k: Seq<char>|
                old_map.contains_key(k) && (#[trigger] old_map[k]).session_id@ == session_id@
                    && !registry@.contains_key(k) ==> exists|j: int|
                    0 <= j < out@.len() && (#[trigger] out@[j]).0@ == k,
            forall|a: int, b: int|
                0 <= a < out@.len() && 0 <= b < out@.len() && a != b ==> (#[trigger] out@[a]).0@
                    != (#[trigger] out@[b]).0@,
        decreases n - i,
    {
        let key = &keys[i];
        let matches = match registry.get(key.as_str()) {
            Some(s) => str_eq(s.session_id.as_str(), session_id),
            None => false,
        };
        if matches {
            let removed = registry.remove(key.as_str());
            match removed {
                Some(s) => {
                    raise_edit_flag(&s.cancel);
                    let ghost before = out@;
                    out.push((key.clone(), s));
                    proof {
                        assert forall|k: Seq<char>|
                            old_map.contains_key(k) && (#[trigger] old_map[k]).session_id@
                                == session_id@ && !registry@.contains_key(k) implies exists|j: int|
                            0 <= j < out@.len() && (#[trigger] out@[j]).0@ == k by {
                            if k == key@ {
                                assert(out@[out@.len() - 1].0@ == k);
                            } else {
                                let j = choose|j: int|
                                    0 <= j < before.len() && (#[trigger] before[j]).0@ == k;
                                assert(out@[j] == before[j]);
                            }
                        }
                    }
                },
                None => {},
            }
        }
        i = i + 1;
    }
    proof {
        let target = edits_not_of(old_map, session_id@);
        assert forall|k: Seq<char>| #[trigger] registry@.contains_key(k) <==> target.contains_key(
            k,
        ) by {
            if old_map.contains_key(k) && old_map[k].session_id@ == session_id@ {
                let j = choose|j: int| 0 <= j < n && (#[trigger] keys@[j])@ == k;
                assert(!registry@.contains_key(keys@[j]@));
            }
        }
        assert(registry@ =~= target);
        assert forall|k: Seq<char>|
            old_map.contains_key(k) && (#[trigger] old_map[k]).session_id@ == session_id@ implies exists|
            j: int|
            0 <= j < out@.len() && (#[trigger] out@[j]).0@ == k by {
            let j = choose|j: int| 0 <= j < n && (#[trigger] keys@[j])@ == k;
            assert(!registry@.contains_key(keys@[j]@));
        }
    }
    out
}

/// Cancelling the edits of one SSH session keeps every edit of every other
/// session, and leaves none of that session.
pub proof fn lemma_cancel_session_edits_scope(
    m: Map<Seq<char>, EditSession>,
    session_id: Seq<char>,
    k: Seq<char>,
)
    ensures
        edits_not_of(m, session_id).contains_key(k) <==> (m.contains_key(k)
            && m[k].session_id@ != session_id),
        edits_not_of(m, session_id).contains_key(k) ==> edits_not_of(m, session_id)[k] == m[k],
{
}

} // verus!

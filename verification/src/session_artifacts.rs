//! Deleting sessions together with the files that they own.
use crate::text;
use vstd::prelude::*;
use vstd::string::*;

verus! {

// ---------------------------------------------------------------------------
// The files of one session
// ---------------------------------------------------------------------------

/// A manifest of captured context.
#[derive(Debug, Clone, PartialEq, Eq)]
pub struct ContextArtifact {
    pub capture_id: u128,
    pub manifest_path: String,
}

/// The files of a session.
#[derive(Debug, Clone, PartialEq, Eq)]
pub struct SessionArtifactPaths {
    pub session_id: u128,
    pub audio_path: Option<String>,
    pub context_artifacts: Vec<ContextArtifact>,
}

/// One file that is to be removed.
#[derive(Debug, Clone, PartialEq, Eq)]
pub enum Artifact {
    /// The audio of a session, with what lies beside it.
    Audio { session_id: u128, path: String },
    /// A manifest of context.
    Context { capture_id: u128, path: String },
}

/// A file as its path and its owner.
pub enum ArtifactModel {
    Audio { session_id: u128, path: Seq<char> },
    Context { capture_id: u128, path: Seq<char> },
}

impl View for Artifact {
    type V = ArtifactModel;

    open spec fn view(&self) -> ArtifactModel {
        match self {
            Artifact::Audio { session_id, path } => ArtifactModel::Audio {
                session_id: *session_id,
                path: path@,
            },
            Artifact::Context { capture_id, path } => ArtifactModel::Context {
                capture_id: *capture_id,
                path: path@,
            },
        }
    }
}

pub open spec fn models(list: Seq<Artifact>) -> Seq<ArtifactModel> {
    list.map_values(|a: Artifact| a@)
}

/// The manifests that were written, in their order.
pub open spec fn written_manifests(list: Seq<ContextArtifact>) -> Seq<ArtifactModel>
    decreases list.len(),
{
    if list.len() == 0 {
        Seq::empty()
    } else {
        let before = written_manifests(list.drop_last());
        let last = list.last();
        if last.manifest_path@.len() == 0 {
            before
        } else {
            before.push(
                ArtifactModel::Context {
                    capture_id: last.capture_id,
                    path: last.manifest_path@,
                },
            )
        }
    }
}

/// What is removed of a session: its audio, and then each manifest that was
/// written.
pub open spec fn owned(artifacts: SessionArtifactPaths) -> Seq<ArtifactModel> {
    let audio = match artifacts.audio_path {
        Some(path) => seq![
            ArtifactModel::Audio { session_id: artifacts.session_id, path: path@ },
        ],
        None => Seq::empty(),
    };
    audio + written_manifests(artifacts.context_artifacts@)
}

/// What is to be removed of a session, in order.
pub fn plan_removal(artifacts: &SessionArtifactPaths) -> (r: Vec<Artifact>)
    ensures
        models(r@) == owned(*artifacts),
{
    let mut r: Vec<Artifact> = Vec::new();
    if let Some(path) = &artifacts.audio_path {
        r.push(
            Artifact::Audio { session_id: artifacts.session_id, path: path.as_str().to_owned() },
        );
    }
    let ghost audio = models(r@);
    let ghost list = artifacts.context_artifacts@;
    let mut i: usize = 0;
    assert(list.take(0) =~= Seq::<ContextArtifact>::empty());
    assert(models(r@) =~= audio + written_manifests(list.take(0)));
    while i < artifacts.context_artifacts.len()
        invariant
            i <= list.len(),
            list == artifacts.context_artifacts@,
            models(r@) == audio + written_manifests(list.take(i as int)),
        decreases list.len() - i,
    {
        let artifact: &ContextArtifact = &artifacts.context_artifacts[i];
        let ghost had = models(r@);
        assert(list.take(i + 1).drop_last() =~= list.take(i as int));
        assert(list.take(i + 1).last() == list[i as int]);
        if !artifact.manifest_path.as_str().is_empty() {
            let item: Artifact = Artifact::Context {
                capture_id: artifact.capture_id,
                path: artifact.manifest_path.as_str().to_owned(),
            };
            let ghost model = item@;
            r.push(item);
            assert(models(r@) =~= had.push(model));
            assert(had.push(model) =~= audio + written_manifests(list.take(i + 1)));
        }
        i = i + 1;
    }
    assert(list.take(i as int) =~= list);
    assert(audio =~= (match artifacts.audio_path {
        Some(path) => seq![
            ArtifactModel::Audio { session_id: artifacts.session_id, path: path@ },
        ],
        None => Seq::empty(),
    }));
    r
}

/// What came of removing one file. `existed` says whether the file or its directory
/// was there before; `shown` is the path as it is written in an error. What was not
/// removed although it was there is an error: it may belong to something else.
pub fn settle_removal(
    artifact: &Artifact,
    existed: bool,
    removed: Result<bool, String>,
    shown: &str,
) -> (r: Result<(), String>)
    ensures
        ({
            let audio = artifact is Audio;
            match removed {
                Ok(true) => r is Ok,
                Ok(false) => if existed {
                    text::fails(
                        r,
                        (if audio {
                            "refused to remove debug artifact: "@
                        } else {
                            "refused to remove context artifact: "@
                        }) + shown@,
                    )
                } else {
                    r is Ok
                },
                Err(error) => text::fails(
                    r,
                    (if audio {
                        "remove debug artifact: "@
                    } else {
                        "remove context artifact: "@
                    }) + error@,
                ),
            }
        }),
{
    match removed {
        Ok(true) => Ok(()),
        Ok(false) => if !existed {
            Ok(())
        } else {
            match artifact {
                Artifact::Audio { .. } => Err(
                    text::glue("refused to remove debug artifact: ", shown),
                ),
                Artifact::Context { .. } => Err(
                    text::glue("refused to remove context artifact: ", shown),
                ),
            }
        },
        Err(error) => match artifact {
            Artifact::Audio { .. } => Err(text::glue("remove debug artifact: ", error.as_str())),
            Artifact::Context { .. } => Err(
                text::glue("remove context artifact: ", error.as_str()),
            ),
        },
    }
}

/// What the deletion of a session does next.
#[derive(Debug, Clone, PartialEq, Eq)]
pub enum Deletion {
    /// There is no such session.
    Missing,
    /// Its row is deleted.
    DeleteRow,
    Failed(String),
}

/// What the deletion of a session does, once its files were looked for: `removed`
/// is what came of removing them, where the session is there. A session whose
/// files could not be removed is kept.
pub fn delete_session_with_artifacts(removed: Result<Option<Result<(), String>>, String>) -> (r:
    Deletion)
    ensures
        match removed {
            Ok(None) => r is Missing,
            Ok(Some(Ok(()))) => r is DeleteRow,
            Ok(Some(Err(error))) => r == Deletion::Failed(error),
            Err(error) => r == Deletion::Failed(error),
        },
{
    match removed {
        Ok(None) => Deletion::Missing,
        Ok(Some(Ok(()))) => Deletion::DeleteRow,
        Ok(Some(Err(error))) => Deletion::Failed(error),
        Err(error) => Deletion::Failed(error),
    }
}

// ---------------------------------------------------------------------------
// Clearing out silent sessions
// ---------------------------------------------------------------------------

/// How many sessions are looked at at a time.
pub const PURGE_BATCH: u32 = 128;

/// What a purge does next.
#[derive(Debug, Clone, PartialEq, Eq)]
pub enum PurgeAction {
    /// The sessions behind `after` are listed.
    List,
    /// The files of the sessions of the batch are removed.
    RemoveFiles,
    /// The rows of the sessions whose files are gone are deleted.
    DeleteRows,
    /// The purge is over; what it deleted is reported, if it deleted anything.
    Report,
    /// The purge is over.
    Stop,
}

/// What came of an action.
#[derive(Debug, Clone, PartialEq, Eq)]
pub enum PurgeEvent {
    /// The database could not be reached, or could not list its sessions.
    Unavailable,
    /// A batch: the last session that was looked at, where there was one, and the
    /// sessions that are to go.
    Listed { last: Option<String>, sessions: Vec<u128> },
    /// Which sessions of the batch have no file left.
    FilesRemoved { gone: Vec<bool> },
    /// How many rows were deleted, where they could be.
    RowsDeleted { count: Option<u64> },
}

/// The sessions of a batch whose files are gone.
pub open spec fn removable(sessions: Seq<u128>, gone: Seq<bool>) -> Seq<u128>
    decreases sessions.len(),
{
    if sessions.len() == 0 {
        Seq::empty()
    } else {
        let before = removable(sessions.drop_last(), gone);
        let at = sessions.len() - 1;
        if at < gone.len() && gone[at] {
            before.push(sessions.last())
        } else {
            before
        }
    }
}

/// A purge of the silent sessions of earlier versions.
#[derive(Debug, Clone, PartialEq, Eq)]
pub struct SilentPurge {
    pub after: String,
    /// The sessions that are in hand.
    pub sessions: Vec<u128>,
    pub purged: u64,
    pub next: PurgeAction,
}

impl SilentPurge {
    /// A purge from the first session on.
    pub fn new() -> (r: Self)
        ensures
            r.after@.len() == 0,
            r.sessions@.len() == 0,
            r.purged == 0,
            r.next is List,
    {
        SilentPurge {
            after: String::new(),
            sessions: Vec::new(),
            purged: 0,
            next: PurgeAction::List,
        }
    }

    fn keep_gone(&mut self, gone: &Vec<bool>)
        ensures
            final(self).sessions@ == removable(old(self).sessions@, gone@),
            final(self).after == old(self).after,
            final(self).purged == old(self).purged,
            final(self).next == old(self).next,
    {
        let ghost all = self.sessions@;
        let mut kept: Vec<u128> = Vec::new();
        let mut i: usize = 0;
        assert(all.take(0) =~= Seq::<u128>::empty());
        while i < self.sessions.len()
            invariant
                i <= all.len(),
                self.sessions@ == all,
                kept@ == removable(all.take(i as int), gone@),
            decreases all.len() - i,
        {
            assert(all.take(i + 1).drop_last() =~= all.take(i as int));
            assert(all.take(i + 1).last() == all[i as int]);
            if i < gone.len() && gone[i] {
                kept.push(self.sessions[i]);
            }
            i = i + 1;
        }
        assert(all.take(i as int) =~= all);
        self.sessions = kept;
    }

    /// Takes in what came of the last action. An event that does not answer the
    /// action that is next stops the purge.
    pub fn advance(&mut self, event: PurgeEvent)
        requires
            event matches PurgeEvent::RowsDeleted { count: Some(count) } ==> old(self).purged
                + count <= u64::MAX,
        ensures
            match (old(self).next, event) {
                (PurgeAction::List, PurgeEvent::Listed { last: Some(last), sessions }) => {
                    &&& final(self).after == last
                    &&& final(self).sessions == sessions
                    &&& final(self).purged == old(self).purged
                    &&& final(self).next is RemoveFiles
                },
                (PurgeAction::List, PurgeEvent::Listed { last: None, .. }) => {
                    &&& final(self).after == old(self).after
                    &&& final(self).sessions == old(self).sessions
                    &&& final(self).purged == old(self).purged
                    &&& final(self).next is Report
                },
                (PurgeAction::RemoveFiles, PurgeEvent::FilesRemoved { gone }) => {
                    let left = removable(old(self).sessions@, gone@);
                    &&& final(self).after == old(self).after
                    &&& final(self).sessions@ == left
                    &&& final(self).purged == old(self).purged
                    &&& final(self).next is List <==> left.len() == 0
                    &&& final(self).next is DeleteRows <==> left.len() > 0
                },
                (PurgeAction::DeleteRows, PurgeEvent::RowsDeleted { count }) => {
                    &&& final(self).after == old(self).after
                    &&& final(self).sessions == old(self).sessions
                    &&& final(self).purged == old(self).purged + match count {
                        Some(count) => count as int,
                        None => 0,
                    }
                    &&& final(self).next is List
                },
                _ => {
                    &&& final(self).after == old(self).after
                    &&& final(self).sessions == old(self).sessions
                    &&& final(self).purged == old(self).purged
                    &&& final(self).next is Stop
                },
            },
    {
        match (&self.next, event) {
            (PurgeAction::List, PurgeEvent::Listed { last, sessions }) => match last {
                Some(last) => {
                    self.after = last;
                    self.sessions = sessions;
                    self.next = PurgeAction::RemoveFiles;
                },
                None => {
                    self.next = PurgeAction::Report;
                },
            },
            (PurgeAction::RemoveFiles, PurgeEvent::FilesRemoved { gone }) => {
                self.keep_gone(&gone);
                self.next = if self.sessions.len() == 0 {
                    PurgeAction::List
                } else {
                    PurgeAction::DeleteRows
                };
            },
            (PurgeAction::DeleteRows, PurgeEvent::RowsDeleted { count }) => {
                if let Some(count) = count {
                    self.purged = self.purged + count;
                }
                self.next = PurgeAction::List;
            },
            _ => {
                self.next = PurgeAction::Stop;
            },
        }
    }
}

/// Only sessions of the batch whose files are gone lose their rows: what could not
/// be removed stays, and is tried again.
pub proof fn rows_go_after_their_files(sessions: Seq<u128>, gone: Seq<bool>, session: u128)
    ensures
        removable(sessions, gone).contains(session) <==> exists|i: int|
            0 <= i < sessions.len() && i < gone.len() && #[trigger] gone[i] && sessions[i]
                == session,
    decreases sessions.len(),
{
    let all = removable(sessions, gone);
    if sessions.len() > 0 {
        let rest = sessions.drop_last();
        let before = removable(rest, gone);
        let at = sessions.len() - 1;
        rows_go_after_their_files(rest, gone, session);
        if all.contains(session) {
            let k = choose|k: int| 0 <= k < all.len() && all[k] == session;
            if at < gone.len() && gone[at] && k == before.len() {
                assert(gone[at] && sessions[at] == session);
            } else {
                assert(before[k] == session);
                assert(before.contains(session));
                let i = choose|i: int|
                    0 <= i < rest.len() && i < gone.len() && #[trigger] gone[i] && rest[i]
                        == session;
                assert(gone[i] && sessions[i] == session);
            }
        }
        if exists|i: int|
            0 <= i < sessions.len() && i < gone.len() && #[trigger] gone[i] && sessions[i]
                == session {
            let i = choose|i: int|
                0 <= i < sessions.len() && i < gone.len() && #[trigger] gone[i] && sessions[i]
                    == session;
            if i < at {
                assert(gone[i] && rest[i] == session);
                let k = choose|k: int| 0 <= k < before.len() && before[k] == session;
                assert(all[k] == session);
            } else {
                assert(all[before.len() as int] == session);
            }
        }
    }
}

// ---------------------------------------------------------------------------
// Laws of removal
// ---------------------------------------------------------------------------

/// Every manifest that was written is removed, in its order; one that was not is passed
/// over.
pub proof fn written_manifests_are_removed(list: Seq<ContextArtifact>, artifact: ContextArtifact)
    ensures
        artifact.manifest_path@.len() == 0 ==> written_manifests(list.push(artifact))
            == written_manifests(list),
        artifact.manifest_path@.len() > 0 ==> written_manifests(list.push(artifact))
            == written_manifests(list).push(
            ArtifactModel::Context {
                capture_id: artifact.capture_id,
                path: artifact.manifest_path@,
            },
        ),
        written_manifests(Seq::empty()).len() == 0,
{
    assert(list.push(artifact).drop_last() =~= list);
}

/// A session's audio is the first that is removed, and its manifests follow.
pub proof fn audio_is_removed_first(artifacts: SessionArtifactPaths)
    ensures
        artifacts.audio_path matches Some(path) ==> owned(artifacts).len() == 1
            + written_manifests(artifacts.context_artifacts@).len() && owned(artifacts)[0] == (
        ArtifactModel::Audio { session_id: artifacts.session_id, path: path@ }) && owned(
            artifacts,
        ).skip(1) == written_manifests(artifacts.context_artifacts@),
        artifacts.audio_path is None ==> owned(artifacts) == written_manifests(
            artifacts.context_artifacts@,
        ),
{
    if artifacts.audio_path is Some {
        assert(owned(artifacts).skip(1) =~= written_manifests(artifacts.context_artifacts@));
    } else {
        assert(owned(artifacts) =~= written_manifests(artifacts.context_artifacts@));
    }
}

/// A session whose files are gone is removed, and no other is.
pub proof fn sessions_without_files_are_removed(sessions: Seq<u128>, gone: Seq<bool>, i: int)
    requires
        sessions.no_duplicates(),
        0 <= i < sessions.len(),
    ensures
        i < gone.len() && gone[i] ==> removable(sessions, gone).contains(sessions[i]),
        !(i < gone.len() && gone[i]) ==> !removable(sessions, gone).contains(sessions[i]),
        removable(sessions, gone).len() <= sessions.len(),
    decreases sessions.len(),
{
    let before = sessions.drop_last();
    let kept = removable(before, gone);
    if i < sessions.len() - 1 {
        assert(before[i] == sessions[i]);
        sessions_without_files_are_removed(before, gone, i);
        if kept.contains(sessions[i]) {
            let j = choose|j: int| 0 <= j < kept.len() && kept[j] == sessions[i];
            assert(removable(sessions, gone)[j] == sessions[i]);
        }
    } else {
        lemma_only_of_these(before, gone, sessions[i]);
        if i < gone.len() && gone[i] {
            assert(removable(sessions, gone)[kept.len() as int] == sessions[i]);
        }
        if before.len() > 0 {
            sessions_without_files_are_removed(before, gone, 0);
        }
    }
}

proof fn lemma_only_of_these(sessions: Seq<u128>, gone: Seq<bool>, session: u128)
    requires
        !sessions.contains(session),
    ensures
        !removable(sessions, gone).contains(session),
    decreases sessions.len(),
{
    if sessions.len() > 0 {
        let before = sessions.drop_last();
        assert forall|k: int| 0 <= k < before.len() implies before[k] != session by {
            assert(sessions[k] == before[k]);
        }
        lemma_only_of_these(before, gone, session);
        assert(sessions[sessions.len() - 1] != session);
    }
}

/// What is removed is seen as it is.
pub proof fn artifacts_are_seen_as_they_are(artifact: Artifact, list: Seq<Artifact>, i: int)
    ensures
        artifact matches Artifact::Audio { session_id, path } ==> artifact@
            == (ArtifactModel::Audio { session_id, path: path@ }),
        artifact matches Artifact::Context { capture_id, path } ==> artifact@
            == (ArtifactModel::Context { capture_id, path: path@ }),
        models(list).len() == list.len(),
        0 <= i < list.len() ==> models(list)[i] == list[i]@,
{
}

} // verus!

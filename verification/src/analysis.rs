//! The merge analysis: what is to be done with a note, given its local
//! versions and the server's copies of it. The stable identity says which
//! note it is, the version token says which version; a note is in sync
//! where both sides hold one and the same version.

use crate::headers::MissingHeaderError;
use crate::note::{
    lemma_all_versions_present, records_view, remote_versions, spec_changed_remotely,
    LocalNote, LocalNoteView, MergeableNoteBody, RemoteNoteHeaderCollection,
    RemoteNoteMetaDataView,
};
use vstd::prelude::*;

verus! {

/// What is to be done with a note.
#[derive(Clone, Copy, Debug, PartialEq, Eq, Structural)]
pub enum NoteStatus {
    /// A side has no version of the note at all, which is no valid state.
    Invalid,
    /// Conflicting versions exist and must be merged before anything else:
    /// a side holds several, or both sides have changed.
    NeedsMerge,
    /// The local edit is ready to be published.
    NeedsPush,
    /// The server's copy has changed and is to be fetched anew.
    NeedsFetch,
    /// Both sides hold the same single version.
    InSync,
}

/// What is to be done with the note `local`, of which the server holds the
/// copies `remote`. A remote record without a version token is an error.
pub open spec fn spec_classify(local: LocalNoteView, remote: Seq<RemoteNoteMetaDataView>) -> Result<
    NoteStatus,
    MissingHeaderError,
> {
    if local.body.len() == 0 || remote.len() == 0 {
        Ok(NoteStatus::Invalid)
    } else if local.body.len() > 1 || remote.len() > 1 {
        Ok(NoteStatus::NeedsMerge)
    } else {
        match remote[0].message_id() {
            Err(e) => Err(e),
            Ok(remote_id) => match local.body[0].old_remote_message_id {
                Some(superseded) => if superseded == remote_id {
                    Ok(NoteStatus::NeedsPush)
                } else {
                    Ok(NoteStatus::NeedsMerge)
                },
                None => if local.body[0].message_id == remote_id {
                    Ok(NoteStatus::InSync)
                } else {
                    Ok(NoteStatus::NeedsFetch)
                },
            },
        }
    }
}

/// Says what is to be done with the note `local`, of which the server holds
/// the copies `remote`.
pub fn classify(local: &LocalNote, remote: &RemoteNoteHeaderCollection) -> (status: Result<
    NoteStatus,
    MissingHeaderError,
>)
    ensures
        status == spec_classify(local@, records_view(remote@)),
{
    if local.body.len() == 0 || remote.len() == 0 {
        return Ok(NoteStatus::Invalid);
    }
    if local.needs_merge() || remote.needs_local_merge() {
        return Ok(NoteStatus::NeedsMerge);
    }
    assert(remote[0]@ == records_view(remote@)[0]);
    assert(local.body[0]@ == local@.body[0]);
    let remote_id = match crate::headers::HeaderParser::message_id(&remote[0].headers) {
        Ok(id) => id,
        Err(e) => {
            return Err(e);
        },
    };
    match &local.body[0].old_remote_message_id {
        Some(superseded) => {
            if *superseded == remote_id {
                Ok(NoteStatus::NeedsPush)
            } else {
                Ok(NoteStatus::NeedsMerge)
            }
        },
        None => {
            if local.body[0].message_id == remote_id {
                Ok(NoteStatus::InSync)
            } else {
                Ok(NoteStatus::NeedsFetch)
            }
        },
    }
}

/// A note is in sync exactly where each side holds one version, no local
/// edit waits to be published, and the two versions carry the same token.
pub proof fn lemma_in_sync(local: LocalNoteView, remote: Seq<RemoteNoteMetaDataView>)
    ensures
        spec_classify(local, remote) == Ok::<NoteStatus, MissingHeaderError>(NoteStatus::InSync)
            <==> {
            &&& local.body.len() == 1
            &&& remote.len() == 1
            &&& !local.content_changed_locally()
            &&& remote[0].message_id() == Ok::<Seq<char>, MissingHeaderError>(
                local.body[0].message_id,
            )
        },
{
    if local.body.len() == 1 {
        if local.content_changed_locally() {
            let i = choose|i: int|
                0 <= i < local.body.len() && (#[trigger] local.body[i]).old_remote_message_id
                    is Some;
            assert(i == 0);
        }
        if local.body[0].old_remote_message_id is Some {
            assert(local.content_changed_locally());
        }
    }
}

/// A note that is in sync has not changed on either side, and a note that
/// needs a merge because of its numbers is one that needs a merge on a side.
pub proof fn lemma_status_agrees(local: LocalNoteView, remote: Seq<RemoteNoteMetaDataView>)
    ensures
        spec_classify(local, remote) == Ok::<NoteStatus, MissingHeaderError>(NoteStatus::InSync)
            ==> spec_changed_remotely(local, remote) == Ok::<bool, MissingHeaderError>(false),
        spec_classify(local, remote) == Ok::<NoteStatus, MissingHeaderError>(
            NoteStatus::NeedsFetch,
        ) ==> spec_changed_remotely(local, remote) == Ok::<bool, MissingHeaderError>(true),
        local.body.len() > 0 && remote.len() > 0 && (local.body.len() > 1 || remote.len() > 1)
            ==> spec_classify(local, remote) == Ok::<NoteStatus, MissingHeaderError>(
            NoteStatus::NeedsMerge,
        ),
{
    if local.body.len() == 1 && remote.len() == 1 && remote[0].message_id() is Ok {
        let versions = remote_versions(remote);
        assert(versions[0] is Ok);
        lemma_all_versions_present(versions);
        let ids = versions.map_values(|v: Result<Seq<char>, MissingHeaderError>| v->Ok_0);
        let remote_id = remote[0].message_id()->Ok_0;
        assert(ids =~= seq![remote_id]);
        assert(local.message_ids() =~= seq![local.body[0].message_id]);
        assert(ids.to_set().contains(remote_id)) by {
            assert(ids[0] == remote_id);
        }
        assert(local.message_ids().to_set().contains(local.body[0].message_id)) by {
            assert(local.message_ids()[0] == local.body[0].message_id);
        }
        if local.body[0].message_id == remote_id {
            assert(ids.to_set() =~= local.message_ids().to_set());
        } else {
            assert(!local.message_ids().to_set().contains(remote_id));
        }
    }
}

} // verus!

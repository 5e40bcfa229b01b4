//! The transfer pipeline for one attachment, as a machine that the caller
//! drives: filter, download, upload, publish, clean up.
//!
//! The machine decides; the caller performs each action that it is handed and
//! reports whether the action succeeded. No step is retried: the first failure
//! abandons the item, and the local copy is removed only after the publish
//! went through.

use crate::media::{eligible, is_eligible, text_view, MediaDescriptor, MediaView};
use crate::naming::{create_file_name_with_path, nonce_hash, temp_path};
use vstd::prelude::*;

verus! {

/// How the transfer of one attachment ended.
#[derive(Clone, Copy, Debug, PartialEq, Eq, Structural)]
pub enum TransferResult {
    /// Published, and the local copy removed.
    Success,
    /// Filtered out before the download; nothing was done.
    Skipped,
    /// A step failed; the item was abandoned.
    Failed,
}

/// What the pipeline is waiting for.
#[derive(Clone, Copy, Debug, PartialEq, Eq, Structural)]
pub enum TransferState {
    Downloading,
    Uploading,
    Publishing,
    Removing,
    Finished(TransferResult),
}

/// What the caller is to do next.
#[derive(Clone, Copy, Debug, PartialEq, Eq, Structural)]
pub enum TransferAction {
    /// Fetch the attachment to the transfer's path.
    Download,
    /// Upload the file at the transfer's path.
    Upload,
    /// Send the uploaded file to the destination, with the transfer's caption.
    Publish,
    /// Delete the file at the transfer's path.
    Remove,
    /// Nothing more: the transfer ended with this result.
    Done(TransferResult),
}

/// One run of the pipeline.
#[derive(Debug)]
pub struct Transfer {
    pub state: TransferState,
    /// The identifier by which the download is requested.
    pub reference: i32,
    /// Where the local copy goes. Empty for an item that was skipped, or that
    /// failed before a name was made for it.
    pub path: String,
    /// The caption of the published message. Empty where no marker was given.
    pub caption: String,
}

/// The state in which a transfer starts. An ineligible attachment is skipped.
/// An eligible one is to be downloaded where a local name could be made for
/// it (`named`), and has failed where none could.
pub open spec fn initial_state(media: MediaView, named: bool) -> TransferState {
    if !eligible(media) {
        TransferState::Finished(TransferResult::Skipped)
    } else if named {
        TransferState::Downloading
    } else {
        TransferState::Finished(TransferResult::Failed)
    }
}

/// The state that follows `state` once the action it waited for has ended,
/// well (`ok`) or not. Any failure finishes the transfer as failed; a finished
/// transfer stays as it is.
pub open spec fn next_state(state: TransferState, ok: bool) -> TransferState {
    match state {
        TransferState::Finished(result) => TransferState::Finished(result),
        _ => if !ok {
            TransferState::Finished(TransferResult::Failed)
        } else {
            match state {
                TransferState::Downloading => TransferState::Uploading,
                TransferState::Uploading => TransferState::Publishing,
                TransferState::Publishing => TransferState::Removing,
                _ => TransferState::Finished(TransferResult::Success),
            }
        },
    }
}

/// The action that a state asks for.
pub open spec fn action_of(state: TransferState) -> TransferAction {
    match state {
        TransferState::Downloading => TransferAction::Download,
        TransferState::Uploading => TransferAction::Upload,
        TransferState::Publishing => TransferAction::Publish,
        TransferState::Removing => TransferAction::Remove,
        TransferState::Finished(result) => TransferAction::Done(result),
    }
}

/// The caption of a transfer: the marker where one is given, else empty.
pub open spec fn caption_of(marker: Option<Seq<char>>) -> Seq<char> {
    match marker {
        Some(text) => text,
        None => Seq::empty(),
    }
}

fn action_for(state: TransferState) -> (action: TransferAction)
    ensures
        action == action_of(state),
{
    match state {
        TransferState::Downloading => TransferAction::Download,
        TransferState::Uploading => TransferAction::Upload,
        TransferState::Publishing => TransferAction::Publish,
        TransferState::Removing => TransferAction::Remove,
        TransferState::Finished(result) => TransferAction::Done(result),
    }
}

impl Transfer {
    /// Starts the transfer of `media` with the local path that the caller
    /// made for it, if it could make one. An ineligible attachment is skipped
    /// at once; an eligible one without a path has failed at once. Neither
    /// gets a path.
    pub fn begin_at(media: &MediaDescriptor, path: Option<String>, marker: Option<String>) -> (started: (
        Transfer,
        TransferAction,
    ))
        ensures
            started.0.state == initial_state(media@, path is Some),
            started.1 == action_of(started.0.state),
            started.0.reference == media.reference,
            started.0.caption@ == caption_of(text_view(marker)),
            started.0.path@ == match path {
                Some(p) => if eligible(media@) {
                    p@
                } else {
                    Seq::<char>::empty()
                },
                None => Seq::<char>::empty(),
            },
    {
        let caption: String = match marker {
            Some(text) => text,
            None => String::new(),
        };
        if !is_eligible(media) {
            let transfer = Transfer {
                state: TransferState::Finished(TransferResult::Skipped),
                reference: media.reference,
                path: String::new(),
                caption,
            };
            return (transfer, TransferAction::Done(TransferResult::Skipped));
        }
        match path {
            Some(p) => {
                let transfer = Transfer {
                    state: TransferState::Downloading,
                    reference: media.reference,
                    path: p,
                    caption,
                };
                (transfer, TransferAction::Download)
            },
            None => {
                let transfer = Transfer {
                    state: TransferState::Finished(TransferResult::Failed),
                    reference: media.reference,
                    path: String::new(),
                    caption,
                };
                (transfer, TransferAction::Done(TransferResult::Failed))
            },
        }
    }

    /// Starts the transfer of `media`: the filter step. An ineligible
    /// attachment is skipped at once. An eligible one gets a fresh local path
    /// under `image_dir` and is to be downloaded; where the clock gives no
    /// name for it, it has failed at once.
    pub fn begin(media: &MediaDescriptor, image_dir: &str, marker: Option<String>) -> (started: (
        Transfer,
        TransferAction,
    ))
        ensures
            exists|named: bool| started.0.state == initial_state(media@, named),
            started.1 == action_of(started.0.state),
            started.0.reference == media.reference,
            started.0.caption@ == caption_of(text_view(marker)),
            started.0.state == TransferState::Downloading ==> exists|nonce: int|
                started.0.path@ == temp_path(image_dir@, media@, nonce) && nonce_hash(nonce).len()
                    == 32,
            started.0.state != TransferState::Downloading ==> started.0.path@ == Seq::<
                char,
            >::empty(),
    {
        if is_eligible(media) {
            let path: Option<String> = create_file_name_with_path(media, image_dir);
            let ghost named = path is Some;
            let started = Transfer::begin_at(media, path, marker);
            proof {
                assert(started.0.state == initial_state(media@, named));
            }
            started
        } else {
            let started = Transfer::begin_at(media, None, marker);
            proof {
                assert(started.0.state == initial_state(media@, false));
            }
            started
        }
    }

    /// Takes in how the last action ended and says what to do next: see
    /// [`next_state`] and [`action_of`]. Path, caption and reference stay.
    pub fn advance(&mut self, ok: bool) -> (action: TransferAction)
        ensures
            final(self).state == next_state(old(self).state, ok),
            action == action_of(final(self).state),
            final(self).reference == old(self).reference,
            final(self).path == old(self).path,
            final(self).caption == old(self).caption,
    {
        let next: TransferState = match self.state {
            TransferState::Finished(result) => TransferState::Finished(result),
            TransferState::Downloading => if ok {
                TransferState::Uploading
            } else {
                TransferState::Finished(TransferResult::Failed)
            },
            TransferState::Uploading => if ok {
                TransferState::Publishing
            } else {
                TransferState::Finished(TransferResult::Failed)
            },
            TransferState::Publishing => if ok {
                TransferState::Removing
            } else {
                TransferState::Finished(TransferResult::Failed)
            },
            TransferState::Removing => if ok {
                TransferState::Finished(TransferResult::Success)
            } else {
                TransferState::Finished(TransferResult::Failed)
            },
        };
        self.state = next;
        action_for(next)
    }

    /// The result, once the transfer has finished.
    pub fn result(&self) -> (result: Option<TransferResult>)
        ensures
            result == match self.state {
                TransferState::Finished(r) => Some(r),
                _ => None,
            },
    {
        match self.state {
            TransferState::Finished(r) => Some(r),
            _ => None,
        }
    }
}

/// What the actions of a transfer have done so far to the world outside.
pub struct Effects {
    /// The download went through.
    pub downloaded: bool,
    /// The local copy is on disk.
    pub file_exists: bool,
    /// The message stands in the destination.
    pub published: bool,
}

/// The effects after the action that `state` waited for has ended. A
/// successful download puts the file there, a successful publish the message,
/// a successful removal takes the file away; a failed action changes nothing.
pub open spec fn effects_after(state: TransferState, ok: bool, before: Effects) -> Effects {
    if !ok {
        before
    } else {
        match state {
            TransferState::Downloading => Effects { downloaded: true, file_exists: true, ..before },
            TransferState::Publishing => Effects { published: true, ..before },
            TransferState::Removing => Effects { file_exists: false, ..before },
            _ => before,
        }
    }
}

/// The pipeline driven through a sequence of outcomes, one per action.
pub open spec fn run(state: TransferState, effects: Effects, outcomes: Seq<bool>) -> (
    TransferState,
    Effects,
)
    decreases outcomes.len(),
{
    if outcomes.len() == 0 {
        (state, effects)
    } else {
        run(
            next_state(state, outcomes[0]),
            effects_after(state, outcomes[0], effects),
            outcomes.drop_first(),
        )
    }
}

/// Nothing has happened yet.
pub open spec fn untouched() -> Effects {
    Effects { downloaded: false, file_exists: false, published: false }
}

/// What holds between the state of a transfer and its effects at every moment.
pub open spec fn consistent(state: TransferState, effects: Effects) -> bool {
    match state {
        TransferState::Downloading => !effects.downloaded && !effects.file_exists
            && !effects.published,
        TransferState::Uploading => effects.downloaded && effects.file_exists
            && !effects.published,
        TransferState::Publishing => effects.downloaded && effects.file_exists
            && !effects.published,
        TransferState::Removing => effects.downloaded && effects.file_exists && effects.published,
        TransferState::Finished(TransferResult::Success) => effects.downloaded
            && !effects.file_exists && effects.published,
        TransferState::Finished(TransferResult::Skipped) => effects == untouched(),
        TransferState::Finished(TransferResult::Failed) => effects.file_exists
            == effects.downloaded,
    }
}

proof fn lemma_run_consistent(state: TransferState, effects: Effects, outcomes: Seq<bool>)
    requires
        consistent(state, effects),
    ensures
        consistent(run(state, effects, outcomes).0, run(state, effects, outcomes).1),
    decreases outcomes.len(),
{
    if outcomes.len() > 0 {
        lemma_run_consistent(
            next_state(state, outcomes[0]),
            effects_after(state, outcomes[0], effects),
            outcomes.drop_first(),
        );
    }
}

/// Cleanup. However a transfer starts and is driven, a successful one has
/// published its message and left no local copy; a skipped one has touched
/// nothing; and a failed one whose download went through still has its local
/// copy, whether the upload, the publish or the removal failed.
pub proof fn cleanup_follows_result(media: MediaView, named: bool, outcomes: Seq<bool>)
    ensures
        ({
            let (state, effects) = run(initial_state(media, named), untouched(), outcomes);
            &&& state == TransferState::Finished(TransferResult::Success) ==> effects.published
                && !effects.file_exists
            &&& state == TransferState::Finished(TransferResult::Skipped) ==> effects
                == untouched() && !eligible(media)
            &&& state == TransferState::Finished(TransferResult::Failed) && effects.downloaded
                ==> effects.file_exists
            &&& !eligible(media) ==> state == TransferState::Finished(TransferResult::Skipped)
        }),
{
    lemma_run_consistent(initial_state(media, named), untouched(), outcomes);
    lemma_skipped_only_at_start(initial_state(media, named), untouched(), outcomes);
}

proof fn lemma_skipped_only_at_start(state: TransferState, effects: Effects, outcomes: Seq<bool>)
    ensures
        (run(state, effects, outcomes).0 == TransferState::Finished(TransferResult::Skipped))
            == (state == TransferState::Finished(TransferResult::Skipped)),
    decreases outcomes.len(),
{
    if outcomes.len() > 0 {
        lemma_skipped_only_at_start(
            next_state(state, outcomes[0]),
            effects_after(state, outcomes[0], effects),
            outcomes.drop_first(),
        );
    }
}

} // verus!

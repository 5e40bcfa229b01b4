//! The live tail: which of the updates that arrive are mirrored.
//!
//! The caller owns the stream of updates. It hands each one over and is told
//! whether to run the transfer pipeline on it. A live item is published
//! without a marker: only the backfill scan moves the watermark.

use crate::backfill::{SourceMessage, SourceMessageView};
use crate::media::{eligible, is_eligible};
use crate::text::same_text;
use vstd::prelude::*;

verus! {

/// One update from the platform, as far as the mirror reads it.
#[derive(Debug)]
pub enum Update {
    /// A message was posted.
    NewMessage(SourceMessage),
    /// Anything else.
    Other,
}

/// An update as plain values.
pub enum UpdateView {
    NewMessage(SourceMessageView),
    Other,
}

impl View for Update {
    type V = UpdateView;

    open spec fn view(&self) -> UpdateView {
        match *self {
            Update::NewMessage(m) => UpdateView::NewMessage(m@),
            Update::Other => UpdateView::Other,
        }
    }
}

/// What to do with an update.
#[derive(Clone, Copy, Debug, PartialEq, Eq, Structural)]
pub enum LiveAction {
    /// Run the transfer pipeline on the message's attachment, with no marker.
    Transfer,
    /// Drop the update; nothing happens.
    Ignore,
}

/// Whether a message is mirrored live from the channel `source`: somebody
/// else sent it, it came from that channel, and it carries an eligible
/// attachment.
pub open spec fn forwarded(source: Seq<char>, m: SourceMessageView) -> bool {
    &&& !m.outgoing
    &&& m.channel == Some(source)
    &&& match m.media {
        Some(media) => eligible(media),
        None => false,
    }
}

/// The action that an update calls for.
pub open spec fn live_action(source: Seq<char>, update: UpdateView) -> LiveAction {
    match update {
        UpdateView::NewMessage(m) => if forwarded(source, m) {
            LiveAction::Transfer
        } else {
            LiveAction::Ignore
        },
        UpdateView::Other => LiveAction::Ignore,
    }
}

/// Decides what to do with one update from the stream: see [`live_action`].
pub fn live_step(source: &str, update: &Update) -> (action: LiveAction)
    ensures
        action == live_action(source@, update@),
{
    match update {
        Update::NewMessage(m) => {
            if m.outgoing {
                return LiveAction::Ignore;
            }
            let from_source: bool = match &m.channel {
                Some(handle) => same_text(handle.as_str(), source),
                None => false,
            };
            if !from_source {
                return LiveAction::Ignore;
            }
            match &m.media {
                Some(media) => if is_eligible(media) {
                    LiveAction::Transfer
                } else {
                    LiveAction::Ignore
                },
                None => LiveAction::Ignore,
            }
        },
        Update::Other => LiveAction::Ignore,
    }
}

} // verus!

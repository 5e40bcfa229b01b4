//! The backfill scan: replays the history of the source, in ascending order
//! of identifier, from the watermark that the destination holds.
//!
//! The scan is a machine that the caller drives. The caller searches the
//! destination for the most recent marker, lists the source's history, runs
//! the transfer pipeline and sleeps; after each of these it reports back and
//! is told what to do next. One item is in flight at a time, and a failed
//! item does not stop the scan.

use crate::marker::{encode, marker_text, recover, recovered_watermark};
use crate::media::{text_view, MediaDescriptor, MediaView};
use crate::transfer::TransferResult;
use vstd::prelude::*;

verus! {

/// One message of a channel, as far as the mirror reads it.
#[derive(Clone, Debug)]
pub struct SourceMessage {
    /// The identifier, ascending within its chat.
    pub id: i32,
    /// Whether this account sent the message.
    pub outgoing: bool,
    /// The public handle of the channel it came from, if it came from one
    /// that has a handle.
    pub channel: Option<String>,
    /// Its attachment, if it carries one.
    pub media: Option<MediaDescriptor>,
}

/// A source message as plain values.
pub struct SourceMessageView {
    pub id: int,
    pub outgoing: bool,
    pub channel: Option<Seq<char>>,
    pub media: Option<MediaView>,
}

impl View for SourceMessage {
    type V = SourceMessageView;

    open spec fn view(&self) -> SourceMessageView {
        SourceMessageView {
            id: self.id as int,
            outgoing: self.outgoing,
            channel: text_view(self.channel),
            media: match self.media {
                Some(m) => Some(m@),
                None => None,
            },
        }
    }
}

/// The seconds to rest after each item, to stay under the platform's rate
/// limits.
pub const PAUSE_SECONDS: u64 = 5;

/// What the scan is waiting for.
#[derive(Clone, Copy, Debug, PartialEq, Eq, Structural)]
pub enum ScanState {
    /// The most recent marker of the destination.
    Recovering,
    /// The next message of the source after `after`.
    Listing { after: i32 },
    /// The result of the transfer of message `id`.
    Transferring { id: i32 },
    /// The end of the rest that follows message `after`.
    Resting { after: i32 },
    /// Nothing: the history is exhausted.
    Exhausted,
}

/// What the caller reports.
#[derive(Debug)]
pub enum ScanEvent {
    /// The text of the most recent message of the destination that matched
    /// the marker search, if any did.
    Marker(Option<String>),
    /// The next message of the history, or its end.
    Message(Option<SourceMessage>),
    /// How the transfer ended.
    Transferred(TransferResult),
    /// The rest is over.
    Rested,
}

/// What the caller is to do next.
#[derive(Debug, PartialEq, Eq)]
pub enum ScanAction {
    /// Search the destination for the most recent marker.
    FindMarker,
    /// Fetch the next document message of the source with an identifier
    /// above `after`.
    NextMessage { after: i32 },
    /// Run the transfer pipeline on the attachment of the message just
    /// reported, with this caption.
    Transfer { caption: String },
    /// Sleep.
    Rest { seconds: u64 },
    /// End the scan.
    Stop,
}

/// A scan event as plain values.
pub enum ScanEventView {
    Marker(Option<Seq<char>>),
    Message(Option<SourceMessageView>),
    Transferred(TransferResult),
    Rested,
}

/// A scan action as plain values.
pub enum ScanActionView {
    FindMarker,
    NextMessage { after: int },
    Transfer { caption: Seq<char> },
    Rest { seconds: int },
    Stop,
}

impl View for ScanEvent {
    type V = ScanEventView;

    open spec fn view(&self) -> ScanEventView {
        match *self {
            ScanEvent::Marker(latest) => ScanEventView::Marker(text_view(latest)),
            ScanEvent::Message(Some(m)) => ScanEventView::Message(Some(m@)),
            ScanEvent::Message(None) => ScanEventView::Message(None),
            ScanEvent::Transferred(r) => ScanEventView::Transferred(r),
            ScanEvent::Rested => ScanEventView::Rested,
        }
    }
}

impl View for ScanAction {
    type V = ScanActionView;

    open spec fn view(&self) -> ScanActionView {
        match *self {
            ScanAction::FindMarker => ScanActionView::FindMarker,
            ScanAction::NextMessage { after } => ScanActionView::NextMessage {
                after: after as int,
            },
            ScanAction::Transfer { caption } => ScanActionView::Transfer { caption: caption@ },
            ScanAction::Rest { seconds } => ScanActionView::Rest { seconds: seconds as int },
            ScanAction::Stop => ScanActionView::Stop,
        }
    }
}

/// The state that follows `state` on `event`.
///
/// The recovered watermark opens the listing. A listed message above the
/// cursor that carries an attachment is transferred; any other listed message
/// is passed over, and the cursor never moves down. Whatever the transfer's
/// result, the scan rests and then lists on from that message. The end of the
/// history, and an event that the state does not wait for, end the scan.
pub open spec fn scan_next(state: ScanState, event: ScanEventView) -> ScanState {
    match (state, event) {
        (ScanState::Recovering, ScanEventView::Marker(latest)) => ScanState::Listing {
            after: recovered_watermark(latest) as i32,
        },
        (ScanState::Listing { after }, ScanEventView::Message(Some(m))) => if m.id > after {
            if m.media is Some {
                ScanState::Transferring { id: m.id as i32 }
            } else {
                ScanState::Listing { after: m.id as i32 }
            }
        } else {
            ScanState::Listing { after }
        },
        (ScanState::Transferring { id }, ScanEventView::Transferred(_)) => ScanState::Resting {
            after: id,
        },
        (ScanState::Resting { after }, ScanEventView::Rested) => ScanState::Listing { after },
        _ => ScanState::Exhausted,
    }
}

/// The action that goes with a step into `next` on `event`: what the new
/// state waits for. The caption of a transfer is the marker of the message.
pub open spec fn scan_action(next: ScanState) -> ScanActionView {
    match next {
        ScanState::Recovering => ScanActionView::FindMarker,
        ScanState::Listing { after } => ScanActionView::NextMessage { after: after as int },
        ScanState::Transferring { id } => ScanActionView::Transfer {
            caption: marker_text(id as int),
        },
        ScanState::Resting { after } => ScanActionView::Rest { seconds: PAUSE_SECONDS as int },
        ScanState::Exhausted => ScanActionView::Stop,
    }
}

/// Where a scan starts: it asks for the destination's most recent marker.
pub fn scan_start() -> (started: (ScanState, ScanAction))
    ensures
        started.0 == ScanState::Recovering,
        started.1@ == scan_action(started.0),
{
    (ScanState::Recovering, ScanAction::FindMarker)
}

fn action_into(next: ScanState) -> (action: ScanAction)
    ensures
        action@ == scan_action(next),
{
    match next {
        ScanState::Recovering => ScanAction::FindMarker,
        ScanState::Listing { after } => ScanAction::NextMessage { after },
        ScanState::Transferring { id } => ScanAction::Transfer { caption: encode(id) },
        ScanState::Resting { after: _ } => ScanAction::Rest { seconds: PAUSE_SECONDS },
        ScanState::Exhausted => ScanAction::Stop,
    }
}

/// One step of the scan: the state that follows `state` on `event`, and what
/// the caller is to do next. See [`scan_next`] and [`scan_action`].
pub fn scan_step(state: ScanState, event: &ScanEvent) -> (step: (ScanState, ScanAction))
    ensures
        step.0 == scan_next(state, event@),
        step.1@ == scan_action(step.0),
{
    let next: ScanState = match state {
        ScanState::Recovering => match event {
            ScanEvent::Marker(Some(text)) => ScanState::Listing {
                after: recover(Some(text.as_str())),
            },
            ScanEvent::Marker(None) => ScanState::Listing { after: recover(None) },
            _ => ScanState::Exhausted,
        },
        ScanState::Listing { after } => match event {
            ScanEvent::Message(Some(m)) => if m.id > after {
                if m.media.is_some() {
                    ScanState::Transferring { id: m.id }
                } else {
                    ScanState::Listing { after: m.id }
                }
            } else {
                ScanState::Listing { after }
            },
            _ => ScanState::Exhausted,
        },
        ScanState::Transferring { id } => match event {
            ScanEvent::Transferred(_) => ScanState::Resting { after: id },
            _ => ScanState::Exhausted,
        },
        ScanState::Resting { after } => match event {
            ScanEvent::Rested => ScanState::Listing { after },
            _ => ScanState::Exhausted,
        },
        ScanState::Exhausted => ScanState::Exhausted,
    };
    (next, action_into(next))
}

} // verus!

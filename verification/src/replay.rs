//! A whole backfill scan against a destination, as a model, and what holds
//! of it.
//!
//! The destination is the sequence of the texts of its messages, oldest
//! first. A scan is the scan machine folded over the source's history. For
//! each message the model is given what its transfer met: whether a local
//! name could be made, and how each action ended. The transfer pipeline is
//! driven through that; where the publish went through, the caption is
//! appended to the destination.

use crate::backfill::{
    scan_action, scan_next, ScanActionView, ScanEventView, ScanState, SourceMessageView,
};
use crate::marker::{marker_prefix, marker_round_trip, marker_text, recovered_watermark};
use crate::media::eligible;
use crate::transfer::{
    cleanup_follows_result, initial_state, run, untouched, TransferResult, TransferState,
};
use vstd::prelude::*;

verus! {

/// Whether the marker search finds a text: it holds `id=` somewhere.
pub open spec fn carries_marker(text: Seq<char>) -> bool {
    exists|i: int| 0 <= i <= text.len() - 3 && #[trigger] text.subrange(i, i + 3) == marker_prefix()
}

/// The most recent text of the destination that the marker search finds.
pub open spec fn latest_marker(dest: Seq<Seq<char>>) -> Option<Seq<char>>
    decreases dest.len(),
{
    if dest.len() == 0 {
        None
    } else if carries_marker(dest.last()) {
        Some(dest.last())
    } else {
        latest_marker(dest.drop_last())
    }
}

/// The watermark that a recovery reads from the destination.
pub open spec fn recovered(dest: Seq<Seq<char>>) -> int {
    recovered_watermark(latest_marker(dest))
}

/// The identifiers fit a message identifier.
pub open spec fn in_range(msgs: Seq<SourceMessageView>) -> bool {
    forall|i: int| 0 <= i < msgs.len() ==> i32::MIN <= (#[trigger] msgs[i]).id <= i32::MAX
}

/// The history comes in strictly ascending order of identifier.
pub open spec fn ascending(msgs: Seq<SourceMessageView>) -> bool {
    forall|i: int, j: int| 0 <= i < j < msgs.len() ==> (#[trigger] msgs[i]).id < (#[trigger] msgs[j]).id
}

/// Whether a message carries an eligible attachment.
pub open spec fn carries_eligible(m: SourceMessageView) -> bool {
    match m.media {
        Some(media) => eligible(media),
        None => false,
    }
}

/// What the transfer of one attachment meets.
pub struct Attempt {
    /// Whether a local name could be made for the copy.
    pub named: bool,
    /// How each action ended, in order.
    pub outcomes: Seq<bool>,
}

/// Whether the transfer of `m`'s attachment, driven through `met`, put its
/// message into the destination.
pub open spec fn delivered(m: SourceMessageView, met: Attempt) -> bool {
    match m.media {
        Some(media) => run(
            initial_state(media, met.named),
            untouched(),
            met.outcomes,
        ).1.published,
        None => false,
    }
}

/// The result that the transfer of `m`'s attachment reports once it has been
/// driven through `met`.
pub open spec fn result_of(m: SourceMessageView, met: Attempt) -> TransferResult {
    match m.media {
        Some(media) => match run(initial_state(media, met.named), untouched(), met.outcomes).0 {
            TransferState::Finished(result) => result,
            _ => TransferResult::Failed,
        },
        None => TransferResult::Skipped,
    }
}

/// The state of the scan once message `m` has been listed and, where the scan
/// asked for it, transferred with `result` and rested after.
pub open spec fn after_message(state: ScanState, m: SourceMessageView, result: TransferResult)
    -> ScanState {
    let next = scan_next(state, ScanEventView::Message(Some(m)));
    if next is Transferring {
        scan_next(scan_next(next, ScanEventView::Transferred(result)), ScanEventView::Rested)
    } else {
        next
    }
}

/// The state of a scan that started listing at watermark `w` and has gone
/// through `msgs`.
pub open spec fn scan_state(
    w: int,
    msgs: Seq<SourceMessageView>,
    outcomes: Seq<Attempt>,
) -> ScanState
    decreases msgs.len(),
{
    if msgs.len() == 0 || outcomes.len() != msgs.len() {
        ScanState::Listing { after: w as i32 }
    } else {
        after_message(
            scan_state(w, msgs.drop_last(), outcomes.drop_last()),
            msgs.last(),
            result_of(msgs.last(), outcomes.last()),
        )
    }
}

/// What a scan from watermark `w` through `msgs` appends to the destination:
/// the caption of every transfer that the scan asked for and whose publish
/// went through.
pub open spec fn published(
    w: int,
    msgs: Seq<SourceMessageView>,
    outcomes: Seq<Attempt>,
) -> Seq<Seq<char>>
    decreases msgs.len(),
{
    if msgs.len() == 0 || outcomes.len() != msgs.len() {
        Seq::empty()
    } else {
        let head = published(w, msgs.drop_last(), outcomes.drop_last());
        let state = scan_state(w, msgs.drop_last(), outcomes.drop_last());
        match scan_action(scan_next(state, ScanEventView::Message(Some(msgs.last())))) {
            ScanActionView::Transfer { caption } => if delivered(msgs.last(), outcomes.last()) {
                head.push(caption)
            } else {
                head
            },
            _ => head,
        }
    }
}

/// Whether message `i` is mirrored by a scan from watermark `w`: it lies above
/// the watermark and the transfer of its attachment published it.
pub open spec fn mirrored_at(
    w: int,
    msgs: Seq<SourceMessageView>,
    outcomes: Seq<Attempt>,
    i: int,
) -> bool {
    &&& 0 <= i < msgs.len()
    &&& i < outcomes.len()
    &&& msgs[i].id > w
    &&& delivered(msgs[i], outcomes[i])
}

/// The markers of the mirrored messages, in the order of the history.
pub open spec fn mirrored_markers(
    w: int,
    msgs: Seq<SourceMessageView>,
    outcomes: Seq<Attempt>,
) -> Seq<Seq<char>>
    decreases msgs.len(),
{
    if msgs.len() == 0 || outcomes.len() != msgs.len() {
        Seq::empty()
    } else {
        let head = mirrored_markers(w, msgs.drop_last(), outcomes.drop_last());
        if mirrored_at(w, msgs, outcomes, msgs.len() - 1) {
            head.push(marker_text(msgs.last().id))
        } else {
            head
        }
    }
}

proof fn lemma_prefix_keeps(msgs: Seq<SourceMessageView>)
    requires
        msgs.len() > 0,
        ascending(msgs),
        in_range(msgs),
    ensures
        ascending(msgs.drop_last()),
        in_range(msgs.drop_last()),
{
    let prefix = msgs.drop_last();
    assert forall|i: int, j: int| 0 <= i < j < prefix.len() implies (#[trigger] prefix[i]).id < (
    #[trigger] prefix[j]).id by {
        assert(prefix[i] == msgs[i] && prefix[j] == msgs[j]);
    }
    assert forall|i: int| 0 <= i < prefix.len() implies i32::MIN <= (#[trigger] prefix[i]).id
        <= i32::MAX by {
        assert(prefix[i] == msgs[i]);
    }
}

/// The cursor of the scan after `msgs`: the watermark, or the last
/// identifier where that is higher.
pub open spec fn cursor(w: int, msgs: Seq<SourceMessageView>) -> int {
    if msgs.len() > 0 && msgs.last().id > w {
        msgs.last().id
    } else {
        w
    }
}

proof fn lemma_scan_state(w: int, msgs: Seq<SourceMessageView>, outcomes: Seq<Attempt>)
    requires
        0 <= w <= i32::MAX,
        ascending(msgs),
        in_range(msgs),
        outcomes.len() == msgs.len(),
    ensures
        scan_state(w, msgs, outcomes) == (ScanState::Listing { after: cursor(w, msgs) as i32 }),
        0 <= cursor(w, msgs) <= i32::MAX,
    decreases msgs.len(),
{
    if msgs.len() > 0 {
        let prefix = msgs.drop_last();
        lemma_prefix_keeps(msgs);
        lemma_scan_state(w, prefix, outcomes.drop_last());
        let m = msgs.last();
        assert(m == msgs[msgs.len() - 1]);
        if prefix.len() > 0 {
            assert(prefix.last() == msgs[msgs.len() - 2]);
            assert(msgs[msgs.len() - 2].id < msgs[msgs.len() - 1].id);
        }
    }
}

proof fn lemma_published(w: int, msgs: Seq<SourceMessageView>, outcomes: Seq<Attempt>)
    requires
        0 <= w <= i32::MAX,
        ascending(msgs),
        in_range(msgs),
        outcomes.len() == msgs.len(),
    ensures
        published(w, msgs, outcomes) == mirrored_markers(w, msgs, outcomes),
    decreases msgs.len(),
{
    if msgs.len() > 0 {
        let prefix = msgs.drop_last();
        lemma_prefix_keeps(msgs);
        lemma_published(w, prefix, outcomes.drop_last());
        lemma_scan_state(w, prefix, outcomes.drop_last());
        let m = msgs.last();
        assert(m == msgs[msgs.len() - 1]);
        assert(outcomes.last() == outcomes[msgs.len() - 1]);
        if prefix.len() > 0 {
            assert(prefix.last() == msgs[msgs.len() - 2]);
            assert(msgs[msgs.len() - 2].id < msgs[msgs.len() - 1].id);
        }
    }
}

proof fn lemma_markers(w: int, msgs: Seq<SourceMessageView>, outcomes: Seq<Attempt>)
    requires
        ascending(msgs),
        outcomes.len() == msgs.len(),
    ensures
        mirrored_markers(w, msgs, outcomes).len() == 0 <==> forall|i: int|
            !#[trigger] mirrored_at(w, msgs, outcomes, i),
        mirrored_markers(w, msgs, outcomes).len() > 0 ==> exists|k: int|
            {
                &&& #[trigger] mirrored_at(w, msgs, outcomes, k)
                &&& mirrored_markers(w, msgs, outcomes).last() == marker_text(msgs[k].id)
                &&& forall|i: int| #[trigger]
                    mirrored_at(w, msgs, outcomes, i) ==> msgs[i].id <= msgs[k].id
            },
    decreases msgs.len(),
{
    if msgs.len() > 0 {
        let prefix = msgs.drop_last();
        let before = outcomes.drop_last();
        let last = msgs.len() - 1;
        assert forall|i: int, j: int| 0 <= i < j < prefix.len() implies (#[trigger] prefix[i]).id < (
        #[trigger] prefix[j]).id by {
            assert(prefix[i] == msgs[i] && prefix[j] == msgs[j]);
        }
        lemma_markers(w, prefix, before);
        assert forall|i: int| 0 <= i < last implies mirrored_at(w, prefix, before, i)
            == mirrored_at(w, msgs, outcomes, i) by {
            assert(prefix[i] == msgs[i]);
            assert(before[i] == outcomes[i]);
        }
        if mirrored_at(w, msgs, outcomes, last) {
            assert forall|i: int| #[trigger]
                mirrored_at(w, msgs, outcomes, i) implies msgs[i].id <= msgs[last].id by {
                if i < last {
                    assert(msgs[i].id < msgs[last].id);
                }
            }
        } else if mirrored_markers(w, prefix, before).len() > 0 {
            let k = choose|k: int|
                {
                    &&& #[trigger] mirrored_at(w, prefix, before, k)
                    &&& mirrored_markers(w, prefix, before).last() == marker_text(prefix[k].id)
                    &&& forall|i: int| #[trigger]
                        mirrored_at(w, prefix, before, i) ==> prefix[i].id <= prefix[k].id
                };
            assert(mirrored_at(w, msgs, outcomes, k));
            assert(prefix[k] == msgs[k]);
            assert forall|i: int| #[trigger]
                mirrored_at(w, msgs, outcomes, i) implies msgs[i].id <= msgs[k].id by {
                assert(i < last);
                assert(mirrored_at(w, prefix, before, i));
                assert(prefix[i] == msgs[i]);
            }
        } else {
            assert forall|i: int| !#[trigger] mirrored_at(w, msgs, outcomes, i) by {
                if 0 <= i < last {
                    assert(!mirrored_at(w, prefix, before, i));
                }
            }
        }
    }
}

proof fn lemma_recovered_after(dest: Seq<Seq<char>>, out: Seq<Seq<char>>, id: int)
    requires
        out.len() > 0,
        out.last() == marker_text(id),
        0 <= id <= i32::MAX,
    ensures
        recovered(dest + out) == id,
{
    let all = dest + out;
    let text = marker_text(id);
    assert(all.last() == text);
    assert(text.len() >= 3);
    let start: int = 0;
    assert(text.subrange(start, start + 3) =~= marker_prefix());
    assert(carries_marker(text));
    marker_round_trip(id as i32);
}

proof fn lemma_delivered(m: SourceMessageView, met: Attempt)
    ensures
        delivered(m, met) ==> carries_eligible(m),
        m.media is Some && result_of(m, met) == TransferResult::Success ==> delivered(m, met),
        !carries_eligible(m) ==> result_of(m, met) == TransferResult::Skipped,
{
    match m.media {
        Some(media) => {
            cleanup_follows_result(media, met.named, met.outcomes);
        },
        None => {},
    }
}

/// A backfill scan mirrors what it should and moves the watermark to the
/// highest mirrored identifier.
///
/// Take a destination, a history in ascending order and, for each of its
/// messages, what its transfer meets, and run a
/// scan from the watermark `w` that the destination holds. Then what the scan
/// appends is exactly the markers of the messages above `w` whose transfer
/// published them, in order. Only eligible attachments are among them, and
/// every one whose transfer reported success; where every eligible
/// attachment above `w` is transferred with success, they are exactly the
/// eligible messages above `w`. A recovery afterwards gives the highest
/// identifier among the mirrored, and `w` again where there is none: the
/// watermark never moves down.
pub proof fn scan_mirrors_and_advances(
    dest: Seq<Seq<char>>,
    msgs: Seq<SourceMessageView>,
    outcomes: Seq<Attempt>,
)
    requires
        ascending(msgs),
        in_range(msgs),
        outcomes.len() == msgs.len(),
    ensures
        ({
            let w = recovered(dest);
            let out = published(w, msgs, outcomes);
            let after = recovered(dest + out);
            &&& out == mirrored_markers(w, msgs, outcomes)
            &&& forall|i: int| #[trigger]
                mirrored_at(w, msgs, outcomes, i) ==> carries_eligible(msgs[i])
            &&& forall|i: int|
                0 <= i < msgs.len() && msgs[i].id > w && msgs[i].media is Some && result_of(
                    msgs[i],
                    outcomes[i],
                ) == TransferResult::Success ==> #[trigger] mirrored_at(w, msgs, outcomes, i)
            &&& (forall|i: int|
                0 <= i < msgs.len() && msgs[i].id > w && carries_eligible(#[trigger] msgs[i])
                    ==> result_of(msgs[i], outcomes[i]) == TransferResult::Success) ==> forall|
                i: int,
            |
                0 <= i < msgs.len() ==> #[trigger] mirrored_at(w, msgs, outcomes, i) == (msgs[i].id
                    > w && carries_eligible(msgs[i]))
            &&& after >= w
            &&& forall|i: int| #[trigger] mirrored_at(w, msgs, outcomes, i) ==> msgs[i].id <= after
            &&& (forall|i: int| !#[trigger] mirrored_at(w, msgs, outcomes, i)) ==> after == w
            &&& (exists|i: int| #[trigger] mirrored_at(w, msgs, outcomes, i)) ==> exists|k: int|
                #[trigger] mirrored_at(w, msgs, outcomes, k) && after == msgs[k].id
        }),
{
    let w = recovered(dest);
    let out = published(w, msgs, outcomes);
    lemma_published(w, msgs, outcomes);
    lemma_markers(w, msgs, outcomes);
    assert forall|i: int| 0 <= i < msgs.len() implies (delivered(msgs[i], outcomes[i])
        ==> carries_eligible(msgs[i])) && (msgs[i].media is Some && result_of(
        msgs[i],
        outcomes[i],
    ) == TransferResult::Success ==> delivered(#[trigger] msgs[i], outcomes[i])) by {
        lemma_delivered(msgs[i], outcomes[i]);
    }
    if out.len() > 0 {
        let k = choose|k: int|
            {
                &&& #[trigger] mirrored_at(w, msgs, outcomes, k)
                &&& mirrored_markers(w, msgs, outcomes).last() == marker_text(msgs[k].id)
                &&& forall|i: int| #[trigger]
                    mirrored_at(w, msgs, outcomes, i) ==> msgs[i].id <= msgs[k].id
            };
        lemma_recovered_after(dest, out, msgs[k].id);
    } else {
        assert(dest + out =~= dest);
    }
}

/// A second scan with nothing new in the source transfers nothing.
///
/// Run a scan, recover the watermark, and run a second scan over the same
/// history, whatever its transfers would meet. Provided that every
/// eligible attachment that the first scan did not publish lies at or below
/// the watermark it left, every attachment that the second scan looks at is
/// skipped by the filter, nothing is published, and the watermark stays.
/// (A transfer that failed above the last published message is not behind
/// the watermark, and a second scan tries it again.)
pub proof fn rescan_transfers_nothing(
    dest: Seq<Seq<char>>,
    msgs: Seq<SourceMessageView>,
    first: Seq<Attempt>,
    second: Seq<Attempt>,
)
    requires
        ascending(msgs),
        in_range(msgs),
        first.len() == msgs.len(),
        second.len() == msgs.len(),
        forall|i: int|
            0 <= i < msgs.len() && carries_eligible(#[trigger] msgs[i]) && !delivered(
                msgs[i],
                first[i],
            ) ==> msgs[i].id <= recovered(dest + published(recovered(dest), msgs, first)),
    ensures
        ({
            let between = dest + published(recovered(dest), msgs, first);
            let w = recovered(between);
            &&& forall|i: int|
                0 <= i < msgs.len() && (#[trigger] msgs[i]).id > w ==> !carries_eligible(msgs[i])
                    && result_of(msgs[i], second[i]) == TransferResult::Skipped
            &&& published(w, msgs, second) == Seq::<Seq<char>>::empty()
            &&& recovered(between + published(w, msgs, second)) == w
        }),
{
    let w0 = recovered(dest);
    let between = dest + published(w0, msgs, first);
    let w = recovered(between);
    scan_mirrors_and_advances(dest, msgs, first);
    assert forall|i: int| 0 <= i < msgs.len() && (#[trigger] msgs[i]).id > w implies
        !carries_eligible(msgs[i]) && result_of(msgs[i], second[i])
        == TransferResult::Skipped by {
        assert(!mirrored_at(w0, msgs, first, i));
        lemma_delivered(msgs[i], second[i]);
    }
    assert forall|i: int| !#[trigger] mirrored_at(w, msgs, second, i) by {
        if mirrored_at(w, msgs, second, i) {
            assert(msgs[i].id > w);
            lemma_delivered(msgs[i], second[i]);
        }
    }
    lemma_published(w, msgs, second);
    lemma_markers(w, msgs, second);
    assert(published(w, msgs, second) =~= Seq::<Seq<char>>::empty());
    assert(between + published(w, msgs, second) =~= between);
}

} // verus!

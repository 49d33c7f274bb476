//! Requests the player makes to the repository.

use vstd::prelude::*;
use crate::cli::PlaybackOrder;

verus! {

/// Which working-tree changes a diff replays.
#[derive(Debug, Clone, Copy, PartialEq, Eq, Structural)]
pub enum DiffMode {
    Staged,
    Unstaged,
}

/// A request for the next commit to play.
#[derive(Debug, PartialEq, Eq)]
pub enum CommitRequest {
    /// A random commit of the history.
    Random,
    /// The next commit, oldest first.
    NextAsc,
    /// The next commit, newest first.
    NextDesc,
    /// A random commit of the selected range.
    RandomInRange,
    /// The next commit of the range, oldest first.
    NextInRangeAsc,
    /// The next commit of the range, newest first.
    NextInRangeDesc,
    /// The commit a hash or reference names.
    Specific(String),
}

/// Mathematical form of a request.
pub enum CommitRequestView {
    Random,
    NextAsc,
    NextDesc,
    RandomInRange,
    NextInRangeAsc,
    NextInRangeDesc,
    Specific(Seq<char>),
}

impl View for CommitRequest {
    type V = CommitRequestView;

    open spec fn view(&self) -> CommitRequestView {
        match self {
            CommitRequest::Random => CommitRequestView::Random,
            CommitRequest::NextAsc => CommitRequestView::NextAsc,
            CommitRequest::NextDesc => CommitRequestView::NextDesc,
            CommitRequest::RandomInRange => CommitRequestView::RandomInRange,
            CommitRequest::NextInRangeAsc => CommitRequestView::NextInRangeAsc,
            CommitRequest::NextInRangeDesc => CommitRequestView::NextInRangeDesc,
            CommitRequest::Specific(s) => CommitRequestView::Specific(s@),
        }
    }
}

/// The request for playback in `order`, within the selected range or over
/// the whole history.
pub open spec fn order_request(order: PlaybackOrder, in_range: bool) -> CommitRequestView {
    match (order, in_range) {
        (PlaybackOrder::Random, true) => CommitRequestView::RandomInRange,
        (PlaybackOrder::Asc, true) => CommitRequestView::NextInRangeAsc,
        (PlaybackOrder::Desc, true) => CommitRequestView::NextInRangeDesc,
        (PlaybackOrder::Random, false) => CommitRequestView::Random,
        (PlaybackOrder::Asc, false) => CommitRequestView::NextAsc,
        (PlaybackOrder::Desc, false) => CommitRequestView::NextDesc,
    }
}

/// `order_request` computed.
pub fn request_for_order(order: PlaybackOrder, in_range: bool) -> (r: CommitRequest)
    ensures
        r@ == order_request(order, in_range),
{
    match (order, in_range) {
        (PlaybackOrder::Random, true) => CommitRequest::RandomInRange,
        (PlaybackOrder::Asc, true) => CommitRequest::NextInRangeAsc,
        (PlaybackOrder::Desc, true) => CommitRequest::NextInRangeDesc,
        (PlaybackOrder::Random, false) => CommitRequest::Random,
        (PlaybackOrder::Asc, false) => CommitRequest::NextAsc,
        (PlaybackOrder::Desc, false) => CommitRequest::NextDesc,
    }
}

} // verus!

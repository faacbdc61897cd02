//! The sources that the library brings along. They differ in their kind
//! alone.

pub mod network;
pub mod rtt;
pub mod serial;

pub use network::NetworkSource;
pub use rtt::RttSource;
pub use serial::SerialSource;

use crate::model::traits::SourceModel;
use crate::model::types::{SourceKind, StatusView};
use vstd::prelude::*;

verus! {

/// A source as it is made: stopped, and bound to no channel.
pub open spec fn fresh_source(id: Seq<char>, label: Seq<char>, kind: SourceKind) -> SourceModel {
    SourceModel { id, label, kind, status: StatusView::Stopped, sender: None }
}

/// The source after `start`.
pub open spec fn started(source: SourceModel) -> SourceModel {
    SourceModel { status: StatusView::Running, ..source }
}

/// The source after `stop`.
pub open spec fn stopped(source: SourceModel) -> SourceModel {
    SourceModel { status: StatusView::Stopped, ..source }
}

/// A source that is started and then stopped is stopped, holds no
/// transport, and is what stopping alone would have made of it.
pub proof fn lemma_stop_after_start(source: SourceModel)
    ensures
        stopped(started(source)).status == StatusView::Stopped,
        !stopped(started(source)).holds_transport(),
        stopped(started(source)) == stopped(source),
{
}

/// To stop a stopped source changes nothing.
pub proof fn lemma_stop_is_idempotent(source: SourceModel)
    ensures
        stopped(stopped(source)) == stopped(source),
        source.status == StatusView::Stopped ==> stopped(source) == source,
{
}

} // verus!

//! The contract of a source: a long-lived producer of packets that is
//! started and stopped.

use crate::model::types::{DataPacket, SourceInfoView, SourceKind, SourceStatus, StatusView};
use std::sync::mpsc::Sender;
use vstd::prelude::*;

verus! {

/// `std::sync::mpsc::Sender`, the sending half of a channel. A source keeps
/// the one it is given; the library makes no call on it and claims nothing of
/// it.
#[verifier::external_type_specification]
#[verifier::external_body]
#[verifier::reject_recursive_types(T)]
pub struct ExSender<T>(Sender<T>);

/// What there is to know of a source.
pub struct SourceModel {
    pub id: Seq<char>,
    pub label: Seq<char>,
    pub kind: SourceKind,
    pub status: StatusView,
    pub sender: Option<Sender<DataPacket>>,
}

impl SourceModel {
    /// The source as the manager lists it.
    pub open spec fn info(self) -> SourceInfoView {
        SourceInfoView { id: self.id, label: self.label, kind: self.kind, status: self.status }
    }

    /// A source holds its transport while it runs, and at no other time.
    pub open spec fn holds_transport(self) -> bool {
        self.status is Running
    }
}

/// What `start` and `stop` may do to a source. Id, label, kind and channel
/// stay. On success the source stands at `goal`; on failure its status holds
/// the reason that the caller is given.
pub open spec fn lifecycle_step(
    before: SourceModel,
    after: SourceModel,
    result: Result<(), String>,
    goal: StatusView,
) -> bool {
    &&& after.id == before.id
    &&& after.label == before.label
    &&& after.kind == before.kind
    &&& after.sender == before.sender
    &&& match result {
        Ok(_) => after.status == goal,
        Err(reason) => after.status == StatusView::Error(reason@),
    }
}

/// A source of packets. Once started it hands what it produces to the
/// channel it was given.
pub trait DataSource: Send {
    spec fn model(&self) -> SourceModel;

    fn id(&self) -> (id: &str)
        ensures
            id@ == self.model().id,
    ;

    fn label(&self) -> (label: &str)
        ensures
            label@ == self.model().label,
    ;

    fn kind(&self) -> (kind: SourceKind)
        ensures
            kind == self.model().kind,
    ;

    fn status(&self) -> (status: SourceStatus)
        ensures
            status@ == self.model().status,
    ;

    /// Takes the transport and begins to produce.
    fn start(&mut self) -> (result: Result<(), String>)
        ensures
            lifecycle_step(old(self).model(), final(self).model(), result, StatusView::Running),
    ;

    /// Ends production and gives the transport back. A stopped source stays
    /// as it is.
    fn stop(&mut self) -> (result: Result<(), String>)
        ensures
            lifecycle_step(old(self).model(), final(self).model(), result, StatusView::Stopped),
    ;

    /// Binds what the source produces from now on to `sender`.
    fn set_sender(&mut self, sender: Sender<DataPacket>)
        ensures
            final(self).model() == (SourceModel { sender: Some(sender), ..old(self).model() }),
    ;
}

} // verus!

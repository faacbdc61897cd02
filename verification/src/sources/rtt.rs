//! The source behind a real-time trace session.

use crate::model::traits::{DataSource, SourceModel};
use crate::model::types::{DataPacket, SourceKind, SourceStatus};
use crate::sources::{fresh_source, started, stopped};
use std::sync::mpsc::Sender;
use vstd::prelude::*;

verus! {

pub struct RttSource {
    id: String,
    label: String,
    status: SourceStatus,
    sender: Option<Sender<DataPacket>>,
}

impl RttSource {
    pub fn new(id: &str, label: &str) -> (source: Self)
        ensures
            source.model() == fresh_source(id@, label@, SourceKind::Rtt),
    {
        RttSource {
            id: id.to_owned(),
            label: label.to_owned(),
            status: SourceStatus::Stopped,
            sender: None,
        }
    }
}

impl DataSource for RttSource {
    closed spec fn model(&self) -> SourceModel {
        SourceModel {
            id: self.id@,
            label: self.label@,
            kind: SourceKind::Rtt,
            status: self.status@,
            sender: self.sender,
        }
    }

    fn id(&self) -> (id: &str) {
        self.id.as_str()
    }

    fn label(&self) -> (label: &str) {
        self.label.as_str()
    }

    fn kind(&self) -> (kind: SourceKind) {
        SourceKind::Rtt
    }

    fn status(&self) -> (status: SourceStatus) {
        self.status.clone()
    }

    fn start(&mut self) -> (result: Result<(), String>)
        ensures
            result is Ok,
            final(self).model() == started(old(self).model()),
    {
        self.status = SourceStatus::Running;
        Ok(())
    }

    fn stop(&mut self) -> (result: Result<(), String>)
        ensures
            result is Ok,
            final(self).model() == stopped(old(self).model()),
    {
        self.status = SourceStatus::Stopped;
        Ok(())
    }

    fn set_sender(&mut self, sender: Sender<DataPacket>) {
        self.sender = Some(sender);
    }
}

} // verus!

//! The stream manager: it owns the sources and the pipelines, binds each
//! source to at most one pipeline, and routes what is ingested for a source
//! through the pipeline bound to it.

use crate::model::traits::{lifecycle_step, DataSource, SourceModel};
use crate::model::types::{
    DataPacket, ItemView, ParserDescriptor, PipelineItem, SourceInfo, SourceInfoView, SourceKind,
    SourceStatus, StatusView,
};
use crate::model::vecs::{push_last, put_at};
use crate::pipeline::demo::{demo_pipeline, is_demo_pipeline};
use crate::pipeline::pipeline::{pipeline_yields, Pipeline, PipelineView};
use crate::pipeline::text::strings::same_text;
use crate::services::registry::{catalog, ParserRegistry};
use crate::sources::{fresh_source, NetworkSource, RttSource, SerialSource};
use vstd::hash_map::StringHashMap;
use vstd::prelude::*;

verus! {

/// Owns sources and pipelines and the binding between them.
///
/// The sources stand in the order in which they were added. No two of them
/// share an id.
pub struct StreamManager {
    sources: Vec<Box<dyn DataSource>>,
    pipelines: StringHashMap<Pipeline>,
    source_pipelines: StringHashMap<String>,
    registry: ParserRegistry,
}

/// The model of a [`StreamManager`].
pub struct ManagerView {
    /// The sources, in the order in which they were added.
    pub sources: Seq<SourceModel>,
    /// The pipelines, by their ids.
    pub pipelines: Map<Seq<char>, PipelineView>,
    /// For each bound source, by its id, the id of its pipeline.
    pub bindings: Map<Seq<char>, Seq<char>>,
}

impl ManagerView {
    /// A source goes by `id`.
    pub open spec fn has_source(self, id: Seq<char>) -> bool {
        exists|i: int| 0 <= i < self.sources.len() && (#[trigger] self.sources[i]).id == id
    }

    /// Where the source that goes by `id` stands.
    pub open spec fn source_index(self, id: Seq<char>) -> int {
        choose|i: int| 0 <= i < self.sources.len() && (#[trigger] self.sources[i]).id == id
    }

    /// No two sources share an id.
    pub open spec fn distinct_ids(self) -> bool {
        forall|i: int, j: int|
            0 <= i < j < self.sources.len() ==> (#[trigger] self.sources[i]).id != (
            #[trigger] self.sources[j]).id
    }

    /// What holds of every manager: no two sources share an id; only sources
    /// that there are are bound; a bound source is bound to a pipeline that
    /// there is; and each pipeline stands under its own id.
    pub open spec fn consistent(self) -> bool {
        &&& self.distinct_ids()
        &&& forall|id: Seq<char>| #[trigger] self.bindings.contains_key(id) ==> self.has_source(id)
        &&& forall|id: Seq<char>| #[trigger]
            self.bindings.contains_key(id) ==> self.pipelines.contains_key(self.bindings[id])
        &&& forall|id: Seq<char>| #[trigger]
            self.pipelines.contains_key(id) ==> self.pipelines[id].id == id
    }
}

impl View for StreamManager {
    type V = ManagerView;

    closed spec fn view(&self) -> ManagerView {
        ManagerView {
            sources: Seq::new(self.sources@.len(), |i: int| self.sources@[i].model()),
            pipelines: Map::new(
                |id: Seq<char>| self.pipelines@.contains_key(id),
                |id: Seq<char>| self.pipelines@[id]@,
            ),
            bindings: Map::new(
                |id: Seq<char>| self.source_pipelines@.contains_key(id),
                |id: Seq<char>| self.source_pipelines@[id]@,
            ),
        }
    }
}

/// The manager after `source` was added: it stands in place of the source
/// that went by its id, or last where there was none.
pub open spec fn with_source(manager: ManagerView, source: SourceModel) -> ManagerView {
    ManagerView {
        sources: if manager.has_source(source.id) {
            manager.sources.update(manager.source_index(source.id), source)
        } else {
            manager.sources.push(source)
        },
        ..manager
    }
}

/// What `start_source` and `stop_source` do. Where no source goes by `id`,
/// nothing changes and the caller is told so. Else the source is started or
/// stopped, the caller is given what the source said, and nothing else
/// changes.
pub open spec fn source_step(
    before: ManagerView,
    after: ManagerView,
    id: Seq<char>,
    result: Result<(), String>,
    goal: StatusView,
) -> bool {
    if before.has_source(id) {
        let at = before.source_index(id);
        &&& after.pipelines == before.pipelines
        &&& after.bindings == before.bindings
        &&& after.sources.len() == before.sources.len()
        &&& forall|i: int|
            0 <= i < before.sources.len() && i != at ==> #[trigger] after.sources[i]
                == before.sources[i]
        &&& lifecycle_step(before.sources[at], after.sources[at], result, goal)
    } else {
        &&& after == before
        &&& result matches Err(message)
        &&& message@ == source_not_found(id)
    }
}

/// The manager after the pipeline was attached to the source that goes by
/// `source_id`: the pipeline stands under its id, in place of any that stood
/// there, and the source is bound to it and to no other.
pub open spec fn attached(
    manager: ManagerView,
    source_id: Seq<char>,
    pipeline: PipelineView,
) -> ManagerView {
    ManagerView {
        sources: manager.sources,
        pipelines: manager.pipelines.insert(pipeline.id, pipeline),
        bindings: manager.bindings.insert(source_id, pipeline.id),
    }
}

/// The id of the pipeline that the manager makes for a source that is bound
/// to none.
pub open spec fn demo_pipeline_id(source_id: Seq<char>) -> Seq<char> {
    source_id + "_demo"@
}

/// The id of the pipeline that serves the source that goes by `source_id`:
/// the one it is bound to, or the one that is made for it.
pub open spec fn route_of(manager: ManagerView, source_id: Seq<char>) -> Seq<char> {
    if manager.bindings.contains_key(source_id) {
        manager.bindings[source_id]
    } else {
        demo_pipeline_id(source_id)
    }
}

/// What becomes of the manager when something is ingested for the source that
/// goes by `source_id`. A bound source leaves everything as it is. For
/// another the pipeline for it is made, stands under its id in place of any that
/// stood there, and the source is bound to it.
pub open spec fn binding_ensured(
    before: ManagerView,
    after: ManagerView,
    source_id: Seq<char>,
) -> bool {
    if before.bindings.contains_key(source_id) {
        after == before
    } else {
        let id = demo_pipeline_id(source_id);
        &&& after.sources == before.sources
        &&& after.bindings == before.bindings.insert(source_id, id)
        &&& after.pipelines.dom() == before.pipelines.dom().insert(id)
        &&& forall|other: Seq<char>|
            before.pipelines.contains_key(other) && other != id ==> #[trigger] after.pipelines[other]
                == before.pipelines[other]
        &&& is_demo_pipeline(after.pipelines[id], id)
    }
}

/// The sources that the application starts with: one behind the serial
/// port, one behind the trace session and one behind the network, in that
/// order, each stopped and bound to no channel.
pub open spec fn builtin_sources() -> Seq<SourceModel> {
    seq![
        fresh_source("serial"@, "Serial"@, SourceKind::Serial),
        fresh_source("rtt"@, "RTT"@, SourceKind::Rtt),
        fresh_source("network"@, "Network"@, SourceKind::Network),
    ]
}

/// The sources as the manager lists them.
pub open spec fn infos_of(sources: Seq<SourceModel>) -> Seq<SourceInfoView> {
    Seq::new(sources.len(), |i: int| sources[i].info())
}

/// What is said of an id that no source goes by.
pub open spec fn source_not_found(id: Seq<char>) -> Seq<char> {
    "source not found: "@ + id
}

/// What is said of an id that no pipeline goes by.
pub open spec fn pipeline_not_found(id: Seq<char>) -> Seq<char> {
    "pipeline not found: "@ + id
}

fn source_not_found_message(id: &str) -> (message: String)
    ensures
        message@ == source_not_found(id@),
{
    let mut message = "source not found: ".to_owned();
    message.append(id);
    message
}

fn pipeline_not_found_message(id: &str) -> (message: String)
    ensures
        message@ == pipeline_not_found(id@),
{
    let mut message = "pipeline not found: ".to_owned();
    message.append(id);
    message
}

impl StreamManager {
    /// What the manager keeps at all times: see [`ManagerView::consistent`].
    pub closed spec fn wf(&self) -> bool {
        &&& self@.consistent()
        &&& self.registry@ == catalog()
    }

    /// Every manager is consistent.
    pub proof fn lemma_wf_is_consistent(&self)
        requires
            self.wf(),
        ensures
            self@.consistent(),
    {
    }

    /// A manager without sources and pipelines.
    pub fn new() -> (manager: Self)
        ensures
            manager.wf(),
            manager@.sources == Seq::<SourceModel>::empty(),
            manager@.pipelines == Map::<Seq<char>, PipelineView>::empty(),
            manager@.bindings == Map::<Seq<char>, Seq<char>>::empty(),
    {
        let manager = StreamManager {
            sources: Vec::new(),
            pipelines: StringHashMap::new(),
            source_pipelines: StringHashMap::new(),
            registry: ParserRegistry::new(),
        };
        assert(manager@.sources =~= Seq::<SourceModel>::empty());
        assert(manager@.pipelines =~= Map::<Seq<char>, PipelineView>::empty());
        assert(manager@.bindings =~= Map::<Seq<char>, Seq<char>>::empty());
        manager
    }

    /// A manager with the sources that the application starts with, and
    /// without pipelines.
    pub fn with_builtin_sources() -> (manager: Self)
        ensures
            manager.wf(),
            manager@.sources == builtin_sources(),
            manager@.pipelines == Map::<Seq<char>, PipelineView>::empty(),
            manager@.bindings == Map::<Seq<char>, Seq<char>>::empty(),
    {
        let mut manager = StreamManager::new();
        proof {
            reveal_strlit("serial");
            reveal_strlit("rtt");
            reveal_strlit("network");
            assert("serial"@.len() == 6 && "rtt"@.len() == 3 && "network"@.len() == 7);
        }
        manager.add_source(Box::new(SerialSource::new("serial", "Serial")));
        assert(manager@.sources =~= seq![fresh_source("serial"@, "Serial"@, SourceKind::Serial)]);
        manager.add_source(Box::new(RttSource::new("rtt", "RTT")));
        assert(manager@.sources =~= seq![
            fresh_source("serial"@, "Serial"@, SourceKind::Serial),
            fresh_source("rtt"@, "RTT"@, SourceKind::Rtt),
        ]);
        manager.add_source(Box::new(NetworkSource::new("network", "Network")));
        assert(manager@.sources =~= builtin_sources());
        manager
    }

    /// Where the source that goes by `id` stands, if there is one.
    fn find_source(&self, id: &str) -> (found: Option<usize>)
        requires
            self.wf(),
        ensures
            found is Some <==> self@.has_source(id@),
            found matches Some(i) ==> i < self@.sources.len() && self@.sources[i as int].id == id@
                && i == self@.source_index(id@),
    {
        let mut i: usize = 0;
        while i < self.sources.len()
            invariant
                i <= self.sources.len(),
                self.wf(),
                forall|j: int| 0 <= j < i ==> (#[trigger] self@.sources[j]).id != id@,
            decreases self.sources.len() - i,
        {
            if same_text(self.sources[i].id(), id) {
                assert(self@.sources[i as int].id == id@);
                return Some(i);
            }
            i = i + 1;
        }
        None
    }

    /// The sources, in the order in which they were added.
    pub fn list_sources(&self) -> (infos: Vec<SourceInfo>)
        ensures
            infos.deep_view() == infos_of(self@.sources),
    {
        let mut infos: Vec<SourceInfo> = Vec::new();
        let mut i: usize = 0;
        while i < self.sources.len()
            invariant
                i <= self.sources.len(),
                infos.len() == i,
                forall|j: int| 0 <= j < i ==> (#[trigger] infos[j])@ == self@.sources[j].info(),
            decreases self.sources.len() - i,
        {
            let source = &self.sources[i];
            infos.push(
                SourceInfo {
                    id: source.id().to_owned(),
                    label: source.label().to_owned(),
                    kind: source.kind(),
                    status: source.status(),
                },
            );
            i = i + 1;
        }
        assert(infos.deep_view() =~= infos_of(self@.sources));
        infos
    }

    /// Adds `source`. It takes the place of the source that went by its id,
    /// if there was one; a binding of that id stays.
    pub fn add_source(&mut self, source: Box<dyn DataSource>)
        requires
            old(self).wf(),
        ensures
            final(self).wf(),
            final(self)@ == with_source(old(self)@, source.model()),
    {
        let ghost added = source.model();
        let found = self.find_source(source.id());
        match found {
            Some(at) => {
                put_at(source, &mut self.sources, at);
                assert(self@.sources =~= old(self)@.sources.update(at as int, added));
            },
            None => {
                push_last(source, &mut self.sources);
                assert(self@.sources =~= old(self)@.sources.push(added)) by {
                    assert forall|i: int| 0 <= i < old(self).sources@.len() implies self.sources@[i]
                        == old(self).sources@[i] by {
                        assert(self.sources@[i] == self.sources@.drop_last()[i]);
                    }
                }
            },
        }
        assert(self@.pipelines =~= old(self)@.pipelines);
        assert(self@.bindings =~= old(self)@.bindings);
        proof {
            let before = old(self)@;
            let after = self@;
            assert(after.distinct_ids());
            assert forall|id: Seq<char>| #[trigger] after.bindings.contains_key(id) implies after.has_source(id) by {
                let i = before.source_index(id);
                assert(before.has_source(id));
                if found matches Some(at) && at == i {
                    assert(after.sources[i].id == id);
                } else {
                    assert(after.sources[i] == before.sources[i]);
                }
            }
        }
    }

    /// Starts the source that goes by `source_id`.
    pub fn start_source(&mut self, source_id: &str) -> (result: Result<(), String>)
        requires
            old(self).wf(),
        ensures
            final(self).wf(),
            source_step(old(self)@, final(self)@, source_id@, result, StatusView::Running),
            !old(self)@.has_source(source_id@) ==> *final(self) == *old(self),
    {
        match self.find_source(source_id) {
            Some(at) => {
                let result = self.sources[at].start();
                proof {
                    self.lemma_source_changed(*old(self), at as int);
                }
                result
            },
            None => Err(source_not_found_message(source_id)),
        }
    }

    /// Stops the source that goes by `source_id`.
    pub fn stop_source(&mut self, source_id: &str) -> (result: Result<(), String>)
        requires
            old(self).wf(),
        ensures
            final(self).wf(),
            source_step(old(self)@, final(self)@, source_id@, result, StatusView::Stopped),
            !old(self)@.has_source(source_id@) ==> *final(self) == *old(self),
    {
        match self.find_source(source_id) {
            Some(at) => {
                let result = self.sources[at].stop();
                proof {
                    self.lemma_source_changed(*old(self), at as int);
                }
                result
            },
            None => Err(source_not_found_message(source_id)),
        }
    }

    /// A manager stays well-formed where one source changes and keeps its
    /// id.
    proof fn lemma_source_changed(&self, before: Self, at: int)
        requires
            before.wf(),
            0 <= at < before.sources@.len(),
            self.sources@.len() == before.sources@.len(),
            forall|i: int|
                0 <= i < before.sources@.len() && i != at ==> #[trigger] self.sources@[i]
                    == before.sources@[i],
            self.sources@[at].model().id == before.sources@[at].model().id,
            self.pipelines == before.pipelines,
            self.source_pipelines == before.source_pipelines,
            self.registry == before.registry,
        ensures
            self.wf(),
            self@.pipelines == before@.pipelines,
            self@.bindings == before@.bindings,
            self@.sources.len() == before@.sources.len(),
            forall|i: int|
                0 <= i < before@.sources.len() && i != at ==> #[trigger] self@.sources[i]
                    == before@.sources[i],
    {
        let old_view = before@;
        let new_view = self@;
        assert(new_view.pipelines =~= old_view.pipelines);
        assert(new_view.bindings =~= old_view.bindings);
        assert forall|i: int| 0 <= i < old_view.sources.len() implies (
        #[trigger] new_view.sources[i]).id == old_view.sources[i].id by {
            if i != at {
                assert(self.sources@[i] == before.sources@[i]);
            }
        }
        assert(new_view.distinct_ids()) by {
            assert forall|i: int, j: int| 0 <= i < j < new_view.sources.len() implies (
            #[trigger] new_view.sources[i]).id != (#[trigger] new_view.sources[j]).id by {
                assert(old_view.sources[i].id != old_view.sources[j].id);
            }
        }
        assert forall|id: Seq<char>| #[trigger] new_view.bindings.contains_key(id) implies new_view.has_source(id) by {
            assert(old_view.has_source(id));
            let i = old_view.source_index(id);
            assert(new_view.sources[i].id == id);
        }
    }

    /// Binds the source that goes by `source_id` to `pipeline`, which the
    /// manager takes over.
    pub fn attach_pipeline(&mut self, source_id: &str, pipeline: Pipeline) -> (result: Result<
        (),
        String,
    >)
        requires
            old(self).wf(),
        ensures
            final(self).wf(),
            old(self)@.has_source(source_id@) ==> result is Ok && final(self)@ == attached(
                old(self)@,
                source_id@,
                pipeline@,
            ),
            !old(self)@.has_source(source_id@) ==> *final(self) == *old(self) && (
            result matches Err(message) && message@ == source_not_found(source_id@)),
    {
        if self.find_source(source_id).is_none() {
            return Err(source_not_found_message(source_id));
        }
        let pipeline_id = pipeline.id().to_owned();
        let key = pipeline_id.clone();
        self.pipelines.insert(key, pipeline);
        self.source_pipelines.insert(source_id.to_owned(), pipeline_id);
        proof {
            let after = attached(old(self)@, source_id@, pipeline@);
            assert(self@.sources =~= after.sources);
            assert(self@.pipelines =~= after.pipelines);
            assert(self@.bindings =~= after.bindings);
            assert forall|id: Seq<char>| #[trigger] after.bindings.contains_key(id) implies after.has_source(id) by {
                if id != source_id@ {
                    assert(old(self)@.has_source(id));
                }
            }
        }
        Ok(())
    }

    /// The id of the pipeline that goes by `pipeline_id`, with the kind and
    /// status that stand for a pipeline; nothing where there is none.
    pub fn pipeline_status(&self, pipeline_id: &str) -> (status: Option<
        (String, SourceKind, SourceStatus),
    >)
        requires
            self.wf(),
        ensures
            status is Some <==> self@.pipelines.contains_key(pipeline_id@),
            status matches Some(found) ==> found.0@ == pipeline_id@ && found.1 == SourceKind::Unknown
                && found.2 == SourceStatus::Stopped,
    {
        match self.pipelines.get(pipeline_id) {
            Some(pipeline) => {
                assert(self@.pipelines.contains_key(pipeline_id@));
                assert(self@.pipelines[pipeline_id@] == pipeline@);
                Some((pipeline.id().to_owned(), SourceKind::Unknown, SourceStatus::Stopped))
            },
            None => None,
        }
    }

    /// Runs `packet` through the pipeline of the source that goes by
    /// `source_id`, and hands back the pipeline's id and what it made. A
    /// source that is bound to no pipeline is first given one: see
    /// [`binding_ensured`].
    pub fn ingest_packet(&mut self, source_id: &str, packet: DataPacket) -> (result: Result<
        (String, Vec<PipelineItem>),
        String,
    >)
        requires
            old(self).wf(),
        ensures
            final(self).wf(),
            old(self)@.has_source(source_id@) ==> binding_ensured(
                old(self)@,
                final(self)@,
                source_id@,
            ) && (result matches Ok(routed) && routed.0@ == route_of(old(self)@, source_id@)
                && pipeline_yields(
                final(self)@.pipelines[routed.0@].stages,
                ItemView::Packet(packet@),
                routed.1.deep_view(),
            )),
            !old(self)@.has_source(source_id@) ==> *final(self) == *old(self) && (
            result matches Err(message) && message@ == source_not_found(source_id@)),
    {
        let pipeline_id = match self.ensure_demo_pipeline(source_id) {
            Ok(id) => id,
            Err(message) => {
                return Err(message);
            },
        };
        match self.pipelines.get(pipeline_id.as_str()) {
            Some(pipeline) => {
                assert(self@.pipelines[pipeline_id@] == pipeline@);
                let items = pipeline.process(PipelineItem::Packet(packet));
                Ok((pipeline_id, items))
            },
            None => {
                assert(self@.bindings.contains_key(source_id@));
                assert(self@.pipelines.contains_key(pipeline_id@));
                Err(pipeline_not_found_message(pipeline_id.as_str()))
            },
        }
    }

    /// The id of the pipeline that the source that goes by `source_id` is
    /// bound to, after one was made for it if it was bound to none.
    fn ensure_demo_pipeline(&mut self, source_id: &str) -> (result: Result<String, String>)
        requires
            old(self).wf(),
        ensures
            final(self).wf(),
            old(self)@.has_source(source_id@) ==> binding_ensured(
                old(self)@,
                final(self)@,
                source_id@,
            ) && (result matches Ok(id) && id@ == route_of(old(self)@, source_id@)
                && final(self)@.bindings.contains_key(source_id@) && final(self)@.bindings[source_id@]
                == id@),
            !old(self)@.has_source(source_id@) ==> *final(self) == *old(self) && (
            result matches Err(message) && message@ == source_not_found(source_id@)),
    {
        if self.find_source(source_id).is_none() {
            return Err(source_not_found_message(source_id));
        }
        match self.source_pipelines.get(source_id) {
            Some(pipeline_id) => {
                return Ok(pipeline_id.clone());
            },
            None => {},
        }
        let mut pipeline_id = source_id.to_owned();
        pipeline_id.append("_demo");
        let pipeline = demo_pipeline(pipeline_id.as_str());
        let key = pipeline_id.clone();
        self.pipelines.insert(key, pipeline);
        self.source_pipelines.insert(source_id.to_owned(), pipeline_id.clone());
        proof {
            let before = old(self)@;
            let after = self@;
            let id = demo_pipeline_id(source_id@);
            assert(after.sources =~= before.sources);
            assert(after.bindings =~= before.bindings.insert(source_id@, id));
            assert(after.pipelines.dom() =~= before.pipelines.dom().insert(id));
            assert(after.pipelines[id] == pipeline@);
            assert forall|other: Seq<char>| #[trigger]
                after.bindings.contains_key(other) implies after.has_source(other) by {
                if other != source_id@ {
                    assert(before.has_source(other));
                }
            }
        }
        Ok(pipeline_id)
    }

    /// The catalog of stage kinds.
    pub fn list_parsers(&self) -> (parsers: Vec<ParserDescriptor>)
        requires
            self.wf(),
        ensures
            parsers.deep_view() == catalog(),
    {
        self.registry.list()
    }
}

} // verus!

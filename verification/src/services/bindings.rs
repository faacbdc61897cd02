//! How the binding of sources to pipelines moves under the operations of the
//! manager, and what follows for callers that work on different sources.
//!
//! The manager is changed through `&mut` alone, so its operations come one
//! after another in some order. What is proved here is that the order in
//! which operations on different sources come does not show in the binding
//! of any of them.

use crate::model::types::{ItemView, PacketView, StatusView};
use crate::pipeline::demo::lemma_demo_pipeline_extracts;
use crate::pipeline::pipeline::{pipeline_yields, PipelineView};
use crate::pipeline::stages::extracted_from;
use crate::services::stream_manager::{
    attached, binding_ensured, demo_pipeline_id, route_of, source_step, ManagerView,
};
use vstd::prelude::*;

verus! {

/// An operation of the manager that names a source.
pub enum Command {
    /// Start the source.
    Start { source_id: Seq<char> },
    /// Stop the source.
    Stop { source_id: Seq<char> },
    /// Attach to the source a pipeline that goes by `pipeline_id`.
    Attach { source_id: Seq<char>, pipeline_id: Seq<char> },
    /// Ingest a packet for the source.
    Ingest { source_id: Seq<char> },
}

impl Command {
    /// The source that the command names.
    pub open spec fn target(self) -> Seq<char> {
        match self {
            Command::Start { source_id } => source_id,
            Command::Stop { source_id } => source_id,
            Command::Attach { source_id, .. } => source_id,
            Command::Ingest { source_id } => source_id,
        }
    }
}

/// The ids that the sources of a manager go by.
pub open spec fn known_ids(manager: ManagerView) -> Set<Seq<char>> {
    Set::new(|id: Seq<char>| manager.has_source(id))
}

/// The pipeline that the source `id` is bound to, if it is bound.
pub open spec fn binding_of(bindings: Map<Seq<char>, Seq<char>>, id: Seq<char>) -> Option<
    Seq<char>,
> {
    if bindings.contains_key(id) {
        Some(bindings[id])
    } else {
        None
    }
}

/// The bindings after `command`, where the sources go by the ids in `known`.
/// A command that names no source of the manager changes nothing.
pub open spec fn bindings_after(
    known: Set<Seq<char>>,
    bindings: Map<Seq<char>, Seq<char>>,
    command: Command,
) -> Map<Seq<char>, Seq<char>> {
    match command {
        Command::Start { .. } => bindings,
        Command::Stop { .. } => bindings,
        Command::Attach { source_id, pipeline_id } => if known.contains(source_id) {
            bindings.insert(source_id, pipeline_id)
        } else {
            bindings
        },
        Command::Ingest { source_id } => if known.contains(source_id) && !bindings.contains_key(
            source_id,
        ) {
            bindings.insert(source_id, demo_pipeline_id(source_id))
        } else {
            bindings
        },
    }
}

/// The bindings after the commands, from first to last.
pub open spec fn bindings_after_all(
    known: Set<Seq<char>>,
    bindings: Map<Seq<char>, Seq<char>>,
    commands: Seq<Command>,
) -> Map<Seq<char>, Seq<char>>
    decreases commands.len(),
{
    if commands.len() == 0 {
        bindings
    } else {
        bindings_after(
            known,
            bindings_after_all(known, bindings, commands.drop_last()),
            commands.last(),
        )
    }
}

/// Those of `commands` that name the source `id`, in their order.
pub open spec fn commands_on(commands: Seq<Command>, id: Seq<char>) -> Seq<Command> {
    commands.filter(|command: Command| command.target() == id)
}

/// `start_source` and `stop_source` move the bindings as [`Command::Start`]
/// and [`Command::Stop`] say, and leave the ids of the sources as they are.
pub proof fn lemma_source_step_is_command(
    before: ManagerView,
    after: ManagerView,
    id: Seq<char>,
    result: Result<(), String>,
    goal: StatusView,
)
    requires
        source_step(before, after, id, result, goal),
    ensures
        after.bindings == bindings_after(
            known_ids(before),
            before.bindings,
            Command::Start { source_id: id },
        ),
        after.bindings == bindings_after(
            known_ids(before),
            before.bindings,
            Command::Stop { source_id: id },
        ),
        known_ids(after) == known_ids(before),
{
    if before.has_source(id) {
        let at = before.source_index(id);
        assert forall|other: Seq<char>| before.has_source(other) <==> after.has_source(other) by {
            if before.has_source(other) {
                let i = before.source_index(other);
                assert(after.sources[i].id == other);
            }
            if after.has_source(other) {
                let i = after.source_index(other);
                assert(before.sources[i].id == other);
            }
        }
    }
    assert(known_ids(after) =~= known_ids(before));
}

/// `attach_pipeline` moves the bindings as [`Command::Attach`] says, and
/// leaves the ids of the sources as they are.
pub proof fn lemma_attach_is_command(
    manager: ManagerView,
    source_id: Seq<char>,
    pipeline: PipelineView,
)
    requires
        manager.has_source(source_id),
    ensures
        attached(manager, source_id, pipeline).bindings == bindings_after(
            known_ids(manager),
            manager.bindings,
            Command::Attach { source_id, pipeline_id: pipeline.id },
        ),
        known_ids(attached(manager, source_id, pipeline)) == known_ids(manager),
{
    assert(known_ids(attached(manager, source_id, pipeline)) =~= known_ids(manager));
}

/// `ingest_packet` moves the bindings as [`Command::Ingest`] says, and leaves
/// the ids of the sources as they are.
pub proof fn lemma_ingest_is_command(before: ManagerView, after: ManagerView, source_id: Seq<char>)
    requires
        before.has_source(source_id),
        binding_ensured(before, after, source_id),
    ensures
        after.bindings == bindings_after(
            known_ids(before),
            before.bindings,
            Command::Ingest { source_id },
        ),
        known_ids(after) == known_ids(before),
{
    assert(known_ids(after) =~= known_ids(before));
}

/// A command leaves the binding of every source that it does not name as it
/// was.
pub proof fn lemma_command_keeps_other_bindings(
    known: Set<Seq<char>>,
    bindings: Map<Seq<char>, Seq<char>>,
    command: Command,
    id: Seq<char>,
)
    requires
        command.target() != id,
    ensures
        binding_of(bindings_after(known, bindings, command), id) == binding_of(bindings, id),
{
}

/// What a command makes of the binding of the source that it names depends
/// on that binding alone.
pub proof fn lemma_command_reads_own_binding(
    known: Set<Seq<char>>,
    first: Map<Seq<char>, Seq<char>>,
    second: Map<Seq<char>, Seq<char>>,
    command: Command,
)
    requires
        binding_of(first, command.target()) == binding_of(second, command.target()),
    ensures
        binding_of(bindings_after(known, first, command), command.target()) == binding_of(
            bindings_after(known, second, command),
            command.target(),
        ),
{
}

/// After any run of commands the binding of a source is what the commands
/// that name it would have made of it alone, in their order: commands on
/// other sources, wherever they come in between, leave no trace in it.
pub proof fn lemma_binding_reflects_own_commands(
    known: Set<Seq<char>>,
    bindings: Map<Seq<char>, Seq<char>>,
    commands: Seq<Command>,
    id: Seq<char>,
)
    ensures
        binding_of(bindings_after_all(known, bindings, commands), id) == binding_of(
            bindings_after_all(known, bindings, commands_on(commands, id)),
            id,
        ),
    decreases commands.len(),
{
    if commands.len() > 0 {
        let earlier = commands.drop_last();
        let last = commands.last();
        lemma_binding_reflects_own_commands(known, bindings, earlier, id);
        reveal(Seq::filter);
        if last.target() == id {
            let own = commands_on(earlier, id);
            assert(commands_on(commands, id) == own.push(last));
            assert(own.push(last).drop_last() =~= own);
            lemma_command_reads_own_binding(
                known,
                bindings_after_all(known, bindings, earlier),
                bindings_after_all(known, bindings, own),
                last,
            );
        } else {
            assert(commands_on(commands, id) == commands_on(earlier, id));
            lemma_command_keeps_other_bindings(
                known,
                bindings_after_all(known, bindings, earlier),
                last,
                id,
            );
        }
    }
}

/// Two commands that name different sources may change places: the bindings
/// come out the same.
pub proof fn lemma_commands_on_different_sources_commute(
    known: Set<Seq<char>>,
    bindings: Map<Seq<char>, Seq<char>>,
    first: Command,
    second: Command,
)
    requires
        first.target() != second.target(),
    ensures
        bindings_after(known, bindings_after(known, bindings, first), second) == bindings_after(
            known,
            bindings_after(known, bindings, second),
            first,
        ),
{
    assert(bindings_after(known, bindings_after(known, bindings, first), second)
        =~= bindings_after(known, bindings_after(known, bindings, second), first));
}

/// After a pipeline was attached to a source, what is ingested for the source
/// goes to that pipeline, and ingesting makes no other.
pub proof fn lemma_ingest_after_attach(
    manager: ManagerView,
    source_id: Seq<char>,
    pipeline: PipelineView,
    after: ManagerView,
)
    requires
        binding_ensured(attached(manager, source_id, pipeline), after, source_id),
    ensures
        route_of(attached(manager, source_id, pipeline), source_id) == pipeline.id,
        after == attached(manager, source_id, pipeline),
        route_of(after, source_id) == pipeline.id,
{
}

/// A second pipeline attached to a source takes the place of the first: the
/// source is bound to it as if the first had never been attached.
pub proof fn lemma_attach_replaces_binding(
    manager: ManagerView,
    source_id: Seq<char>,
    first: PipelineView,
    second: PipelineView,
)
    ensures
        route_of(attached(attached(manager, source_id, first), source_id, second), source_id)
            == second.id,
        attached(attached(manager, source_id, first), source_id, second).bindings == attached(
            manager,
            source_id,
            second,
        ).bindings,
{
    assert(attached(attached(manager, source_id, first), source_id, second).bindings =~= attached(
        manager,
        source_id,
        second,
    ).bindings);
}

/// What comes out where something is ingested for a source that is bound to
/// no pipeline: the metrics for the numbers in the text of the packet, in
/// their order.
pub proof fn lemma_first_ingest_extracts(
    before: ManagerView,
    after: ManagerView,
    source_id: Seq<char>,
    packet: PacketView,
    out: Seq<ItemView>,
)
    requires
        !before.bindings.contains_key(source_id),
        binding_ensured(before, after, source_id),
        pipeline_yields(
            after.pipelines[route_of(before, source_id)].stages,
            ItemView::Packet(packet),
            out,
        ),
    ensures
        extracted_from(ItemView::Packet(packet), out),
{
    lemma_demo_pipeline_extracts(after.pipelines[demo_pipeline_id(source_id)], packet, out);
}

/// The pipeline for a source that is bound to none is made once: what is
/// ingested later goes to the same pipeline and changes nothing.
pub proof fn lemma_demo_pipeline_is_made_once(
    before: ManagerView,
    between: ManagerView,
    after: ManagerView,
    source_id: Seq<char>,
)
    requires
        binding_ensured(before, between, source_id),
        binding_ensured(between, after, source_id),
    ensures
        between.bindings.contains_key(source_id),
        between.bindings[source_id] == route_of(before, source_id),
        after == between,
        route_of(after, source_id) == route_of(before, source_id),
{
}

} // verus!

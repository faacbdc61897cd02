//! The pipeline that serves a source before one is attached to it: the line
//! splitter, then the float extractor.

use crate::model::types::{ItemView, PacketView};
use crate::pipeline::pipeline::{pipeline_yields, stage_maps, yields_each, Pipeline, PipelineView};
use crate::pipeline::stages::{
    acts_as, are_float_samples, extracted_from, line_packet, split_item, split_packets,
    FloatExtractor, LineSplitter, Stage,
};
use crate::pipeline::text::lines::nonempty_lines_of;
use crate::pipeline::text::tokens::{
    float_tokens_of, float_tokens_of_each, lemma_float_tokens_by_line,
};
use vstd::prelude::*;

verus! {

/// Whether `pipeline` goes by `id` and holds the line splitter, then the
/// float extractor, and nothing else.
pub open spec fn is_demo_pipeline(pipeline: PipelineView, id: Seq<char>) -> bool {
    &&& pipeline.id == id
    &&& pipeline.stages.len() == 2
    &&& acts_as(&*pipeline.stages[0], &LineSplitter)
    &&& acts_as(&*pipeline.stages[1], &FloatExtractor)
}

/// The demo pipeline under `id`.
pub fn demo_pipeline(id: &str) -> (pipeline: Pipeline)
    ensures
        is_demo_pipeline(pipeline@, id@),
{
    let mut pipeline = Pipeline::new(id);
    pipeline.push_stage(Box::new(LineSplitter));
    pipeline.push_stage(Box::new(FloatExtractor));
    assert(pipeline@.stages[0] == pipeline@.stages.drop_last()[0]);
    pipeline
}

/// Metrics for some numbers, followed by metrics for more numbers, are the
/// metrics for all of them.
pub proof fn lemma_samples_concat(
    first: Seq<ItemView>,
    second: Seq<ItemView>,
    source_id: Seq<char>,
    literals: Seq<Seq<char>>,
    more: Seq<Seq<char>>,
)
    requires
        are_float_samples(first, source_id, literals),
        are_float_samples(second, source_id, more),
    ensures
        are_float_samples(first + second, source_id, literals + more),
{
    assert forall|i: int| 0 <= i < (first + second).len() implies crate::pipeline::stages::is_float_sample(
        #[trigger] (first + second)[i],
        source_id,
        (literals + more)[i],
    ) by {
        if i < first.len() {
            assert((first + second)[i] == first[i]);
        } else {
            assert((first + second)[i] == second[i - first.len()]);
        }
    }
}

/// Where each of `parts` holds the metrics for the numbers in the part of
/// `literals` at its place, all of `parts` in a row hold the metrics for all
/// the numbers in a row.
pub proof fn lemma_samples_flatten(
    parts: Seq<Seq<ItemView>>,
    source_id: Seq<char>,
    literals: Seq<Seq<Seq<char>>>,
)
    requires
        parts.len() == literals.len(),
        forall|i: int|
            0 <= i < parts.len() ==> are_float_samples(#[trigger] parts[i], source_id, literals[i]),
    ensures
        are_float_samples(parts.flatten(), source_id, literals.flatten()),
    decreases parts.len(),
{
    if parts.len() > 0 {
        let earlier = parts.drop_last();
        let earlier_literals = literals.drop_last();
        assert forall|i: int| 0 <= i < earlier.len() implies are_float_samples(
            #[trigger] earlier[i],
            source_id,
            earlier_literals[i],
        ) by {
            assert(earlier[i] == parts[i]);
        }
        lemma_samples_flatten(earlier, source_id, earlier_literals);
        assert(earlier.push(parts.last()) =~= parts);
        assert(earlier_literals.push(literals.last()) =~= literals);
        earlier.lemma_flatten_push(parts.last());
        earlier_literals.lemma_flatten_push(literals.last());
        lemma_samples_concat(
            earlier.flatten(),
            parts.last(),
            source_id,
            earlier_literals.flatten(),
            literals.last(),
        );
    }
}

/// What the float extractor makes of the packets into which a packet was
/// split, taken in a row, is what it makes of the packet itself.
pub proof fn lemma_extract_after_split(packet: PacketView, parts: Seq<Seq<ItemView>>)
    requires
        yields_each(&FloatExtractor, split_item(ItemView::Packet(packet)), parts),
    ensures
        extracted_from(ItemView::Packet(packet), parts.flatten()),
{
    let split = split_packets(packet);
    let items = split_item(ItemView::Packet(packet));
    let lines = match packet.text {
        Some(text) => nonempty_lines_of(text),
        None => Seq::empty(),
    };
    if lines.len() == 0 {
        assert(split =~= seq![packet]);
        assert(items[0] == ItemView::Packet(packet));
        assert(extracted_from(items[0], parts[0]));
        parts.lemma_flatten_one_element();
        assert(parts.first() == parts[0]);
    } else {
        let text = packet.text->0;
        let literals = float_tokens_of_each(lines);
        assert forall|i: int| 0 <= i < parts.len() implies are_float_samples(
            #[trigger] parts[i],
            packet.source_id,
            literals[i],
        ) by {
            assert(items[i] == ItemView::Packet(line_packet(packet, lines[i])));
            assert(extracted_from(items[i], parts[i]));
        }
        lemma_samples_flatten(parts, packet.source_id, literals);
        lemma_float_tokens_by_line(text);
    }
}

/// What the demo pipeline makes of a packet is what the float extractor
/// alone makes of it: one metric for each number in its text, in the order
/// in which the numbers stand there, each under the packet's source. To
/// split into lines first changes nothing of that.
pub proof fn lemma_demo_pipeline_extracts(
    pipeline: PipelineView,
    packet: PacketView,
    out: Seq<ItemView>,
)
    requires
        is_demo_pipeline(pipeline, pipeline.id),
        pipeline_yields(pipeline.stages, ItemView::Packet(packet), out),
    ensures
        extracted_from(ItemView::Packet(packet), out),
{
    let input = ItemView::Packet(packet);
    let stages = pipeline.stages;
    let first = stages.drop_last();
    reveal_with_fuel(pipeline_yields, 3);
    let split = choose|fed: Seq<ItemView>|
        pipeline_yields(first, input, fed) && #[trigger] stage_maps(&*stages.last(), fed, out);
    assert(first.len() == 1);
    assert(first.last() == stages[0]);
    assert(first.drop_last().len() == 0);
    let fed = choose|fed: Seq<ItemView>|
        pipeline_yields(first.drop_last(), input, fed) && #[trigger] stage_maps(
            &*first.last(),
            fed,
            split,
        );
    assert(fed == seq![input]);
    let halves = choose|parts: Seq<Seq<ItemView>>| #[trigger]
        yields_each(&*first.last(), fed, parts) && split == parts.flatten();
    assert(stages[0].yields(fed[0], halves[0]));
    assert((LineSplitter {}).yields(input, halves[0]));
    halves.lemma_flatten_one_element();
    assert(halves.first() == halves[0]);
    assert(split == split_item(input));
    let parts = choose|parts: Seq<Seq<ItemView>>| #[trigger]
        yields_each(&*stages.last(), split, parts) && out == parts.flatten();
    assert(stages.last() == stages[1]);
    assert forall|i: int| 0 <= i < split.len() implies (FloatExtractor {}).yields(
        split[i],
        #[trigger] parts[i],
    ) by {
        assert(stages[1].yields(split[i], parts[i]));
    }
    lemma_extract_after_split(packet, parts);
}

} // verus!

//! The stage contract, and the two stages that the library brings along.

use crate::model::types::{
    now_millis, DataPacket, ItemView, Metric, MetricView, PacketView, PipelineItem,
};
use crate::pipeline::text::lines::{
    lemma_single_line, no_line_feed, nonempty_lines, nonempty_lines_of,
};
use crate::pipeline::text::tokens::{float_tokens, float_tokens_of};
use vstd::prelude::*;
use vstd::string::StrSliceExecFns;

verus! {

/// One step of a pipeline: it makes of one item a sequence of items, which may
/// be empty.
pub trait Stage: Send + Sync {
    /// The name the stage goes by.
    spec fn spec_name(&self) -> Seq<char>;

    /// Whether `out` is what the stage may make of `item`. A stage that reads
    /// nothing but the item allows one sequence for each item.
    spec fn yields(&self, item: ItemView, out: Seq<ItemView>) -> bool;

    fn name(&self) -> (name: &str)
        ensures
            name@ == self.spec_name(),
    ;

    fn process(&self, item: PipelineItem) -> (out: Vec<PipelineItem>)
        ensures
            self.yields(item@, out.deep_view()),
    ;
}

/// Whether `a` goes by the name of `b` and makes of every item what `b`
/// makes of it.
pub open spec fn acts_as<A: Stage + ?Sized, B: Stage + ?Sized>(a: &A, b: &B) -> bool {
    &&& a.spec_name() == b.spec_name()
    &&& forall|item: ItemView, out: Seq<ItemView>|
        #![trigger a.yields(item, out)]
        #![trigger b.yields(item, out)]
        a.yields(item, out) <==> b.yields(item, out)
}

/// The packet that one line of `packet` becomes: time, source and tags are
/// those of `packet`, the text is the line and the raw bytes encode it.
pub open spec fn line_packet(packet: PacketView, line: Seq<char>) -> PacketView {
    PacketView {
        ts_millis: packet.ts_millis,
        source_id: packet.source_id,
        raw: vstd::utf8::encode_utf8(line),
        text: Some(line),
        tags: packet.tags,
    }
}

/// What splitting makes of a packet: one packet for each line that is not
/// empty, in their order; the packet itself where it has no text, or no such
/// line.
pub open spec fn split_packets(packet: PacketView) -> Seq<PacketView> {
    match packet.text {
        None => seq![packet],
        Some(text) => {
            let lines = nonempty_lines_of(text);
            if lines.len() == 0 {
                seq![packet]
            } else {
                Seq::new(lines.len(), |i: int| line_packet(packet, lines[i]))
            }
        },
    }
}

/// What the line splitter makes of an item: of a packet its split, of
/// anything else the item itself.
pub open spec fn split_item(item: ItemView) -> Seq<ItemView> {
    match item {
        ItemView::Packet(packet) => {
            let packets = split_packets(packet);
            Seq::new(packets.len(), |i: int| ItemView::Packet(packets[i]))
        },
        other => seq![other],
    }
}

/// Splitting changes nothing of a packet whose text is a single line, not
/// empty and without line feed, and whose raw bytes encode that text: what
/// comes out is the packet itself, and nothing else.
pub proof fn lemma_split_keeps_single_line(packet: PacketView)
    requires
        packet.text matches Some(text) && text.len() > 0 && no_line_feed(text),
        packet.coherent(),
    ensures
        split_packets(packet) == seq![packet],
        split_item(ItemView::Packet(packet)) == seq![ItemView::Packet(packet)],
{
    let text = packet.text->0;
    lemma_single_line(text);
    assert(line_packet(packet, text) == packet);
    assert(split_packets(packet) =~= seq![packet]);
    assert(split_item(ItemView::Packet(packet)) =~= seq![ItemView::Packet(packet)]);
}

/// What splitting makes of a packet whose raw bytes encode its text are
/// packets of which the same holds.
pub proof fn lemma_split_keeps_coherence(packet: PacketView, i: int)
    requires
        packet.coherent(),
        0 <= i < split_packets(packet).len(),
    ensures
        split_packets(packet)[i].coherent(),
{
}

/// Splits a packet into one packet for each line of its text that is not
/// empty.
pub fn split_lines(packet: DataPacket) -> (out: Vec<DataPacket>)
    ensures
        out.deep_view() == split_packets(packet@),
{
    let lines = match &packet.text {
        Some(text) => nonempty_lines(text.as_str()),
        None => {
            let out = vec![packet];
            assert(out.deep_view() =~= seq![packet@]);
            return out;
        },
    };
    if lines.len() == 0 {
        let out = vec![packet];
        assert(out.deep_view() =~= seq![packet@]);
        return out;
    }
    let ghost texts = lines.deep_view();
    let mut out: Vec<DataPacket> = Vec::new();
    for line in it: lines
        invariant
            it.seq().len() == texts.len(),
            forall|i: int| 0 <= i < texts.len() ==> (#[trigger] it.seq()[i])@ == texts[i],
            out.len() == it.index(),
            forall|i: int|
                0 <= i < out.len() ==> (#[trigger] out[i])@ == line_packet(packet@, texts[i]),
    {
        let tags = packet.tags.clone();
        assert(tags.deep_view() =~= packet.tags.deep_view());
        let raw = line.as_str().as_bytes_vec();
        out.push(
            DataPacket {
                ts_millis: packet.ts_millis,
                source_id: packet.source_id.clone(),
                raw,
                text: Some(line),
                tags,
            },
        );
    }
    assert(out.deep_view() =~= split_packets(packet@));
    out
}

/// The stage that splits packets into lines.
pub struct LineSplitter;

impl Stage for LineSplitter {
    open spec fn spec_name(&self) -> Seq<char> {
        "line_splitter"@
    }

    open spec fn yields(&self, item: ItemView, out: Seq<ItemView>) -> bool {
        out == split_item(item)
    }

    fn name(&self) -> (name: &str) {
        "line_splitter"
    }

    fn process(&self, item: PipelineItem) -> (out: Vec<PipelineItem>) {
        match item {
            PipelineItem::Packet(packet) => {
                let ghost expected = split_packets(packet@);
                let packets = split_lines(packet);
                let mut out: Vec<PipelineItem> = Vec::new();
                for split in it: packets
                    invariant
                        it.seq().len() == expected.len(),
                        forall|i: int|
                            0 <= i < expected.len() ==> (#[trigger] it.seq()[i])@ == expected[i],
                        out.len() == it.index(),
                        forall|i: int|
                            0 <= i < out.len() ==> (#[trigger] out[i])@ == ItemView::Packet(
                                expected[i],
                            ),
                {
                    out.push(PipelineItem::Packet(split));
                }
                assert(out.deep_view() =~= split_item(item@));
                out
            },
            other => {
                let out = vec![other];
                assert(out.deep_view() =~= seq![other@]);
                out
            },
        }
    }
}

/// The metric that stands for one number found in the text of a packet.
pub open spec fn float_sample(source_id: Seq<char>, literal: Seq<char>, ts_millis: u128) -> MetricView {
    MetricView { ts_millis, source_id, name: "float"@, value: literal }
}

/// Whether `out` holds the numbers of a packet: one metric for each token of
/// its text that is a literal of a floating-point number, in their order,
/// each under the packet's source and the name `float`; none where the packet
/// has no text. Each metric bears the time at which it was made, of which
/// nothing is said here.
pub open spec fn samples_of(packet: PacketView, out: Seq<MetricView>) -> bool {
    match packet.text {
        None => out.len() == 0,
        Some(text) => {
            let literals = float_tokens_of(text);
            &&& out.len() == literals.len()
            &&& forall|i: int|
                0 <= i < out.len() ==> #[trigger] out[i] == float_sample(
                    packet.source_id,
                    literals[i],
                    out[i].ts_millis,
                )
        },
    }
}

/// Whether `item` is the metric that stands for the number `literal`, found
/// under `source_id` at whatever time.
pub open spec fn is_float_sample(item: ItemView, source_id: Seq<char>, literal: Seq<char>) -> bool {
    item matches ItemView::Metric(metric) && metric == float_sample(
        source_id,
        literal,
        metric.ts_millis,
    )
}

/// Whether `items` are the metrics that stand for the numbers `literals`, one
/// for one and in their order.
pub open spec fn are_float_samples(
    items: Seq<ItemView>,
    source_id: Seq<char>,
    literals: Seq<Seq<char>>,
) -> bool {
    &&& items.len() == literals.len()
    &&& forall|i: int|
        0 <= i < items.len() ==> is_float_sample(#[trigger] items[i], source_id, literals[i])
}

/// Whether `out` is what the float extractor may make of `item`: of a packet
/// with text the metrics for the numbers in it, as [`samples_of`] says; of a
/// packet without text nothing; of anything else the item itself.
pub open spec fn extracted_from(item: ItemView, out: Seq<ItemView>) -> bool {
    match item {
        ItemView::Packet(packet) => match packet.text {
            None => out.len() == 0,
            Some(text) => are_float_samples(out, packet.source_id, float_tokens_of(text)),
        },
        other => out == seq![other],
    }
}

/// The metric for the number that `literal` writes, found under `source_id`
/// at `ts_millis`.
pub fn float_metric(source_id: &str, literal: String, ts_millis: u128) -> (metric: Metric)
    ensures
        metric@ == float_sample(source_id@, literal@, ts_millis),
{
    Metric { ts_millis, source_id: source_id.to_owned(), name: "float".to_owned(), value: literal }
}

/// Takes the numbers out of the text of a packet, each with the time of its
/// taking.
pub fn extract_floats(packet: DataPacket) -> (out: Vec<Metric>)
    ensures
        samples_of(packet@, out.deep_view()),
{
    let literals = match &packet.text {
        Some(text) => float_tokens(text.as_str()),
        None => {
            return Vec::new();
        },
    };
    let ghost expected = literals.deep_view();
    let mut out: Vec<Metric> = Vec::new();
    for literal in it: literals
        invariant
            it.seq().len() == expected.len(),
            forall|i: int| 0 <= i < expected.len() ==> (#[trigger] it.seq()[i])@ == expected[i],
            out.len() == it.index(),
            forall|i: int|
                0 <= i < out.len() ==> (#[trigger] out[i])@ == float_sample(
                    packet.source_id@,
                    expected[i],
                    out[i].ts_millis,
                ),
    {
        out.push(float_metric(packet.source_id.as_str(), literal, now_millis()));
    }
    assert(samples_of(packet@, out.deep_view()));
    out
}

/// The stage that takes the numbers out of packets.
pub struct FloatExtractor;

impl Stage for FloatExtractor {
    open spec fn spec_name(&self) -> Seq<char> {
        "float_extractor"@
    }

    open spec fn yields(&self, item: ItemView, out: Seq<ItemView>) -> bool {
        extracted_from(item, out)
    }

    fn name(&self) -> (name: &str) {
        "float_extractor"
    }

    fn process(&self, item: PipelineItem) -> (out: Vec<PipelineItem>) {
        match item {
            PipelineItem::Packet(packet) => {
                let metrics = extract_floats(packet);
                let ghost expected = metrics.deep_view();
                let mut out: Vec<PipelineItem> = Vec::new();
                for metric in it: metrics
                    invariant
                        it.seq().len() == expected.len(),
                        forall|i: int|
                            0 <= i < expected.len() ==> (#[trigger] it.seq()[i])@ == expected[i],
                        out.len() == it.index(),
                        forall|i: int|
                            0 <= i < out.len() ==> (#[trigger] out[i])@ == ItemView::Metric(
                                expected[i],
                            ),
                {
                    out.push(PipelineItem::Metric(metric));
                }
                assert(extracted_from(item@, out.deep_view()));
                out
            },
            other => {
                let out = vec![other];
                assert(out.deep_view() =~= seq![other@]);
                out
            },
        }
    }
}

} // verus!

//! Channel names. Each carries the id of a source or of a pipeline, so that
//! streams that run side by side do not meet.

use crate::model::types::{DataPacket, ItemView, PipelineItem};
use vstd::prelude::*;

verus! {

pub const DATA_STREAM_PREFIX: &'static str = "data_stream";

pub const METRICS_PREFIX: &'static str = "metrics";

/// The name of the channel that carries the packets and events of a source.
pub open spec fn data_stream_channel(source_id: Seq<char>) -> Seq<char> {
    DATA_STREAM_PREFIX@ + "::"@ + source_id
}

/// The name of the channel that carries the metrics of a pipeline.
pub open spec fn metrics_channel(pipeline_id: Seq<char>) -> Seq<char> {
    METRICS_PREFIX@ + "::"@ + pipeline_id
}

/// The channel that `item` goes out on, where it was made for the source
/// `source_id` by the pipeline `pipeline_id`: a metric on the pipeline's
/// metrics channel, a packet or an event on the source's data stream.
pub open spec fn channel_of(
    item: ItemView,
    source_id: Seq<char>,
    pipeline_id: Seq<char>,
) -> Seq<char> {
    match item {
        ItemView::Metric(_) => metrics_channel(pipeline_id),
        _ => data_stream_channel(source_id),
    }
}

pub fn data_stream_event(source_id: &str) -> (event: String)
    ensures
        event@ == data_stream_channel(source_id@),
{
    let mut event = DATA_STREAM_PREFIX.to_owned();
    event.append("::");
    event.append(source_id);
    event
}

pub fn metrics_event(pipeline_id: &str) -> (event: String)
    ensures
        event@ == metrics_channel(pipeline_id@),
{
    let mut event = METRICS_PREFIX.to_owned();
    event.append("::");
    event.append(pipeline_id);
    event
}

/// An item together with the channel it goes out on.
#[derive(Debug)]
pub struct Emission {
    pub event: String,
    pub item: PipelineItem,
}

impl Clone for Emission {
    fn clone(&self) -> (copy: Self)
        ensures
            copy.event@ == self.event@,
            copy.item@ == self.item@,
    {
        Emission { event: self.event.clone(), item: self.item.clone() }
    }
}

/// A packet as it came in, on the data stream of its source. It goes out
/// before any pipeline sees the packet.
pub fn raw_emission(packet: &DataPacket) -> (emission: Emission)
    ensures
        emission.event@ == data_stream_channel(packet@.source_id),
        emission.item@ == ItemView::Packet(packet@),
{
    Emission {
        event: data_stream_event(packet.source_id.as_str()),
        item: PipelineItem::Packet(packet.clone()),
    }
}

/// What a pipeline made, each item with its channel, in the same order.
pub fn fan_out(source_id: &str, pipeline_id: &str, items: Vec<PipelineItem>) -> (emissions: Vec<
    Emission,
>)
    ensures
        emissions.len() == items.len(),
        forall|i: int|
            0 <= i < items.len() ==> (#[trigger] emissions[i]).item == items[i] && emissions[i].event@
                == channel_of(items[i]@, source_id@, pipeline_id@),
{
    let mut emissions: Vec<Emission> = Vec::new();
    for item in it: items
        invariant
            it.seq() == items@,
            emissions.len() == it.index(),
            forall|i: int|
                0 <= i < emissions.len() ==> (#[trigger] emissions[i]).item == items[i]
                    && emissions[i].event@ == channel_of(items[i]@, source_id@, pipeline_id@),
    {
        let event = match &item {
            PipelineItem::Metric(_) => metrics_event(pipeline_id),
            _ => data_stream_event(source_id),
        };
        emissions.push(Emission { event, item });
    }
    emissions
}

} // verus!

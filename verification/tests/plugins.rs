use stream_hub::model::types::{DataPacket, ItemView, PipelineItem};
use stream_hub::pipeline::{FloatExtractor, LineSplitter, Pipeline, Stage};
use vstd::seq::Seq;

/// Keeps the packets whose text begins with a mark, and tags them.
struct Marked {
    mark: char,
}

impl Stage for Marked {
    fn spec_name(&self) -> Seq<char> {
        unreachable!()
    }

    fn yields(&self, _item: ItemView, _out: Seq<ItemView>) -> bool {
        unreachable!()
    }

    fn name(&self) -> &str {
        "marked"
    }

    fn process(&self, item: PipelineItem) -> Vec<PipelineItem> {
        match item {
            PipelineItem::Packet(mut packet) => {
                if packet.text.as_deref().is_some_and(|t| t.starts_with(self.mark)) {
                    packet.tags.push("marked".to_string());
                    vec![PipelineItem::Packet(packet)]
                } else {
                    Vec::new()
                }
            }
            other => vec![other],
        }
    }
}

fn packet(text: &str) -> PipelineItem {
    PipelineItem::Packet(DataPacket::taken_at(7, "serial", text.as_bytes().to_vec(), Some(text.to_string())))
}

#[test]
fn a_stage_of_the_caller_runs_among_the_others() {
    let mut pipeline = Pipeline::new("custom");
    pipeline.push_stage(Box::new(LineSplitter));
    pipeline.push_stage(Box::new(Marked { mark: '#' }));
    let out = pipeline.process(packet("#1 2\nskip 3\n#4\n"));
    assert_eq!(out.len(), 2);
    for (item, line) in out.iter().zip(["#1 2", "#4"]) {
        match item {
            PipelineItem::Packet(p) => {
                assert_eq!(p.text.as_deref(), Some(line));
                assert_eq!(p.tags, vec!["marked".to_string()]);
                assert_eq!(p.ts_millis, 7);
            }
            other => panic!("not a packet: {:?}", other),
        }
    }
}

#[test]
fn a_stage_that_drops_everything_leaves_nothing_for_the_next() {
    let mut pipeline = Pipeline::new("custom");
    pipeline.push_stage(Box::new(Marked { mark: '#' }));
    pipeline.push_stage(Box::new(FloatExtractor));
    assert!(pipeline.process(packet("1 2 3")).is_empty());
    let out = pipeline.process(packet("# 1 2 3"));
    assert_eq!(out.len(), 3);
    assert!(out.iter().all(|i| matches!(i, PipelineItem::Metric(_))));
}

#[test]
fn a_packet_taken_at_a_time_bears_it() {
    let p = DataPacket::taken_at(123, "net", vec![9], None);
    assert_eq!(p.ts_millis, 123);
    assert_eq!(p.source_id, "net");
    assert_eq!(p.raw, vec![9]);
    assert_eq!(p.text, None);
    assert!(p.tags.is_empty());
}

use stream_hub::api::events::{
    data_stream_event, fan_out, metrics_event, raw_emission, DATA_STREAM_PREFIX, METRICS_PREFIX,
};
use stream_hub::model::types::{DataPacket, ParsedEvent, PipelineItem};
use stream_hub::pipeline::stages::float_metric;

#[test]
fn channel_names_carry_the_id() {
    assert_eq!(DATA_STREAM_PREFIX, "data_stream");
    assert_eq!(METRICS_PREFIX, "metrics");
    assert_eq!(data_stream_event("serial"), "data_stream::serial");
    assert_eq!(metrics_event("serial_demo"), "metrics::serial_demo");
    assert_eq!(data_stream_event(""), "data_stream::");
    assert_eq!(metrics_event("a::b"), "metrics::a::b");
}

#[test]
fn fan_out_sends_metrics_to_the_pipeline_and_the_rest_to_the_source() {
    let items = vec![
        PipelineItem::Metric(float_metric("serial", "1".to_string(), 1)),
        PipelineItem::Packet(DataPacket {
            ts_millis: 2,
            source_id: "serial".to_string(),
            raw: vec![],
            text: None,
            tags: vec![],
        }),
        PipelineItem::Event(ParsedEvent {
            ts_millis: 3,
            kind: "k".to_string(),
            payload: serde_json::Value::Bool(true),
        }),
        PipelineItem::Metric(float_metric("serial", "2".to_string(), 4)),
    ];
    let out = fan_out("serial", "alpha", items);
    let events: Vec<&str> = out.iter().map(|e| e.event.as_str()).collect();
    assert_eq!(
        events,
        vec!["metrics::alpha", "data_stream::serial", "data_stream::serial", "metrics::alpha"]
    );
    assert!(matches!(&out[0].item, PipelineItem::Metric(m) if m.value == "1"));
    assert!(matches!(&out[1].item, PipelineItem::Packet(p) if p.ts_millis == 2));
    assert!(matches!(&out[2].item, PipelineItem::Event(e) if e.kind == "k"));
    assert!(matches!(&out[3].item, PipelineItem::Metric(m) if m.value == "2"));
}

#[test]
fn fan_out_of_nothing_is_nothing() {
    assert!(fan_out("serial", "alpha", Vec::new()).is_empty());
}

#[test]
fn a_raw_packet_goes_to_the_data_stream_of_its_source() {
    let packet = DataPacket {
        ts_millis: 8,
        source_id: "rtt".to_string(),
        raw: b"1 2".to_vec(),
        text: Some("1 2".to_string()),
        tags: vec!["t".to_string()],
    };
    let emission = raw_emission(&packet);
    assert_eq!(emission.event, "data_stream::rtt");
    match emission.item {
        PipelineItem::Packet(p) => {
            assert_eq!(p.ts_millis, 8);
            assert_eq!(p.source_id, "rtt");
            assert_eq!(p.raw, b"1 2".to_vec());
            assert_eq!(p.text.as_deref(), Some("1 2"));
            assert_eq!(p.tags, vec!["t".to_string()]);
        }
        other => panic!("not a packet: {:?}", other),
    }
}

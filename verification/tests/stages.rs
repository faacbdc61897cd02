use stream_hub::model::types::{DataPacket, Metric, ParsedEvent, PipelineItem};
use stream_hub::pipeline::stages::{extract_floats, float_metric, split_lines};
use stream_hub::pipeline::{FloatExtractor, LineSplitter, Stage};

fn packet(source_id: &str, text: &str) -> DataPacket {
    DataPacket {
        ts_millis: 1_700_000_000_000,
        source_id: source_id.to_string(),
        raw: text.as_bytes().to_vec(),
        text: Some(text.to_string()),
        tags: vec!["first".to_string(), "second".to_string(), "first".to_string()],
    }
}

fn values(metrics: &[Metric]) -> Vec<f64> {
    metrics.iter().map(|m| m.value.parse::<f64>().unwrap()).collect()
}

#[test]
fn stage_names() {
    assert_eq!(LineSplitter.name(), "line_splitter");
    assert_eq!(FloatExtractor.name(), "float_extractor");
}

#[test]
fn split_lines_makes_one_packet_for_each_line() {
    let input = packet("serial", "1.5\r\n\n2.5\n");
    let out = split_lines(input.clone());
    assert_eq!(out.len(), 2);
    for (split, line) in out.iter().zip(["1.5", "2.5"]) {
        assert_eq!(split.ts_millis, input.ts_millis);
        assert_eq!(split.source_id, "serial");
        assert_eq!(split.raw, line.as_bytes());
        assert_eq!(split.text.as_deref(), Some(line));
        assert_eq!(split.tags, input.tags);
    }
}

#[test]
fn split_lines_encodes_each_line() {
    let out = split_lines(packet("serial", "h\u{e9}\n\u{1f600}"));
    assert_eq!(out.len(), 2);
    assert_eq!(out[0].raw, "h\u{e9}".as_bytes());
    assert_eq!(out[1].raw, "\u{1f600}".as_bytes());
}

#[test]
fn line_splitter_leaves_a_single_line_as_it_is() {
    let input = packet("serial", "no newline here");
    let out = LineSplitter.process(PipelineItem::Packet(input.clone()));
    assert_eq!(out.len(), 1);
    match &out[0] {
        PipelineItem::Packet(p) => {
            assert_eq!(p.ts_millis, input.ts_millis);
            assert_eq!(p.source_id, input.source_id);
            assert_eq!(p.raw, input.raw);
            assert_eq!(p.text, input.text);
            assert_eq!(p.tags, input.tags);
        }
        other => panic!("not a packet: {:?}", other),
    }
}

#[test]
fn line_splitter_passes_a_packet_without_text() {
    let input = DataPacket {
        ts_millis: 5,
        source_id: "rtt".to_string(),
        raw: vec![0xff, 0x00, 0x0a, 0x31],
        text: None,
        tags: vec![],
    };
    let out = split_lines(input.clone());
    assert_eq!(out.len(), 1);
    assert_eq!(out[0].raw, input.raw);
    assert_eq!(out[0].text, None);
    assert_eq!(out[0].ts_millis, 5);
}

#[test]
fn line_splitter_passes_a_packet_without_lines() {
    let input = DataPacket {
        ts_millis: 9,
        source_id: "rtt".to_string(),
        raw: vec![1, 2, 3],
        text: Some("\n\r\n\n".to_string()),
        tags: vec!["t".to_string()],
    };
    let out = split_lines(input.clone());
    assert_eq!(out.len(), 1);
    assert_eq!(out[0].raw, vec![1, 2, 3]);
    assert_eq!(out[0].text.as_deref(), Some("\n\r\n\n"));
    assert_eq!(out[0].tags, input.tags);
}

#[test]
fn line_splitter_passes_events_and_metrics() {
    let event = ParsedEvent {
        ts_millis: 3,
        kind: "boot".to_string(),
        payload: serde_json::Value::from(vec![serde_json::Value::from(1), serde_json::Value::Null]),
    };
    let out = LineSplitter.process(PipelineItem::Event(event.clone()));
    assert_eq!(out.len(), 1);
    match &out[0] {
        PipelineItem::Event(e) => {
            assert_eq!(e.ts_millis, 3);
            assert_eq!(e.kind, "boot");
            assert_eq!(e.payload, event.payload);
        }
        other => panic!("not an event: {:?}", other),
    }
    let metric = float_metric("serial", "2.5".to_string(), 77);
    let out = LineSplitter.process(PipelineItem::Metric(metric));
    assert_eq!(out.len(), 1);
    match &out[0] {
        PipelineItem::Metric(m) => {
            assert_eq!(m.ts_millis, 77);
            assert_eq!(m.value, "2.5");
        }
        other => panic!("not a metric: {:?}", other),
    }
}

#[test]
fn float_metric_holds_what_it_is_given() {
    let metric = float_metric("net", "-1e3".to_string(), 42);
    assert_eq!(metric.ts_millis, 42);
    assert_eq!(metric.source_id, "net");
    assert_eq!(metric.name, "float");
    assert_eq!(metric.value, "-1e3");
    assert_eq!(metric.value.parse::<f64>().unwrap(), -1000.0);
}

#[test]
fn float_extractor_finds_the_numbers_between_delimiters() {
    let out = extract_floats(packet("serial", "a 3.2, 4 ; 5.0|x"));
    assert_eq!(values(&out), vec![3.2, 4.0, 5.0]);
    for metric in &out {
        assert_eq!(metric.name, "float");
        assert_eq!(metric.source_id, "serial");
    }
    let texts: Vec<&str> = out.iter().map(|m| m.value.as_str()).collect();
    assert_eq!(texts, vec!["3.2", "4", "5.0"]);
}

#[test]
fn float_extractor_stamps_each_metric_with_a_time() {
    let before = stream_hub::model::types::now_millis();
    let out = extract_floats(packet("serial", "1 2"));
    let after = stream_hub::model::types::now_millis();
    assert_eq!(out.len(), 2);
    for metric in &out {
        assert!(metric.ts_millis + 60_000 >= before);
        assert!(metric.ts_millis <= after + 60_000);
    }
}

#[test]
fn float_extractor_yields_nothing_without_text() {
    let input = DataPacket {
        ts_millis: 5,
        source_id: "rtt".to_string(),
        raw: b"1.5".to_vec(),
        text: None,
        tags: vec![],
    };
    assert!(extract_floats(input.clone()).is_empty());
    assert!(FloatExtractor.process(PipelineItem::Packet(input)).is_empty());
}

#[test]
fn float_extractor_drops_what_is_no_number() {
    assert!(extract_floats(packet("serial", "a x hello 1.2.3 --")).is_empty());
}

#[test]
fn float_extractor_passes_events_and_metrics() {
    let event = ParsedEvent {
        ts_millis: 3,
        kind: "1.5".to_string(),
        payload: serde_json::Value::String("2.5".to_string()),
    };
    let out = FloatExtractor.process(PipelineItem::Event(event.clone()));
    assert_eq!(out.len(), 1);
    assert!(matches!(&out[0], PipelineItem::Event(e) if e.kind == "1.5" && e.payload == event.payload));
    let metric = float_metric("serial", "9".to_string(), 1);
    let out = FloatExtractor.process(PipelineItem::Metric(metric));
    assert_eq!(out.len(), 1);
    assert!(matches!(&out[0], PipelineItem::Metric(m) if m.value == "9" && m.ts_millis == 1));
}

#[test]
fn float_extractor_makes_metric_items_of_a_packet() {
    let out = FloatExtractor.process(PipelineItem::Packet(packet("net", "7|8")));
    assert_eq!(out.len(), 2);
    assert!(matches!(&out[0], PipelineItem::Metric(m) if m.value == "7" && m.source_id == "net"));
    assert!(matches!(&out[1], PipelineItem::Metric(m) if m.value == "8" && m.source_id == "net"));
}

#[test]
fn a_copy_of_an_item_holds_the_same() {
    let event = ParsedEvent {
        ts_millis: 3,
        kind: "boot".to_string(),
        payload: serde_json::Value::from(vec![
            serde_json::Value::from("a"),
            serde_json::Value::from(2),
            serde_json::Value::Null,
        ]),
    };
    let copy = PipelineItem::Event(event.clone()).clone();
    match copy {
        PipelineItem::Event(e) => {
            assert_eq!(e.ts_millis, 3);
            assert_eq!(e.kind, "boot");
            assert_eq!(e.payload, event.payload);
            assert_ne!(e.payload, serde_json::Value::Null);
        }
        other => panic!("not an event: {:?}", other),
    }
    let p = packet("serial", "x");
    let q = p.clone();
    assert_eq!(q.raw, p.raw);
    assert_eq!(q.text, p.text);
    assert_eq!(q.tags, p.tags);
    assert_eq!(q.source_id, p.source_id);
    assert_eq!(q.ts_millis, p.ts_millis);
}

use stream_hub::model::traits::{DataSource, SourceModel};
use stream_hub::model::types::{DataPacket, PipelineItem, SourceKind, SourceStatus};
use stream_hub::pipeline::{FloatExtractor, LineSplitter, Pipeline};
use stream_hub::pipeline::text::same_text;
use stream_hub::services::StreamManager;
use stream_hub::sources::{NetworkSource, RttSource, SerialSource};

fn manager() -> StreamManager {
    let mut manager = StreamManager::new();
    manager.add_source(Box::new(SerialSource::new("serial", "Serial")));
    manager.add_source(Box::new(RttSource::new("rtt", "RTT")));
    manager.add_source(Box::new(NetworkSource::new("network", "Network")));
    manager
}

fn packet(source_id: &str, text: &str) -> DataPacket {
    DataPacket::new(source_id, text.as_bytes().to_vec(), Some(text.to_string()))
}

fn values(items: &[PipelineItem]) -> Vec<f64> {
    items
        .iter()
        .map(|item| match item {
            PipelineItem::Metric(m) => m.value.parse::<f64>().unwrap(),
            other => panic!("not a metric: {:?}", other),
        })
        .collect()
}

#[test]
fn same_text_compares_the_characters() {
    assert!(same_text("", ""));
    assert!(same_text("serial", "serial"));
    assert!(!same_text("serial", "serial2"));
    assert!(!same_text("serial", "Serial"));
    assert!(!same_text("a", ""));
    assert!(same_text("h\u{e9}", "h\u{e9}"));
    assert!(!same_text("h\u{e9}", "he\u{301}"));
}

#[test]
fn new_packet_has_no_tags() {
    let p = DataPacket::new("serial", vec![1, 2], None);
    assert_eq!(p.source_id, "serial");
    assert_eq!(p.raw, vec![1, 2]);
    assert_eq!(p.text, None);
    assert!(p.tags.is_empty());
    let q = DataPacket::new("rtt", b"x".to_vec(), Some("x".to_string()));
    assert_eq!(q.text.as_deref(), Some("x"));
    assert!(q.ts_millis >= p.ts_millis || p.ts_millis - q.ts_millis < 60_000);
}

#[test]
fn a_packet_from_text_holds_its_encoding() {
    let p = DataPacket::from_text("serial", "h\u{e9} 1.5\n".to_string());
    assert_eq!(p.source_id, "serial");
    assert_eq!(p.text.as_deref(), Some("h\u{e9} 1.5\n"));
    assert_eq!(p.raw, "h\u{e9} 1.5\n".as_bytes());
    assert_eq!(p.raw, vec![0x68, 0xc3, 0xa9, 0x20, 0x31, 0x2e, 0x35, 0x0a]);
    assert!(p.tags.is_empty());
}

#[test]
fn a_new_manager_is_empty() {
    let mut manager = StreamManager::new();
    assert!(manager.list_sources().is_empty());
    assert_eq!(manager.list_parsers().len(), 2);
    assert!(manager.pipeline_status("serial_demo").is_none());
    assert_eq!(manager.start_source("serial"), Err("source not found: serial".to_string()));
}

#[test]
fn sources_are_listed_in_the_order_of_their_adding() {
    let manager = manager();
    let infos = manager.list_sources();
    let ids: Vec<&str> = infos.iter().map(|i| i.id.as_str()).collect();
    assert_eq!(ids, vec!["serial", "rtt", "network"]);
    let labels: Vec<&str> = infos.iter().map(|i| i.label.as_str()).collect();
    assert_eq!(labels, vec!["Serial", "RTT", "Network"]);
    assert!(matches!(infos[0].kind, SourceKind::Serial));
    assert!(matches!(infos[1].kind, SourceKind::Rtt));
    assert!(matches!(infos[2].kind, SourceKind::Network));
    assert!(infos.iter().all(|i| matches!(i.status, SourceStatus::Stopped)));
}

#[test]
fn a_source_takes_the_place_of_one_with_its_id() {
    let mut manager = manager();
    assert_eq!(manager.start_source("rtt"), Ok(()));
    manager.add_source(Box::new(NetworkSource::new("rtt", "Trace over network")));
    let infos = manager.list_sources();
    assert_eq!(infos.len(), 3);
    assert_eq!(infos[1].id, "rtt");
    assert_eq!(infos[1].label, "Trace over network");
    assert!(matches!(infos[1].kind, SourceKind::Network));
    assert!(matches!(infos[1].status, SourceStatus::Stopped));
    assert_eq!(infos[0].id, "serial");
    assert_eq!(infos[2].id, "network");
}

#[test]
fn start_and_stop_reach_one_source() {
    let mut manager = manager();
    assert_eq!(manager.start_source("rtt"), Ok(()));
    let infos = manager.list_sources();
    assert!(matches!(infos[0].status, SourceStatus::Stopped));
    assert!(matches!(infos[1].status, SourceStatus::Running));
    assert!(matches!(infos[2].status, SourceStatus::Stopped));
    assert_eq!(manager.stop_source("rtt"), Ok(()));
    assert!(manager.list_sources().iter().all(|i| matches!(i.status, SourceStatus::Stopped)));
    assert_eq!(manager.stop_source("rtt"), Ok(()));
    assert!(manager.list_sources().iter().all(|i| matches!(i.status, SourceStatus::Stopped)));
}

struct Busy {
    status: SourceStatus,
}

impl DataSource for Busy {
    fn model(&self) -> SourceModel {
        unreachable!()
    }

    fn id(&self) -> &str {
        "busy"
    }

    fn label(&self) -> &str {
        "Busy"
    }

    fn kind(&self) -> SourceKind {
        SourceKind::Unknown
    }

    fn status(&self) -> SourceStatus {
        self.status.clone()
    }

    fn start(&mut self) -> Result<(), String> {
        self.status = SourceStatus::Error("device busy".to_string());
        Err("device busy".to_string())
    }

    fn stop(&mut self) -> Result<(), String> {
        self.status = SourceStatus::Stopped;
        Ok(())
    }

    fn set_sender(&mut self, _sender: std::sync::mpsc::Sender<DataPacket>) {}
}

#[test]
fn a_failure_of_the_source_reaches_the_caller() {
    let mut manager = manager();
    manager.add_source(Box::new(Busy { status: SourceStatus::Stopped }));
    assert_eq!(manager.start_source("busy"), Err("device busy".to_string()));
    let infos = manager.list_sources();
    assert_eq!(infos[3].id, "busy");
    assert!(matches!(&infos[3].status, SourceStatus::Error(reason) if reason == "device busy"));
    assert_eq!(manager.stop_source("busy"), Ok(()));
    assert!(matches!(manager.list_sources()[3].status, SourceStatus::Stopped));
}

#[test]
fn an_unknown_source_is_not_found_and_nothing_changes() {
    let mut manager = manager();
    assert_eq!(manager.start_source("usb"), Err("source not found: usb".to_string()));
    assert_eq!(manager.stop_source("usb"), Err("source not found: usb".to_string()));
    assert_eq!(
        manager.attach_pipeline("usb", Pipeline::new("alpha")),
        Err("source not found: usb".to_string())
    );
    match manager.ingest_packet("usb", packet("usb", "1")) {
        Err(message) => assert_eq!(message, "source not found: usb"),
        Ok(_) => panic!("ingested for an unknown source"),
    }
    assert_eq!(manager.start_source(""), Err("source not found: ".to_string()));
    assert!(manager.pipeline_status("alpha").is_none());
    assert!(manager.pipeline_status("usb_demo").is_none());
    let infos = manager.list_sources();
    assert_eq!(infos.len(), 3);
    assert!(infos.iter().all(|i| matches!(i.status, SourceStatus::Stopped)));
}

#[test]
fn ingest_without_binding_makes_the_demo_pipeline() {
    let mut manager = manager();
    assert!(manager.pipeline_status("serial_demo").is_none());
    let (pipeline_id, items) = manager.ingest_packet("serial", packet("serial", "1.5\n2.5\n")).unwrap();
    assert_eq!(pipeline_id, "serial_demo");
    assert_eq!(values(&items), vec![1.5, 2.5]);
    for item in &items {
        assert!(matches!(item, PipelineItem::Metric(m) if m.source_id == "serial" && m.name == "float"));
    }
    let status = manager.pipeline_status("serial_demo").unwrap();
    assert_eq!(status.0, "serial_demo");
    assert!(matches!(status.1, SourceKind::Unknown));
    assert!(matches!(status.2, SourceStatus::Stopped));
    assert!(manager.pipeline_status("rtt_demo").is_none());
}

#[test]
fn the_demo_pipeline_is_made_once() {
    let mut manager = manager();
    let (first, _) = manager.ingest_packet("rtt", packet("rtt", "1")).unwrap();
    let (second, items) = manager.ingest_packet("rtt", packet("rtt", "a 3.2, 4 ; 5.0|x")).unwrap();
    assert_eq!(first, "rtt_demo");
    assert_eq!(second, "rtt_demo");
    assert_eq!(values(&items), vec![3.2, 4.0, 5.0]);
}

#[test]
fn ingest_goes_to_the_attached_pipeline() {
    let mut manager = manager();
    let mut split = Pipeline::new("split");
    split.push_stage(Box::new(LineSplitter));
    assert_eq!(manager.attach_pipeline("serial", split), Ok(()));
    let (first, items) = manager.ingest_packet("serial", packet("serial", "1\n2")).unwrap();
    assert_eq!(first, "split");
    assert_eq!(items.len(), 2);
    assert!(items.iter().all(|i| matches!(i, PipelineItem::Packet(_))));
    let (second, _) = manager.ingest_packet("serial", packet("serial", "3")).unwrap();
    assert_eq!(second, "split");
    assert!(manager.pipeline_status("serial_demo").is_none());

    let mut extract = Pipeline::new("extract");
    extract.push_stage(Box::new(FloatExtractor));
    assert_eq!(manager.attach_pipeline("serial", extract), Ok(()));
    let (third, items) = manager.ingest_packet("serial", packet("serial", "1\n2")).unwrap();
    assert_eq!(third, "extract");
    assert_eq!(values(&items), vec![1.0, 2.0]);
    let (fourth, _) = manager.ingest_packet("serial", packet("serial", "3")).unwrap();
    assert_eq!(fourth, "extract");
    assert!(manager.pipeline_status("split").is_some());
    assert!(manager.pipeline_status("extract").is_some());
}

#[test]
fn a_binding_belongs_to_one_source() {
    let mut manager = manager();
    assert_eq!(manager.attach_pipeline("serial", Pipeline::new("alpha")), Ok(()));
    assert_eq!(manager.start_source("rtt"), Ok(()));
    assert_eq!(manager.attach_pipeline("network", Pipeline::new("beta")), Ok(()));
    assert_eq!(manager.stop_source("rtt"), Ok(()));
    let (rtt, _) = manager.ingest_packet("rtt", packet("rtt", "1")).unwrap();
    let (serial, _) = manager.ingest_packet("serial", packet("serial", "1")).unwrap();
    let (network, _) = manager.ingest_packet("network", packet("network", "1")).unwrap();
    assert_eq!(serial, "alpha");
    assert_eq!(rtt, "rtt_demo");
    assert_eq!(network, "beta");
}

#[test]
fn an_attached_pipeline_takes_the_place_of_one_with_its_id() {
    let mut manager = manager();
    let (id, items) = manager.ingest_packet("serial", packet("serial", "1 2")).unwrap();
    assert_eq!(id, "serial_demo");
    assert_eq!(items.len(), 2);
    assert_eq!(manager.attach_pipeline("rtt", Pipeline::new("serial_demo")), Ok(()));
    let (id, items) = manager.ingest_packet("serial", packet("serial", "1 2")).unwrap();
    assert_eq!(id, "serial_demo");
    assert_eq!(items.len(), 1);
    assert!(matches!(&items[0], PipelineItem::Packet(p) if p.text.as_deref() == Some("1 2")));
}

#[test]
fn a_binding_outlives_the_source_it_was_made_for() {
    let mut manager = manager();
    assert_eq!(manager.attach_pipeline("serial", Pipeline::new("alpha")), Ok(()));
    manager.add_source(Box::new(SerialSource::new("serial", "Other port")));
    let (id, _) = manager.ingest_packet("serial", packet("serial", "1")).unwrap();
    assert_eq!(id, "alpha");
}

#[test]
fn pipeline_status_tells_of_pipelines_that_there_are() {
    let mut manager = manager();
    assert!(manager.pipeline_status("alpha").is_none());
    assert_eq!(manager.attach_pipeline("serial", Pipeline::new("alpha")), Ok(()));
    let status = manager.pipeline_status("alpha").unwrap();
    assert_eq!(status.0, "alpha");
    assert!(matches!(status.1, SourceKind::Unknown));
    assert!(matches!(status.2, SourceStatus::Stopped));
    assert!(manager.pipeline_status("ALPHA").is_none());
}

#[test]
fn the_builtin_sources_are_three() {
    let manager = StreamManager::with_builtin_sources();
    let infos = manager.list_sources();
    let ids: Vec<&str> = infos.iter().map(|i| i.id.as_str()).collect();
    assert_eq!(ids, vec!["serial", "rtt", "network"]);
    let labels: Vec<&str> = infos.iter().map(|i| i.label.as_str()).collect();
    assert_eq!(labels, vec!["Serial", "RTT", "Network"]);
    assert!(matches!(infos[0].kind, SourceKind::Serial));
    assert!(matches!(infos[1].kind, SourceKind::Rtt));
    assert!(matches!(infos[2].kind, SourceKind::Network));
    assert!(infos.iter().all(|i| matches!(i.status, SourceStatus::Stopped)));
    assert!(manager.pipeline_status("serial_demo").is_none());
}

#[test]
fn attach_then_ingest_twice_on_serial() {
    let mut manager = StreamManager::with_builtin_sources();
    assert_eq!(manager.attach_pipeline("serial", Pipeline::new("first")), Ok(()));
    let (a, _) = manager.ingest_packet("serial", packet("serial", "1")).unwrap();
    let (b, _) = manager.ingest_packet("serial", packet("serial", "2")).unwrap();
    assert_eq!(a, "first");
    assert_eq!(b, "first");
    assert!(manager.pipeline_status("serial_demo").is_none());
    assert_eq!(manager.attach_pipeline("serial", Pipeline::new("second")), Ok(()));
    let (c, _) = manager.ingest_packet("serial", packet("serial", "3")).unwrap();
    let (d, _) = manager.ingest_packet("serial", packet("serial", "4")).unwrap();
    assert_eq!(c, "second");
    assert_eq!(d, "second");
}

#[test]
fn parsers_are_the_catalog() {
    let manager = manager();
    let parsers = manager.list_parsers();
    let ids: Vec<&str> = parsers.iter().map(|p| p.id.as_str()).collect();
    assert_eq!(ids, vec!["line_splitter", "float_extractor"]);
}

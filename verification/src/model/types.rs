//! Items that travel through a pipeline, and the descriptors of sources and
//! parsers, each with its mathematical model.

use vstd::prelude::*;
use vstd::string::StrSliceExecFns;

verus! {

/// `serde_json::Value`, the open-schema document an event carries. The library
/// moves such a value and never looks inside it, so nothing is claimed of it.
#[verifier::external_type_specification]
#[verifier::external_body]
pub struct ExJsonValue(serde_json::Value);

/// `serde_json::Value::clone`, which the crate derives: the copy is the
/// document over again.
pub assume_specification[ <serde_json::Value as Clone>::clone ](
    value: &serde_json::Value,
) -> (copy: serde_json::Value)
    ensures
        copy == *value,
;

/// A unit of raw or line-segmented data, tagged with its source and the time
/// it was taken.
#[derive(Debug)]
pub struct DataPacket {
    pub ts_millis: u128,
    pub source_id: String,
    pub raw: Vec<u8>,
    pub text: Option<String>,
    pub tags: Vec<String>,
}

/// The model of a [`DataPacket`].
pub struct PacketView {
    pub ts_millis: u128,
    pub source_id: Seq<char>,
    pub raw: Seq<u8>,
    pub text: Option<Seq<char>>,
    pub tags: Seq<Seq<char>>,
}

impl View for DataPacket {
    type V = PacketView;

    open spec fn view(&self) -> PacketView {
        PacketView {
            ts_millis: self.ts_millis,
            source_id: self.source_id@,
            raw: self.raw@,
            text: self.text.deep_view(),
            tags: self.tags.deep_view(),
        }
    }
}

impl DeepView for DataPacket {
    type V = PacketView;

    open spec fn deep_view(&self) -> PacketView {
        self.view()
    }
}

impl Clone for DataPacket {
    fn clone(&self) -> (copy: Self)
        ensures
            copy@ == self@,
    {
        let tags = self.tags.clone();
        assert(tags.deep_view() =~= self.tags.deep_view());
        DataPacket {
            ts_millis: self.ts_millis,
            source_id: self.source_id.clone(),
            raw: self.raw.clone(),
            text: self.text.clone(),
            tags,
        }
    }
}

impl PacketView {
    /// The text, where there is one, is what the raw bytes decode to.
    pub open spec fn coherent(self) -> bool {
        self.text matches Some(t) ==> self.raw == vstd::utf8::encode_utf8(t)
    }
}

/// Milliseconds since the Unix epoch, as the system clock gives them now by
/// `std::time::SystemTime::now`; zero where the clock stands before the epoch.
/// Nothing is promised of the value: two readings may differ in either
/// direction.
#[verifier::external_body]
pub fn now_millis() -> u128 {
    std::time::SystemTime::now().duration_since(std::time::UNIX_EPOCH).unwrap_or_default().as_millis()
}

/// A packet as it is made: what it is given, and no tags.
pub open spec fn fresh_packet(
    ts_millis: u128,
    source_id: Seq<char>,
    raw: Seq<u8>,
    text: Option<Seq<char>>,
) -> PacketView {
    PacketView { ts_millis, source_id, raw, text, tags: Seq::empty() }
}

impl DataPacket {
    /// A packet taken now, without tags. Its time is what the clock gave; the
    /// rest is what was handed in.
    pub fn new(source_id: &str, raw: Vec<u8>, text: Option<String>) -> (packet: Self)
        ensures
            packet@ == fresh_packet(packet.ts_millis, source_id@, raw@, text.deep_view()),
    {
        DataPacket::taken_at(now_millis(), source_id, raw, text)
    }

    /// A packet taken now that holds `text`, and as raw bytes its encoding.
    pub fn from_text(source_id: &str, text: String) -> (packet: Self)
        ensures
            packet@ == fresh_packet(
                packet.ts_millis,
                source_id@,
                vstd::utf8::encode_utf8(text@),
                Some(text@),
            ),
            packet@.coherent(),
    {
        let raw = text.as_str().as_bytes_vec();
        DataPacket::new(source_id, raw, Some(text))
    }

    /// A packet taken at `ts_millis`, without tags.
    pub fn taken_at(ts_millis: u128, source_id: &str, raw: Vec<u8>, text: Option<String>) -> (packet:
        Self)
        ensures
            packet@ == fresh_packet(ts_millis, source_id@, raw@, text.deep_view()),
    {
        let packet = DataPacket {
            ts_millis,
            source_id: source_id.to_owned(),
            raw,
            text,
            tags: Vec::new(),
        };
        assert(packet.tags.deep_view() =~= Seq::<Seq<char>>::empty());
        packet
    }
}

/// A structured occurrence derived from packets. The payload is an arbitrary
/// document; stages hand it on as it is.
#[derive(Debug)]
pub struct ParsedEvent {
    pub ts_millis: u128,
    pub kind: String,
    pub payload: serde_json::Value,
}

/// The model of a [`ParsedEvent`].
pub struct EventView {
    pub ts_millis: u128,
    pub kind: Seq<char>,
    pub payload: serde_json::Value,
}

impl View for ParsedEvent {
    type V = EventView;

    open spec fn view(&self) -> EventView {
        EventView { ts_millis: self.ts_millis, kind: self.kind@, payload: self.payload }
    }
}

impl DeepView for ParsedEvent {
    type V = EventView;

    open spec fn deep_view(&self) -> EventView {
        self.view()
    }
}

impl Clone for ParsedEvent {
    fn clone(&self) -> (copy: Self)
        ensures
            copy@ == self@,
    {
        ParsedEvent {
            ts_millis: self.ts_millis,
            kind: self.kind.clone(),
            payload: self.payload.clone(),
        }
    }
}

/// A named numeric sample derived from a packet.
///
/// The library does no arithmetic on samples, so `value` holds the sample as
/// the decimal literal that stood in the text; it becomes a binary number
/// where it leaves the library.
#[derive(Debug)]
pub struct Metric {
    pub ts_millis: u128,
    pub source_id: String,
    pub name: String,
    pub value: String,
}

/// The model of a [`Metric`].
pub struct MetricView {
    pub ts_millis: u128,
    pub source_id: Seq<char>,
    pub name: Seq<char>,
    pub value: Seq<char>,
}

impl View for Metric {
    type V = MetricView;

    open spec fn view(&self) -> MetricView {
        MetricView {
            ts_millis: self.ts_millis,
            source_id: self.source_id@,
            name: self.name@,
            value: self.value@,
        }
    }
}

impl DeepView for Metric {
    type V = MetricView;

    open spec fn deep_view(&self) -> MetricView {
        self.view()
    }
}

impl Clone for Metric {
    fn clone(&self) -> (copy: Self)
        ensures
            copy@ == self@,
    {
        Metric {
            ts_millis: self.ts_millis,
            source_id: self.source_id.clone(),
            name: self.name.clone(),
            value: self.value.clone(),
        }
    }
}

/// What flows between the stages of a pipeline.
#[derive(Debug)]
pub enum PipelineItem {
    Packet(DataPacket),
    Event(ParsedEvent),
    Metric(Metric),
}

/// The model of a [`PipelineItem`].
pub enum ItemView {
    Packet(PacketView),
    Event(EventView),
    Metric(MetricView),
}

impl View for PipelineItem {
    type V = ItemView;

    open spec fn view(&self) -> ItemView {
        match self {
            PipelineItem::Packet(p) => ItemView::Packet(p@),
            PipelineItem::Event(e) => ItemView::Event(e@),
            PipelineItem::Metric(m) => ItemView::Metric(m@),
        }
    }
}

impl DeepView for PipelineItem {
    type V = ItemView;

    open spec fn deep_view(&self) -> ItemView {
        self.view()
    }
}

impl Clone for PipelineItem {
    fn clone(&self) -> (copy: Self)
        ensures
            copy@ == self@,
    {
        match self {
            PipelineItem::Packet(packet) => PipelineItem::Packet(packet.clone()),
            PipelineItem::Event(event) => PipelineItem::Event(event.clone()),
            PipelineItem::Metric(metric) => PipelineItem::Metric(metric.clone()),
        }
    }
}

/// The transport behind a source. It serves display only.
#[derive(Debug)]
pub enum SourceKind {
    Rtt,
    Serial,
    Network,
    Unknown,
}

impl Clone for SourceKind {
    fn clone(&self) -> (kind: Self)
        ensures
            kind == *self,
    {
        match self {
            SourceKind::Rtt => SourceKind::Rtt,
            SourceKind::Serial => SourceKind::Serial,
            SourceKind::Network => SourceKind::Network,
            SourceKind::Unknown => SourceKind::Unknown,
        }
    }
}

/// Where a source stands in its lifecycle.
#[derive(Debug)]
pub enum SourceStatus {
    Stopped,
    Running,
    Error(String),
}

/// The model of a [`SourceStatus`].
pub enum StatusView {
    Stopped,
    Running,
    Error(Seq<char>),
}

impl View for SourceStatus {
    type V = StatusView;

    open spec fn view(&self) -> StatusView {
        match self {
            SourceStatus::Stopped => StatusView::Stopped,
            SourceStatus::Running => StatusView::Running,
            SourceStatus::Error(reason) => StatusView::Error(reason@),
        }
    }
}

impl DeepView for SourceStatus {
    type V = StatusView;

    open spec fn deep_view(&self) -> StatusView {
        self.view()
    }
}

impl Clone for SourceStatus {
    fn clone(&self) -> (status: Self)
        ensures
            status == *self,
    {
        match self {
            SourceStatus::Stopped => SourceStatus::Stopped,
            SourceStatus::Running => SourceStatus::Running,
            SourceStatus::Error(reason) => SourceStatus::Error(reason.clone()),
        }
    }
}

/// What the manager tells of one source.
#[derive(Debug)]
pub struct SourceInfo {
    pub id: String,
    pub label: String,
    pub kind: SourceKind,
    pub status: SourceStatus,
}

/// The model of a [`SourceInfo`].
pub struct SourceInfoView {
    pub id: Seq<char>,
    pub label: Seq<char>,
    pub kind: SourceKind,
    pub status: StatusView,
}

impl View for SourceInfo {
    type V = SourceInfoView;

    open spec fn view(&self) -> SourceInfoView {
        SourceInfoView {
            id: self.id@,
            label: self.label@,
            kind: self.kind,
            status: self.status@,
        }
    }
}

impl DeepView for SourceInfo {
    type V = SourceInfoView;

    open spec fn deep_view(&self) -> SourceInfoView {
        self.view()
    }
}

impl Clone for SourceInfo {
    fn clone(&self) -> (info: Self)
        ensures
            info == *self,
    {
        SourceInfo {
            id: self.id.clone(),
            label: self.label.clone(),
            kind: self.kind.clone(),
            status: self.status.clone(),
        }
    }
}

/// One entry of the catalog of stage kinds.
#[derive(Debug)]
pub struct ParserDescriptor {
    pub id: String,
    pub label: String,
    pub kind: String,
    pub configurable: bool,
}

/// The model of a [`ParserDescriptor`].
pub struct DescriptorView {
    pub id: Seq<char>,
    pub label: Seq<char>,
    pub kind: Seq<char>,
    pub configurable: bool,
}

impl View for ParserDescriptor {
    type V = DescriptorView;

    open spec fn view(&self) -> DescriptorView {
        DescriptorView {
            id: self.id@,
            label: self.label@,
            kind: self.kind@,
            configurable: self.configurable,
        }
    }
}

impl DeepView for ParserDescriptor {
    type V = DescriptorView;

    open spec fn deep_view(&self) -> DescriptorView {
        self.view()
    }
}

impl Clone for ParserDescriptor {
    fn clone(&self) -> (descriptor: Self)
        ensures
            descriptor == *self,
    {
        ParserDescriptor {
            id: self.id.clone(),
            label: self.label.clone(),
            kind: self.kind.clone(),
            configurable: self.configurable,
        }
    }
}

} // verus!

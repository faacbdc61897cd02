//! The catalog of the stage kinds that can be had. It is fixed when the
//! registry is made.

use crate::model::types::{DescriptorView, ParserDescriptor};
use vstd::prelude::*;

verus! {

/// The entry of a stage kind that takes no configuration.
pub open spec fn stage_descriptor(id: Seq<char>, label: Seq<char>) -> DescriptorView {
    DescriptorView { id, label, kind: "stage"@, configurable: false }
}

/// The catalog: the line splitter, then the float extractor.
pub open spec fn catalog() -> Seq<DescriptorView> {
    seq![
        stage_descriptor("line_splitter"@, "Line Splitter"@),
        stage_descriptor("float_extractor"@, "Float Extractor"@),
    ]
}

/// Holds the catalog.
pub struct ParserRegistry {
    parsers: Vec<ParserDescriptor>,
}

impl View for ParserRegistry {
    type V = Seq<DescriptorView>;

    closed spec fn view(&self) -> Seq<DescriptorView> {
        self.parsers.deep_view()
    }
}

impl ParserRegistry {
    pub fn new() -> (registry: Self)
        ensures
            registry@ == catalog(),
    {
        let mut parsers: Vec<ParserDescriptor> = Vec::new();
        parsers.push(
            ParserDescriptor {
                id: "line_splitter".to_owned(),
                label: "Line Splitter".to_owned(),
                kind: "stage".to_owned(),
                configurable: false,
            },
        );
        parsers.push(
            ParserDescriptor {
                id: "float_extractor".to_owned(),
                label: "Float Extractor".to_owned(),
                kind: "stage".to_owned(),
                configurable: false,
            },
        );
        assert(parsers.deep_view() =~= catalog());
        ParserRegistry { parsers }
    }

    /// A copy of the catalog, in its order.
    pub fn list(&self) -> (parsers: Vec<ParserDescriptor>)
        ensures
            parsers.deep_view() == self@,
    {
        let parsers = self.parsers.clone();
        assert(parsers.deep_view() =~= self.parsers.deep_view());
        parsers
    }
}

} // verus!

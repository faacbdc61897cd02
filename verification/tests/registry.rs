use stream_hub::services::ParserRegistry;

#[test]
fn registry_lists_the_two_stages() {
    let registry = ParserRegistry::new();
    let parsers = registry.list();
    assert_eq!(parsers.len(), 2);
    assert_eq!(parsers[0].id, "line_splitter");
    assert_eq!(parsers[0].label, "Line Splitter");
    assert_eq!(parsers[0].kind, "stage");
    assert!(!parsers[0].configurable);
    assert_eq!(parsers[1].id, "float_extractor");
    assert_eq!(parsers[1].label, "Float Extractor");
    assert_eq!(parsers[1].kind, "stage");
    assert!(!parsers[1].configurable);
}

#[test]
fn registry_lists_the_same_each_time() {
    let registry = ParserRegistry::new();
    let first = registry.list();
    let second = registry.list();
    assert_eq!(first.len(), second.len());
    for (a, b) in first.iter().zip(second.iter()) {
        assert_eq!(a.id, b.id);
        assert_eq!(a.label, b.label);
    }
}

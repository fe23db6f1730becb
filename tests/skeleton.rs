use spectre_grid::skeleton::{Baseline, DriftSignal, StructuralHasher};

#[test]
fn text_between_tags_is_ignored() {
    assert_eq!(StructuralHasher::hash("<div>A</div>"), StructuralHasher::hash("<div>B</div>"));
    assert_eq!(StructuralHasher::hash("hello"), StructuralHasher::hash("world!"));
}

#[test]
fn tag_order_matters() {
    assert_ne!(
        StructuralHasher::hash("<div><span></span></div>"),
        StructuralHasher::hash("<span><div></div></span>")
    );
    assert_ne!(StructuralHasher::hash("<p>"), StructuralHasher::hash("<p><p>"));
}

#[test]
fn baseline_is_set_once() {
    let mut b = Baseline::new();
    let h1 = StructuralHasher::hash("<html><body>x</body></html>");
    let h2 = StructuralHasher::hash("<html><div>x</div></html>");
    assert_eq!(b.observe(h1), DriftSignal::Learned);
    assert_eq!(b.observe(h1), DriftSignal::Unchanged);
    assert_eq!(b.observe(h2), DriftSignal::Drifted);
    assert_eq!(b.hash, Some(h1));
}

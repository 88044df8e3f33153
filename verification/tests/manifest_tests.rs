use wimg_pipeline::manifest::Manifest;

fn s(x: &str) -> String {
    x.to_string()
}

#[test]
fn empty_manifest_has_no_leaves() {
    let m = Manifest::new();
    assert_eq!(m.get(&s("cat"), &s("thumb"), &s("png")), None);
}

#[test]
fn record_then_get() {
    let mut m = Manifest::new();
    m.record(&s("cat"), &s("thumb"), &s("png"), &s("cat-aa.png"));
    assert_eq!(m.get(&s("cat"), &s("thumb"), &s("png")), Some(&s("cat-aa.png")));
    assert_eq!(m.get(&s("cat"), &s("thumb"), &s("jpg")), None);
    assert_eq!(m.get(&s("cat"), &s("hero"), &s("png")), None);
    assert_eq!(m.get(&s("dog"), &s("thumb"), &s("png")), None);
}

#[test]
fn record_preserves_other_leaves() {
    let mut m = Manifest::new();
    m.record(&s("cat"), &s("thumb"), &s("png"), &s("cat-1.png"));
    m.record(&s("cat"), &s("thumb"), &s("webp"), &s("cat-1.webp"));
    m.record(&s("cat"), &s("hero"), &s("png"), &s("cat-2.png"));
    m.record(&s("dog"), &s("thumb"), &s("png"), &s("dog-1.png"));
    // A new leaf for a different format, variant and image left the rest intact.
    assert_eq!(m.get(&s("cat"), &s("thumb"), &s("png")), Some(&s("cat-1.png")));
    assert_eq!(m.get(&s("cat"), &s("thumb"), &s("webp")), Some(&s("cat-1.webp")));
    assert_eq!(m.get(&s("cat"), &s("hero"), &s("png")), Some(&s("cat-2.png")));
    assert_eq!(m.get(&s("dog"), &s("thumb"), &s("png")), Some(&s("dog-1.png")));
}

#[test]
fn rerecord_overwrites_only_that_leaf() {
    let mut m = Manifest::new();
    m.record(&s("cat"), &s("thumb"), &s("png"), &s("old.png"));
    m.record(&s("cat"), &s("thumb"), &s("webp"), &s("keep.webp"));
    m.record(&s("cat"), &s("thumb"), &s("png"), &s("new.png"));
    assert_eq!(m.get(&s("cat"), &s("thumb"), &s("png")), Some(&s("new.png")));
    assert_eq!(m.get(&s("cat"), &s("thumb"), &s("webp")), Some(&s("keep.webp")));
    // Still a single entry per level: one image, one variant, two formats.
    assert_eq!(m.entries.len(), 1);
    assert_eq!(m.entries[0].1.len(), 1);
    assert_eq!(m.entries[0].1[0].1.len(), 2);
}

#[test]
fn distinct_variants_coexist() {
    let mut m = Manifest::new();
    m.record(&s("cat"), &s("thumb"), &s("png"), &s("a.png"));
    m.record(&s("cat"), &s("hero"), &s("png"), &s("b.png"));
    assert_eq!(m.get(&s("cat"), &s("thumb"), &s("png")), Some(&s("a.png")));
    assert_eq!(m.get(&s("cat"), &s("hero"), &s("png")), Some(&s("b.png")));
}

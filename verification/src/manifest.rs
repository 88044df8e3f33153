//! The cross-run manifest: a three-level mapping from logical image name to
//! variant name to format extension to the output path relative to the
//! output directory.
//!
//! Recording a `(image, variant, format)` leaf upserts exactly that leaf and
//! leaves every other leaf untouched, so artifacts recorded by earlier runs
//! survive later ones. Keys at every level are unique. Reading the mapping
//! from disk and writing it back as JSON is the caller's concern; this
//! module owns the merge logic alone.

use vstd::prelude::*;

verus! {

/// format extension -> relative output path
pub type LeafMap = Map<Seq<char>, Seq<char>>;

/// variant name -> formats
pub type VariantMap = Map<Seq<char>, LeafMap>;

/// logical image name -> variants
pub type ImageMap = Map<Seq<char>, VariantMap>;

/// The mapping an association list stands for: later entries win, though
/// with unique keys no two entries collide.
pub open spec fn assoc_view<V, VV>(s: Seq<(String, V)>, f: spec_fn(V) -> VV) -> Map<Seq<char>, VV>
    decreases s.len(),
{
    if s.len() == 0 {
        Map::<Seq<char>, VV>::empty()
    } else {
        assoc_view(s.drop_last(), f).insert(s.last().0@, f(s.last().1))
    }
}

/// Whether the keys of an association list are pairwise distinct.
pub open spec fn keys_distinct<V>(s: Seq<(String, V)>) -> bool {
    forall|i: int, j: int| 0 <= i < j < s.len() ==> s[i].0@ != s[j].0@
}

/// With distinct keys, replacing the entry at `i` by one with the same key
/// updates exactly that key's image in the mapping.
proof fn lemma_assoc_view_update<V, VV>(s: Seq<(String, V)>, f: spec_fn(V) -> VV, i: int, p: (
    String,
    V,
))
    requires
        keys_distinct(s),
        0 <= i < s.len(),
        p.0@ == s[i].0@,
    ensures
        assoc_view(s.update(i, p), f) =~= assoc_view(s, f).insert(p.0@, f(p.1)),
    decreases s.len(),
{
    let s2 = s.update(i, p);
    if i == s.len() - 1 {
        assert(s2.drop_last() =~= s.drop_last());
    } else {
        assert(s2.drop_last() =~= s.drop_last().update(i, p));
        assert(s2.last() == s.last());
        lemma_assoc_view_update(s.drop_last(), f, i, p);
        assert(s[i].0@ != s.last().0@);
    }
}

/// An association list contains a key exactly when one of its entries
/// carries it; the mapping's value there is the view of that entry's value.
proof fn lemma_assoc_view_index<V, VV>(s: Seq<(String, V)>, f: spec_fn(V) -> VV, i: int)
    requires
        keys_distinct(s),
        0 <= i < s.len(),
    ensures
        assoc_view(s, f).contains_key(s[i].0@),
        assoc_view(s, f)[s[i].0@] == f(s[i].1),
    decreases s.len(),
{
    if i == s.len() - 1 {
    } else {
        lemma_assoc_view_index(s.drop_last(), f, i);
        assert(s[i].0@ != s.last().0@);
    }
}

/// A key carried by no entry is absent from the mapping.
proof fn lemma_assoc_view_absent<V, VV>(s: Seq<(String, V)>, f: spec_fn(V) -> VV, k: Seq<char>)
    requires
        forall|i: int| 0 <= i < s.len() ==> s[i].0@ != k,
    ensures
        !assoc_view(s, f).contains_key(k),
    decreases s.len(),
{
    if s.len() > 0 {
        lemma_assoc_view_absent(s.drop_last(), f, k);
    }
}

/// The view of the innermost level: extension -> relative output path.
pub open spec fn leaf_view(s: Seq<(String, String)>) -> LeafMap {
    assoc_view(s, |v: String| v@)
}

/// The view of the middle level: variant -> formats.
pub open spec fn variant_view(s: Seq<(String, Vec<(String, String)>)>) -> VariantMap {
    assoc_view(s, |v: Vec<(String, String)>| leaf_view(v@))
}

/// The view of the outer level: logical image name -> variants.
pub open spec fn image_view(s: Seq<(String, Vec<(String, Vec<(String, String)>)>)>) -> ImageMap {
    assoc_view(s, |v: Vec<(String, Vec<(String, String)>)>| variant_view(v@))
}

/// Find the entry carrying `key`, scanning from the front.
fn find_key<V>(v: &Vec<(String, V)>, key: &String) -> (r: Option<usize>)
    ensures
        match r {
            Some(i) => i < v@.len() && v@[i as int].0@ == key@,
            None => forall|j: int| 0 <= j < v@.len() ==> v@[j].0@ != key@,
        },
{
    let mut i: usize = 0;
    while i < v.len()
        invariant
            i <= v@.len(),
            forall|j: int| 0 <= j < i ==> v@[j].0@ != key@,
        decreases v@.len() - i,
    {
        if v[i].0 == *key {
            return Some(i);
        }
        i = i + 1;
    }
    None
}

/// Upsert one leaf: set `key` to `val`, touching no other key.
fn upsert_leaf(v: &mut Vec<(String, String)>, key: &String, val: &String)
    requires
        keys_distinct(old(v)@),
    ensures
        keys_distinct(final(v)@),
        leaf_view(final(v)@) =~= leaf_view(old(v)@).insert(key@, val@),
{
    let ghost s0 = v@;
    match find_key(v, key) {
        Some(i) => {
            let mut pair = v.remove(i);
            pair.1 = val.clone();
            let ghost p = pair;
            v.insert(i, pair);
            proof {
                assert(v@ =~= s0.update(i as int, p));
                lemma_assoc_view_update(s0, |x: String| x@, i as int, p);
                assert(forall|a: int, b: int|
                    0 <= a < b < v@.len() ==> v@[a].0@ != v@[b].0@) by {
                    assert(forall|a: int| 0 <= a < v@.len() && a != i ==> v@[a].0@ == s0[a].0@);
                }
            }
        },
        None => {
            v.push((key.clone(), val.clone()));
            proof {
                assert(v@.drop_last() =~= s0);
                assert(leaf_view(v@) =~= leaf_view(s0).insert(key@, val@));
            }
        },
    }
}

/// Upsert the `(variant, ext)` leaf inside the middle level.
fn upsert_variant(v: &mut Vec<(String, Vec<(String, String)>)>, variant: &String, ext: &String,
    path: &String)
    requires
        keys_distinct(old(v)@),
        forall|i: int| 0 <= i < old(v)@.len() ==> keys_distinct(#[trigger] old(v)@[i].1@),
    ensures
        keys_distinct(final(v)@),
        forall|i: int| 0 <= i < final(v)@.len() ==> keys_distinct(#[trigger] final(v)@[i].1@),
        variant_view(final(v)@) =~= variant_view(old(v)@).insert(
            variant@,
            leaf_of(variant_view(old(v)@), variant@).insert(ext@, path@),
        ),
{
    let ghost s0 = v@;
    let ghost f = |x: Vec<(String, String)>| leaf_view(x@);
    match find_key(v, variant) {
        Some(i) => {
            proof {
                lemma_assoc_view_index(s0, f, i as int);
            }
            let mut pair = v.remove(i);
            upsert_leaf(&mut pair.1, ext, path);
            let ghost p = pair;
            v.insert(i, pair);
            proof {
                assert(v@ =~= s0.update(i as int, p));
                lemma_assoc_view_update(s0, f, i as int, p);
                assert(forall|a: int, b: int|
                    0 <= a < b < v@.len() ==> v@[a].0@ != v@[b].0@) by {
                    assert(forall|a: int| 0 <= a < v@.len() && a != i ==> v@[a].0@ == s0[a].0@);
                }
                assert(forall|a: int| 0 <= a < v@.len() && a != i ==> v@[a].1@ == s0[a].1@);
            }
        },
        None => {
            proof {
                lemma_assoc_view_absent(s0, f, variant@);
            }
            let mut leaf: Vec<(String, String)> = Vec::new();
            leaf.push((ext.clone(), path.clone()));
            let ghost l = leaf;
            v.push((variant.clone(), leaf));
            proof {
                assert(v@.drop_last() =~= s0);
                assert(l@.drop_last() =~= Seq::<(String, String)>::empty());
                assert(leaf_view(Seq::<(String, String)>::empty()) =~= Map::<
                    Seq<char>,
                    Seq<char>,
                >::empty());
                assert(leaf_view(l@) =~= Map::<Seq<char>, Seq<char>>::empty().insert(ext@, path@));
            }
        },
    }
}

/// The formats recorded under a variant, or the empty mapping when the
/// variant is not recorded yet.
pub open spec fn leaf_of(m: VariantMap, variant: Seq<char>) -> LeafMap {
    if m.contains_key(variant) {
        m[variant]
    } else {
        Map::<Seq<char>, Seq<char>>::empty()
    }
}

/// The variants recorded under a logical image name, or the empty mapping
/// when the image is not recorded yet.
pub open spec fn variants_of(m: ImageMap, name: Seq<char>) -> VariantMap {
    if m.contains_key(name) {
        m[name]
    } else {
        Map::<Seq<char>, LeafMap>::empty()
    }
}

/// What recording one leaf does to the whole mapping: exactly the
/// `(name, variant, ext)` leaf is set to `path`; every level keeps all its
/// other keys as they were.
pub open spec fn record_spec(m: ImageMap, name: Seq<char>, variant: Seq<char>, ext: Seq<char>,
    path: Seq<char>) -> ImageMap {
    let vmap = variants_of(m, name);
    let emap = leaf_of(vmap, variant);
    m.insert(name, vmap.insert(variant, emap.insert(ext, path)))
}

/// The recorded output path of one `(image, variant, format)` leaf.
pub open spec fn leaf_lookup(m: ImageMap, name: Seq<char>, variant: Seq<char>, ext: Seq<char>)
    -> Option<Seq<char>> {
    if m.contains_key(name) && m[name].contains_key(variant) && m[name][variant].contains_key(ext) {
        Option::Some(m[name][variant][ext])
    } else {
        Option::<Seq<char>>::None
    }
}

/// The in-memory manifest.
#[derive(Debug)]
pub struct Manifest {
    /// Outer level: one entry per logical image name.
    pub entries: Vec<(String, Vec<(String, Vec<(String, String)>)>)>,
}

impl Manifest {
    /// Keys at every level are unique.
    pub open spec fn wf(self) -> bool {
        &&& keys_distinct(self.entries@)
        &&& forall|i: int|
            0 <= i < self.entries@.len() ==> keys_distinct(#[trigger] self.entries@[i].1@)
        &&& forall|i: int, j: int|
            0 <= i < self.entries@.len() && 0 <= j < self.entries@[i].1@.len() ==> keys_distinct(
                #[trigger] self.entries@[i].1@[j].1@,
            )
    }

    /// The three-level mapping this manifest holds.
    pub open spec fn view(self) -> ImageMap {
        image_view(self.entries@)
    }

    /// The empty manifest: no image recorded.
    pub fn new() -> (r: Manifest)
        ensures
            r.wf(),
            r@ == Map::<Seq<char>, VariantMap>::empty(),
    {
        let r = Manifest { entries: Vec::new() };
        proof {
            assert(r@ =~= Map::<Seq<char>, VariantMap>::empty());
        }
        r
    }

    /// Record one output artifact: upsert the `(name, variant, ext)` leaf to
    /// `path` and touch nothing else.
    pub fn record(&mut self, name: &String, variant: &String, ext: &String, path: &String)
        requires
            old(self).wf(),
        ensures
            final(self).wf(),
            final(self)@ =~= record_spec(old(self)@, name@, variant@, ext@, path@),
    {
        let ghost s0 = self.entries@;
        let ghost f = |x: Vec<(String, Vec<(String, String)>)>| variant_view(x@);
        match find_key(&self.entries, name) {
            Some(i) => {
                proof {
                    lemma_assoc_view_index(s0, f, i as int);
                }
                let mut pair = self.entries.remove(i);
                upsert_variant(&mut pair.1, variant, ext, path);
                let ghost p = pair;
                self.entries.insert(i, pair);
                proof {
                    assert(self.entries@ =~= s0.update(i as int, p));
                    lemma_assoc_view_update(s0, f, i as int, p);
                    assert(forall|a: int, b: int|
                        0 <= a < b < self.entries@.len() ==> self.entries@[a].0@
                            != self.entries@[b].0@) by {
                        assert(forall|a: int|
                            0 <= a < self.entries@.len() && a != i ==> self.entries@[a].0@
                                == s0[a].0@);
                    }
                    assert(forall|a: int|
                        0 <= a < self.entries@.len() && a != i ==> self.entries@[a].1@
                            == s0[a].1@);
                }
            },
            None => {
                proof {
                    lemma_assoc_view_absent(s0, f, name@);
                }
                let mut leaf: Vec<(String, String)> = Vec::new();
                leaf.push((ext.clone(), path.clone()));
                let ghost l = leaf;
                let mut vars: Vec<(String, Vec<(String, String)>)> = Vec::new();
                vars.push((variant.clone(), leaf));
                let ghost w = vars;
                self.entries.push((name.clone(), vars));
                proof {
                    assert(self.entries@.drop_last() =~= s0);
                    assert(l@.drop_last() =~= Seq::<(String, String)>::empty());
                    assert(w@.drop_last() =~= Seq::<(String, Vec<(String, String)>)>::empty());
                    assert(leaf_view(Seq::<(String, String)>::empty()) =~= Map::<
                        Seq<char>,
                        Seq<char>,
                    >::empty());
                    assert(variant_view(Seq::<(String, Vec<(String, String)>)>::empty()) =~= Map::<
                        Seq<char>,
                        LeafMap,
                    >::empty());
                    assert(leaf_view(l@) =~= Map::<Seq<char>, Seq<char>>::empty().insert(
                        ext@,
                        path@,
                    ));
                    assert(variant_view(w@) =~= Map::<Seq<char>, LeafMap>::empty().insert(
                        variant@,
                        leaf_view(l@),
                    ));
                    assert(self@ =~= record_spec(image_view(s0), name@, variant@, ext@, path@));
                }
            },
        }
    }

    /// The recorded path of one leaf, or nothing when that leaf was never
    /// recorded.
    pub fn get(&self, name: &String, variant: &String, ext: &String) -> (r: Option<&String>)
        requires
            self.wf(),
        ensures
            match r {
                Some(p) => leaf_lookup(self@, name@, variant@, ext@) == Option::Some(p@),
                None => leaf_lookup(self@, name@, variant@, ext@) is None,
            },
    {
        let ghost f = |x: Vec<(String, Vec<(String, String)>)>| variant_view(x@);
        let ghost g = |x: Vec<(String, String)>| leaf_view(x@);
        let ghost h = |x: String| x@;
        match find_key(&self.entries, name) {
            None => {
                proof {
                    lemma_assoc_view_absent(self.entries@, f, name@);
                }
                None
            },
            Some(i) => {
                proof {
                    lemma_assoc_view_index(self.entries@, f, i as int);
                }
                let vars = &self.entries[i].1;
                match find_key(vars, variant) {
                    None => {
                        proof {
                            lemma_assoc_view_absent(vars@, g, variant@);
                        }
                        None
                    },
                    Some(j) => {
                        proof {
                            lemma_assoc_view_index(vars@, g, j as int);
                        }
                        let leafs = &vars[j].1;
                        match find_key(leafs, ext) {
                            None => {
                                proof {
                                    lemma_assoc_view_absent(leafs@, h, ext@);
                                }
                                None
                            },
                            Some(k) => {
                                proof {
                                    lemma_assoc_view_index(leafs@, h, k as int);
                                }
                                Some(&leafs[k].1)
                            },
                        }
                    },
                }
            },
        }
    }
}

/// Recording one leaf leaves every other leaf exactly as it was: a lookup of
/// any `(image, variant, format)` triple other than the recorded one is
/// unchanged by the merge.
pub proof fn lemma_record_preserves_other_leaves(m: ImageMap, name: Seq<char>, variant: Seq<char>,
    ext: Seq<char>, path: Seq<char>, n2: Seq<char>, v2: Seq<char>, e2: Seq<char>)
    requires
        !(n2 == name && v2 == variant && e2 == ext),
    ensures
        leaf_lookup(record_spec(m, name, variant, ext, path), n2, v2, e2) == leaf_lookup(
            m,
            n2,
            v2,
            e2,
        ),
{
}

/// Recording the same leaf twice is the same as recording it once: a
/// repeated run with identical inputs leaves the manifest identical.
pub proof fn lemma_record_idempotent(m: ImageMap, name: Seq<char>, variant: Seq<char>,
    ext: Seq<char>, path: Seq<char>)
    ensures
        record_spec(record_spec(m, name, variant, ext, path), name, variant, ext, path)
            =~= record_spec(m, name, variant, ext, path),
{
    let v0 = variants_of(m, name);
    let x = leaf_of(v0, variant).insert(ext, path);
    let m1 = record_spec(m, name, variant, ext, path);
    let m2 = record_spec(m1, name, variant, ext, path);
    assert(variants_of(m1, name) =~= v0.insert(variant, x));
    assert(leaf_of(variants_of(m1, name), variant) =~= x);
    assert(x.insert(ext, path) =~= x);
    assert(v0.insert(variant, x).insert(variant, x) =~= v0.insert(variant, x));
}

/// Recording a leaf makes exactly that leaf resolve to the recorded path;
/// re-recording an existing leaf overwrites it.
pub proof fn lemma_record_sets_leaf(m: ImageMap, name: Seq<char>, variant: Seq<char>,
    ext: Seq<char>, path: Seq<char>)
    ensures
        leaf_lookup(record_spec(m, name, variant, ext, path), name, variant, ext) == Option::Some(
            path,
        ),
{
}

} // verus!

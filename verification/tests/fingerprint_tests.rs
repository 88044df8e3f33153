use wimg_pipeline::fingerprint::{
    be_bytes, fingerprint, fingerprint_hex, hash, AVIF_SEED, JPEG_SEED, PNG_SEED, RESIZE_SEED,
    WEBP_SEED,
};

#[test]
fn fingerprint_is_deterministic() {
    let data = b"some image bytes".to_vec();
    let a = fingerprint(&data, RESIZE_SEED, PNG_SEED, Some("thumb"));
    let b = fingerprint(&data, RESIZE_SEED, PNG_SEED, Some("thumb"));
    assert_eq!(a, b);
    let c = fingerprint(&data, RESIZE_SEED, PNG_SEED, None);
    let d = fingerprint(&data, RESIZE_SEED, PNG_SEED, None);
    assert_eq!(c, d);
}

#[test]
fn fingerprint_known_values() {
    let data = b"hello".to_vec();
    assert_eq!(fingerprint(&data, RESIZE_SEED, PNG_SEED, None), 0x820ffba28e06ad9d);
    assert_eq!(
        fingerprint_hex(fingerprint(&data, RESIZE_SEED, PNG_SEED, None)),
        "820ffba28e06ad9d"
    );
    assert_eq!(
        fingerprint_hex(fingerprint(&data, RESIZE_SEED, PNG_SEED, Some("thumb"))),
        "b5c497e8fe6347fa"
    );
    assert_eq!(
        fingerprint_hex(fingerprint(&data, RESIZE_SEED, JPEG_SEED, None)),
        "8716a0778e06ad9d"
    );
    let empty: Vec<u8> = Vec::new();
    assert_eq!(
        fingerprint_hex(fingerprint(&empty, RESIZE_SEED, PNG_SEED, None)),
        "2921469e84222327"
    );
}

#[test]
fn fingerprint_hex_is_fixed_width_lowercase() {
    assert_eq!(fingerprint_hex(0x0123456789abcdef), "0123456789abcdef");
    assert_eq!(fingerprint_hex(1), "0000000000000001");
    assert_eq!(fingerprint_hex(0), "0000000000000000");
    assert_eq!(fingerprint_hex(u64::MAX), "ffffffffffffffff");
}

#[test]
fn seed_sensitivity_changes_fingerprint() {
    let data = b"source image".to_vec();
    let png = fingerprint(&data, RESIZE_SEED, PNG_SEED, None);
    // Bumping the resize stage's seed changes the fingerprint.
    assert_ne!(fingerprint(&data, RESIZE_SEED + 1, PNG_SEED, None), png);
    // Bumping the active format's seed changes the fingerprint.
    assert_ne!(fingerprint(&data, RESIZE_SEED, PNG_SEED + 1, None), png);
}

#[test]
fn seed_sensitivity_leaves_other_formats_alone() {
    let data = b"source image".to_vec();
    let jpeg_before = fingerprint(&data, RESIZE_SEED, JPEG_SEED, None);
    // A bump of the PNG stage's seed does not enter JPEG fingerprints at all.
    let bumped_png_seed = PNG_SEED + 1;
    let png_after = fingerprint(&data, RESIZE_SEED, bumped_png_seed, None);
    let jpeg_after = fingerprint(&data, RESIZE_SEED, JPEG_SEED, None);
    assert_eq!(jpeg_before, jpeg_after);
    assert_ne!(png_after, fingerprint(&data, RESIZE_SEED, PNG_SEED, None));
}

#[test]
fn variant_sensitivity() {
    let data = b"source image".to_vec();
    let none = fingerprint(&data, RESIZE_SEED, WEBP_SEED, None);
    let a = fingerprint(&data, RESIZE_SEED, WEBP_SEED, Some("thumb"));
    let b = fingerprint(&data, RESIZE_SEED, WEBP_SEED, Some("hero"));
    assert_ne!(a, b);
    assert_ne!(none, a);
    assert_ne!(none, b);
}

#[test]
fn stage_seeds_are_distinct() {
    let seeds = [RESIZE_SEED, AVIF_SEED, JPEG_SEED, PNG_SEED, WEBP_SEED];
    for i in 0..seeds.len() {
        for j in 0..seeds.len() {
            if i != j {
                assert_ne!(seeds[i], seeds[j]);
            }
        }
    }
}

#[test]
fn hash_depends_on_seed_and_data() {
    let data = b"abc".to_vec();
    assert_eq!(hash(&data, 7), hash(&data, 7));
    assert_ne!(hash(&data, 7), hash(&data, 8));
    let other = b"abd".to_vec();
    assert_ne!(hash(&data, 7), hash(&other, 7));
}

#[test]
fn be_bytes_is_big_endian() {
    assert_eq!(be_bytes(0x0102030405060708), vec![1, 2, 3, 4, 5, 6, 7, 8]);
    assert_eq!(be_bytes(0), vec![0; 8]);
    assert_eq!(be_bytes(u64::MAX), vec![0xff; 8]);
}

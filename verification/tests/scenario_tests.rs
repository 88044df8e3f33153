//! End-to-end scenarios over the pipeline's decision logic: path
//! resolution, planning, naming and manifest recording for one input image,
//! exactly as the driver performs them around the codec and I/O work.

use wimg_pipeline::format::OutputFormat;
use wimg_pipeline::manifest::Manifest;
use wimg_pipeline::plan::{
    logical_name, plan_outputs, record_output, rel_out_path, source_kind, validate, ConfigError,
    SourceError, SourceKind,
};
use wimg_pipeline::sandbox::{resolve, PathError, SandboxPath};

fn s(x: &str) -> String {
    x.to_string()
}

fn path(components: &[&str], absolute: bool) -> SandboxPath {
    SandboxPath {
        components: components.iter().map(|c| c.to_string()).collect(),
        absolute,
    }
}

/// Input `photos/cat.png`, base `photos/`, formats `[png]`, no manifest:
/// the artifact is `cat.png` directly under the output directory.
#[test]
fn simple_mode_names_output_after_the_source() {
    let cwd = path(&["work"], true);
    let base = path(&["work", "photos"], true);
    let candidate = path(&["photos", "cat.png"], false);
    let (_, rel) = resolve(&candidate, &cwd, &base).expect("inside the base");
    let data = b"png bytes".to_vec();
    let formats = vec![OutputFormat::Png];
    let plans = plan_outputs(&rel, &data, None, false, &formats);
    assert_eq!(plans.len(), 1);
    assert_eq!(plans[0].file_name, "cat.png");
    assert!(plans[0].rel_dir.is_empty());
    assert_eq!(rel_out_path(&plans[0]), "cat.png");
}

/// Same input with `--manifest --variant thumb`: the artifact is
/// `cat-<16 hex digits>.png` and the manifest holds
/// `cat -> thumb -> png -> cat-<same hex>.png`.
#[test]
fn manifest_mode_embeds_the_fingerprint() {
    let cwd = path(&["work"], true);
    let base = path(&["work", "photos"], true);
    let candidate = path(&["photos", "cat.png"], false);
    let (_, rel) = resolve(&candidate, &cwd, &base).expect("inside the base");
    let data = b"png bytes".to_vec();
    let formats = vec![OutputFormat::Png];
    let variant = s("thumb");
    let plans = plan_outputs(&rel, &data, Some(&variant), true, &formats);
    assert_eq!(plans.len(), 1);
    let name = &plans[0].file_name;
    assert!(name.starts_with("cat-"));
    assert!(name.ends_with(".png"));
    let hex = &name["cat-".len()..name.len() - ".png".len()];
    assert_eq!(hex.len(), 16);
    assert!(hex.chars().all(|c| c.is_ascii_hexdigit() && !c.is_ascii_uppercase()));

    assert_eq!(logical_name(&rel), "cat");
    let mut m = Manifest::new();
    record_output(&mut m, &rel, &variant, &plans[0]);
    assert_eq!(m.get(&s("cat"), &s("thumb"), &s("png")), Some(name));
}

/// Running the manifest scenario twice with identical inputs gives an
/// identical fingerprint and an identical manifest.
#[test]
fn repeated_runs_are_identical() {
    let run = || {
        let cwd = path(&["work"], true);
        let base = path(&["work", "photos"], true);
        let candidate = path(&["photos", "cat.png"], false);
        let (_, rel) = resolve(&candidate, &cwd, &base).expect("inside the base");
        let data = b"png bytes".to_vec();
        let formats = vec![OutputFormat::Png];
        let variant = s("thumb");
        let plans = plan_outputs(&rel, &data, Some(&variant), true, &formats);
        let mut m = Manifest::new();
        record_output(&mut m, &rel, &variant, &plans[0]);
        (plans[0].fingerprint, plans[0].file_name.clone(), m)
    };
    let (fp1, name1, m1) = run();
    let (fp2, name2, m2) = run();
    assert_eq!(fp1, fp2);
    assert_eq!(name1, name2);
    assert_eq!(
        m1.get(&s("cat"), &s("thumb"), &s("png")),
        m2.get(&s("cat"), &s("thumb"), &s("png"))
    );
}

/// Input `../outside.png` relative to the base: rejected before any
/// decode or encode work.
#[test]
fn traversal_outside_the_base_aborts() {
    let cwd = path(&["work", "photos"], true);
    let base = path(&["work", "photos"], true);
    let candidate = path(&["..", "outside.png"], false);
    assert!(matches!(resolve(&candidate, &cwd, &base), Err(PathError::OutsideBase)));
}

#[test]
fn nested_sources_keep_their_directory() {
    let cwd = path(&["w"], true);
    let base = path(&["w", "photos"], true);
    let candidate = path(&["photos", "pets", "cat.png"], false);
    let (_, rel) = resolve(&candidate, &cwd, &base).expect("inside the base");
    let data = b"x".to_vec();
    let formats = vec![OutputFormat::Webp, OutputFormat::Jpeg];
    let plans = plan_outputs(&rel, &data, None, false, &formats);
    assert_eq!(plans.len(), 2);
    assert_eq!(plans[0].file_name, "cat.webp");
    assert_eq!(plans[1].file_name, "cat.jpg");
    assert_eq!(plans[0].rel_dir, vec![s("pets")]);
    assert_eq!(rel_out_path(&plans[0]), "pets/cat.webp");
    assert_eq!(rel_out_path(&plans[1]), "pets/cat.jpg");
    assert_eq!(logical_name(&rel), "pets/cat");
}

#[test]
fn validate_reports_each_config_error() {
    assert_eq!(validate(1, 0, false, false), Err(ConfigError::NoFormatSelected));
    assert_eq!(validate(1, 1, false, true), Err(ConfigError::ManifestWithoutVariant));
    assert_eq!(validate(0, 1, false, false), Err(ConfigError::NoImages));
    assert_eq!(validate(1, 1, true, true), Ok(()));
    assert_eq!(validate(1, 1, false, false), Ok(()));
    assert_eq!(validate(1, 1, true, false), Ok(()));
}

#[test]
fn source_kind_is_keyed_by_extension() {
    assert_eq!(source_kind("cat.jpg"), Ok(SourceKind::Jpeg));
    assert_eq!(source_kind("cat.png"), Ok(SourceKind::Png));
    assert_eq!(source_kind("cat.bmp"), Err(SourceError::UnsupportedFormat));
    assert_eq!(source_kind("cat.jpeg"), Err(SourceError::UnsupportedFormat));
    assert_eq!(source_kind("cat"), Err(SourceError::MissingExtension));
    assert_eq!(source_kind(".png"), Err(SourceError::MissingExtension));
}

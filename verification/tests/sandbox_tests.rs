use wimg_pipeline::sandbox::{join_components, resolve, strip_extension, PathError, SandboxPath};

fn path(components: &[&str], absolute: bool) -> SandboxPath {
    SandboxPath {
        components: components.iter().map(|c| c.to_string()).collect(),
        absolute,
    }
}

#[test]
fn relative_candidate_inside_base_is_accepted() {
    let cwd = path(&["home", "user"], true);
    let base = path(&["home", "user", "photos"], true);
    let candidate = path(&["photos", "cat.png"], false);
    let (abs, rel) = resolve(&candidate, &cwd, &base).expect("inside the base");
    assert!(abs.absolute);
    assert_eq!(
        abs.components,
        vec!["home".to_string(), "user".to_string(), "photos".to_string(), "cat.png".to_string()]
    );
    assert_eq!(rel, vec!["cat.png".to_string()]);
}

#[test]
fn absolute_candidate_inside_base_is_accepted() {
    let cwd = path(&["elsewhere"], true);
    let base = path(&["data", "photos"], true);
    let candidate = path(&["data", "photos", "pets", "dog.jpg"], true);
    let (abs, rel) = resolve(&candidate, &cwd, &base).expect("inside the base");
    assert_eq!(abs.components.len(), 4);
    assert_eq!(rel, vec!["pets".to_string(), "dog.jpg".to_string()]);
}

#[test]
fn dotdot_traversal_is_rejected() {
    let cwd = path(&["home", "user", "photos"], true);
    let base = path(&["home", "user", "photos"], true);
    let candidate = path(&["..", "outside.png"], false);
    assert!(matches!(resolve(&candidate, &cwd, &base), Err(PathError::OutsideBase)));
}

#[test]
fn unrelated_subtree_is_rejected() {
    let cwd = path(&["home", "user"], true);
    let base = path(&["home", "user", "photos"], true);
    let candidate = path(&["home", "other", "cat.png"], true);
    assert!(matches!(resolve(&candidate, &cwd, &base), Err(PathError::OutsideBase)));
}

#[test]
fn base_itself_prefixes_candidates() {
    let cwd = path(&["w"], true);
    let base = path(&["w"], true);
    let candidate = path(&["a", "b.png"], false);
    let (_, rel) = resolve(&candidate, &cwd, &base).expect("cwd is the base");
    assert_eq!(rel, vec!["a".to_string(), "b.png".to_string()]);
}

#[test]
fn inner_traversal_is_normalized_away() {
    let cwd = path(&["home", "user"], true);
    let base = path(&["home", "user", "photos"], true);
    let candidate = path(&["photos", ".", "pets", "..", "cat.png"], false);
    let (abs, rel) = resolve(&candidate, &cwd, &base).expect("resolves inside the base");
    assert_eq!(
        abs.components,
        vec!["home".to_string(), "user".to_string(), "photos".to_string(), "cat.png".to_string()]
    );
    assert_eq!(rel, vec!["cat.png".to_string()]);
}

#[test]
fn traversal_back_into_the_base_is_accepted() {
    let cwd = path(&["home", "user"], true);
    let base = path(&["home", "user", "photos"], true);
    let candidate = path(&["elsewhere", "..", "photos", "cat.png"], false);
    let (_, rel) = resolve(&candidate, &cwd, &base).expect("resolves inside the base");
    assert_eq!(rel, vec!["cat.png".to_string()]);
}

#[test]
fn strip_extension_cases() {
    assert_eq!(strip_extension("cat.png"), "cat");
    assert_eq!(strip_extension("archive.tar.gz"), "archive.tar");
    assert_eq!(strip_extension("noext"), "noext");
    assert_eq!(strip_extension(".bashrc"), ".bashrc");
    assert_eq!(strip_extension("trailing."), "trailing");
    assert_eq!(strip_extension(""), "");
}

#[test]
fn join_components_cases() {
    let empty: Vec<String> = Vec::new();
    assert_eq!(join_components(&empty), "");
    assert_eq!(join_components(&vec!["x".to_string()]), "x");
    assert_eq!(
        join_components(&vec!["a".to_string(), "b".to_string(), "c.png".to_string()]),
        "a/b/c.png"
    );
}

use kewr_panel::path::{components, join, path_starts_with, Component};
use std::path::{Component as StdComponent, Path};

const SAMPLES: [&str; 22] = [
    "", "/", "//", ".", "./", "..", "a", "a/", "a/b", "/a/b/", "./a", "a/./b", "a/../b",
    "/opt/kewr-panel", "/opt/kewr-panel/", "./www", "www", "/var/lib//kewr-panel", ".hidden",
    "../etc/passwd", "a/.", "/./a",
];

fn std_components(p: &str) -> Vec<String> {
    Path::new(p)
        .components()
        .map(|c| match c {
            StdComponent::RootDir => "<root>".to_string(),
            StdComponent::CurDir => "<cur>".to_string(),
            StdComponent::ParentDir => "<parent>".to_string(),
            StdComponent::Normal(n) => n.to_str().unwrap().to_string(),
            StdComponent::Prefix(_) => "<prefix>".to_string(),
        })
        .collect()
}

fn our_components(p: &str) -> Vec<String> {
    components(p)
        .into_iter()
        .map(|c| match c {
            Component::RootDir => "<root>".to_string(),
            Component::CurDir => "<cur>".to_string(),
            Component::ParentDir => "<parent>".to_string(),
            Component::Normal(n) => n.into_iter().collect(),
        })
        .collect()
}

#[test]
fn components_agree_with_std() {
    for p in SAMPLES {
        assert_eq!(our_components(p), std_components(p), "{:?}", p);
    }
}

#[test]
fn join_agrees_with_std() {
    for a in SAMPLES {
        for b in SAMPLES {
            let ours = join(a, b);
            let theirs = Path::new(a).join(b);
            assert_eq!(ours, theirs.to_str().unwrap(), "{:?} {:?}", a, b);
        }
    }
}

#[test]
fn starts_with_agrees_with_std() {
    for a in SAMPLES {
        for b in SAMPLES {
            assert_eq!(path_starts_with(a, b), Path::new(a).starts_with(b), "{:?} {:?}", a, b);
        }
    }
}

#[test]
fn starts_with_uses_whole_components() {
    assert!(path_starts_with("/opt/kewr-panel/www/index.html", "/opt/kewr-panel"));
    assert!(!path_starts_with("/opt/kewr-panel-evil/x", "/opt/kewr-panel"));
    assert!(path_starts_with("/opt//kewr-panel/", "/opt/kewr-panel"));
}

#[test]
fn joined_relative_paths_stay_under_base() {
    for base in SAMPLES {
        for rel in SAMPLES {
            if !rel.starts_with('/') {
                assert!(path_starts_with(&join(base, rel), base), "{:?} {:?}", base, rel);
            } else {
                assert_eq!(join(base, rel), rel);
            }
        }
    }
}

#[test]
fn every_path_starts_with_itself() {
    for p in SAMPLES {
        assert!(path_starts_with(p, p));
    }
}

use codewarp::paths::Platform;
use codewarp::tree_walk::{file_tree_rows, DirChild};

fn file(name: &str) -> DirChild {
    DirChild { name: name.into(), is_dir: false, sub: None }
}

fn folder(name: &str, sub: Vec<DirChild>) -> DirChild {
    DirChild { name: name.into(), is_dir: true, sub: Some(sub) }
}

fn rows(p: Platform, root: &str, listing: Option<Vec<DirChild>>) -> Vec<(usize, String, String, bool)> {
    file_tree_rows(p, root, &listing)
        .into_iter()
        .map(|r| (r.depth, r.name, r.path, r.is_dir))
        .collect()
}

#[test]
fn tree_lists_folders_then_text_files_sorted() {
    let listing = vec![
        file("README.md"),
        file("image.png"),
        folder(".git", vec![file("HEAD")]),
        folder("target", vec![file("a.rs")]),
        folder("src", vec![file("main.rs"), file("b.txt"), folder("Util", vec![file("x.rs")])]),
        folder("docs", vec![]),
        file("Cargo.toml"),
    ];
    let got = rows(Platform::Unix, "/r", Some(listing));
    let want: Vec<(usize, String, String, bool)> = vec![
        (0, "docs", "/r/docs", true),
        (0, "src", "/r/src", true),
        (1, "Util", "/r/src/Util", true),
        (2, "x.rs", "/r/src/Util/x.rs", false),
        (1, "b.txt", "/r/src/b.txt", false),
        (1, "main.rs", "/r/src/main.rs", false),
        (0, "Cargo.toml", "/r/Cargo.toml", false),
        (0, "README.md", "/r/README.md", false),
    ]
    .into_iter()
    .map(|(d, n, p, f)| (d, n.to_string(), p.to_string(), f))
    .collect();
    assert_eq!(got, want);
}

#[test]
fn tree_stops_at_depth_and_row_limits() {
    let mut deep = folder("e", vec![file("deep.rs")]);
    for name in ["d", "c", "b", "a"] {
        deep = folder(name, vec![deep]);
    }
    let got = rows(Platform::Unix, "r", Some(vec![deep]));
    let names: Vec<&str> = got.iter().map(|r| r.1.as_str()).collect();
    assert_eq!(names, vec!["a", "b", "c", "d", "e"]);
    assert_eq!(got[4].2, "r/a/b/c/d/e");

    let many: Vec<DirChild> = (0..600).map(|i| file(&format!("f{i:03}.rs"))).collect();
    let got = rows(Platform::Windows, r"C:\w", Some(many));
    assert_eq!(got.len(), 500);
    assert_eq!(got[0].2, r"C:\w\f000.rs");
    assert!(rows(Platform::Unix, "r", None).is_empty());
}

use gifer::complete::{autocomplete_base, matching_dirs, path_parent};
use gifer::path::{
    join_path, path_extension, path_file_name, path_file_stem, path_parent_file_name,
};

#[test]
fn file_names_and_stems() {
    assert_eq!(path_file_name("/a/b/c.mov"), Some("c.mov".to_string()));
    assert_eq!(path_file_name("/a/b/"), Some("b".to_string()));
    assert_eq!(path_file_name("/a/b/.."), None);
    assert_eq!(path_file_name("/"), None);
    assert_eq!(path_file_name("x/./"), Some("x".to_string()));
    assert_eq!(path_parent_file_name("/a/b/c.gif"), Some("b".to_string()));
    assert_eq!(path_parent_file_name("c.gif"), None);
    assert_eq!(path_file_stem("/a/archive.tar.gz"), Some("archive.tar".to_string()));
    assert_eq!(path_file_stem("/a/.hidden"), Some(".hidden".to_string()));
    assert_eq!(path_extension("/a/.hidden"), None);
    assert_eq!(path_extension("/a/clip.MOV"), Some("MOV".to_string()));
    assert_eq!(path_extension("/a/noext"), None);
    assert_eq!(path_extension("/a/trailing."), Some("".to_string()));
}

#[test]
fn joining_paths() {
    assert_eq!(join_path("/out", "a.gif"), "/out/a.gif");
    assert_eq!(join_path("/out/", "a.gif"), "/out/a.gif");
    assert_eq!(join_path("", "a.gif"), "a.gif");
    assert_eq!(join_path("/out", "/abs.gif"), "/abs.gif");
}

#[test]
fn parents() {
    assert_eq!(path_parent("/a/b"), Some("/a".to_string()));
    assert_eq!(path_parent("/a/b/"), Some("/a".to_string()));
    assert_eq!(path_parent("/a"), Some("/".to_string()));
    assert_eq!(path_parent("/"), None);
    assert_eq!(path_parent("a"), Some("".to_string()));
    assert_eq!(path_parent("a/b/./"), Some("a".to_string()));
    assert_eq!(path_parent("./a"), Some(".".to_string()));
    assert_eq!(path_parent("."), Some("".to_string()));
    assert_eq!(path_parent(""), None);
    assert_eq!(path_parent("a//b"), Some("a".to_string()));
    assert_eq!(path_parent("/a/.."), Some("/a".to_string()));
    for p in ["/a/b", "/a/b/", "/a", "/", "a", "a/b/./", "./a", ".", "", "a//b", "/a/..", "//x//y//", "./", "../x"] {
        let std_parent = std::path::Path::new(p)
            .parent()
            .map(|q| q.to_string_lossy().to_string());
        assert_eq!(path_parent(p), std_parent, "path = {:?}", p);
    }
}

#[test]
fn completion_bases() {
    assert_eq!(
        autocomplete_base("/home/ann/Pic", false),
        Some(("/home/ann".to_string(), "Pic".to_string()))
    );
    assert_eq!(
        autocomplete_base("/home/ann/", true),
        Some(("/home/ann/".to_string(), "".to_string()))
    );
    assert_eq!(autocomplete_base("/", false), None);
    assert_eq!(autocomplete_base("gi", false), Some(("".to_string(), "gi".to_string())));
}

#[test]
fn matching_dirs_in_order() {
    let names = vec![
        "Pictures".to_string(),
        "Movies".to_string(),
        "Pics".to_string(),
        "Desktop".to_string(),
        "Pi".to_string(),
    ];
    assert_eq!(
        matching_dirs("/home/ann", names.clone(), "Pi"),
        vec![
            "/home/ann/Pi".to_string(),
            "/home/ann/Pics".to_string(),
            "/home/ann/Pictures".to_string()
        ]
    );
    assert_eq!(matching_dirs("/home/ann", names.clone(), "Z"), Vec::<String>::new());
    assert_eq!(matching_dirs("/home/ann/", names, "").len(), 5);
    // Byte order: upper case before lower case, ASCII before other characters.
    let mixed = vec!["b".to_string(), "B".to_string(), "\u{e9}".to_string(), "a".to_string()];
    assert_eq!(
        matching_dirs("d", mixed, ""),
        vec!["d/B".to_string(), "d/a".to_string(), "d/b".to_string(), "d/\u{e9}".to_string()]
    );
}

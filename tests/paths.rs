use agent_manager::paths::{path_file_name, path_join, path_parent};

#[test]
fn file_names_of_paths() {
    assert_eq!(path_file_name("/home/me/project").as_deref(), Some("project"));
    assert_eq!(path_file_name("project").as_deref(), Some("project"));
    assert_eq!(path_file_name("/"), None);
    assert_eq!(path_file_name("/a/.."), None);
    assert_eq!(path_file_name(""), None);
}

#[test]
fn parents_of_paths() {
    assert_eq!(path_parent("/home/me/project").as_deref(), Some("/home/me"));
    assert_eq!(path_parent("/project").as_deref(), Some("/"));
    assert_eq!(path_parent("project").as_deref(), Some(""));
    assert_eq!(path_parent("/"), None);
    assert_eq!(path_parent(""), None);
}

#[test]
fn joining_paths() {
    assert_eq!(path_join("/a", "b"), "/a/b");
    assert_eq!(path_join("/", "b"), "/b");
    assert_eq!(path_join("", "b"), "b");
    assert_eq!(path_join("/a/", "b"), "/a/b");
}

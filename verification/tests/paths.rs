use mlxcel_xla::paths::{
    distinct_paths, group_paths, join_path, path_components, path_eq, path_less, sort_paths,
};

fn paths(list: &[&str]) -> Vec<String> {
    list.iter().map(|path| path.to_string()).collect()
}

#[test]
fn paths_join_like_a_directory_and_a_name() {
    assert_eq!(join_path("/m", "a"), "/m/a");
    assert_eq!(join_path("/m/", "a"), "/m/a");
    assert_eq!(join_path("", "a"), "a");
    assert_eq!(join_path("/m", "/a"), "/a");
    assert_eq!(join_path("/m", ""), "/m/");
}

#[test]
fn components_agree_with_those_of_the_standard_library() {
    let texts = [
        "", "/", ".", "..", "a", "a/", "a//b", "a/./b", "./a", "././a", "/./a", "//a", "../a", "a/..",
        ".a", "a.", "a/.", "x.y.safetensors", "x/a.safetensors", "./", "/..", "...",
    ];
    for text in texts {
        let expected: Vec<String> = std::path::Path::new(text)
            .components()
            .map(|c| c.as_os_str().to_str().unwrap().to_string())
            .collect();
        assert_eq!(path_components(text), expected, "{text:?}");
    }
    for a in texts {
        for b in texts {
            let (pa, pb) = (std::path::Path::new(a), std::path::Path::new(b));
            assert_eq!(path_less(a, b), pa < pb, "{a:?} {b:?}");
            assert_eq!(path_eq(a, b), pa == pb, "{a:?} {b:?}");
        }
    }
}

#[test]
fn paths_are_sorted_grouped_and_told_apart_by_component() {
    let list = paths(&["x.y", "x/a", "x//a", "."]);
    assert_eq!(sort_paths(list.clone()), paths(&[".", "x/a", "x//a", "x.y"]));
    assert_eq!(group_paths(&list), paths(&["x.y", "x/a", "x/a", "."]));
    assert_eq!(distinct_paths(&list), paths(&[".", "x/a", "x.y"]));
}

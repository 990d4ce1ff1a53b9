use cattongue::url::{join_url, split_point, split_url};

#[test]
fn splits_origin_from_path() {
    let (origin, path) = split_url("https://cdn.example.com/img/42.jpg");
    assert_eq!(origin, "https://cdn.example.com");
    assert_eq!(path, "/img/42.jpg");
}

#[test]
fn url_without_marker_is_all_origin() {
    let (origin, path) = split_url("cdn.example.com/img/42.jpg");
    assert_eq!(origin, "cdn.example.com/img/42.jpg");
    assert_eq!(path, "");
}

#[test]
fn url_without_path_is_all_origin() {
    let (origin, path) = split_url("https://cdn.example.com");
    assert_eq!(origin, "https://cdn.example.com");
    assert_eq!(path, "");
}

#[test]
fn empty_url_is_all_origin() {
    let (origin, path) = split_url("");
    assert_eq!(origin, "");
    assert_eq!(path, "");
    assert_eq!(split_point(""), 0);
}

#[test]
fn marker_alone_has_no_path() {
    let (origin, path) = split_url("//");
    assert_eq!(origin, "//");
    assert_eq!(path, "");
}

#[test]
fn path_may_be_a_single_slash() {
    let (origin, path) = split_url("https://cdn.example.com/");
    assert_eq!(origin, "https://cdn.example.com");
    assert_eq!(path, "/");
}

#[test]
fn third_slash_starts_the_path() {
    let (origin, path) = split_url("a///b");
    assert_eq!(origin, "a//");
    assert_eq!(path, "/b");
    assert_eq!(split_point("a///b"), 3);
}

#[test]
fn only_the_leftmost_marker_counts() {
    let (origin, path) = split_url("/x//host//deep/er");
    assert_eq!(origin, "/x//host");
    assert_eq!(path, "//deep/er");
}

#[test]
fn single_slashes_before_the_marker_are_origin() {
    let (origin, path) = split_url("a/b//c/d");
    assert_eq!(origin, "a/b//c");
    assert_eq!(path, "/d");
}

#[test]
fn split_point_counts_characters() {
    assert_eq!(split_point("https://käse.example/ä.jpg"), 20);
    let (origin, path) = split_url("https://käse.example/ä.jpg");
    assert_eq!(origin, "https://käse.example");
    assert_eq!(path, "/ä.jpg");
}

#[test]
fn split_point_of_the_example_url() {
    assert_eq!(split_point("https://cdn.example.com/img/42.jpg"), 23);
    assert_eq!(split_point("https://cdn.example.com"), 23);
}

#[test]
fn join_puts_the_parts_together() {
    assert_eq!(join_url("https://cdn.example.com", "/img/42.jpg"), "https://cdn.example.com/img/42.jpg");
    assert_eq!(join_url("", ""), "");
    assert_eq!(join_url("abc", ""), "abc");
}

#[test]
fn split_then_join_is_the_url() {
    let urls = [
        "https://cdn.example.com/img/42.jpg",
        "https://cdn.example.com",
        "no marker at all",
        "",
        "//",
        "///",
        "a//b/c//d",
        "https://käse.example/ä.jpg?x=//y",
    ];
    for url in urls {
        let (origin, path) = split_url(url);
        assert_eq!(join_url(origin, path), url);
        assert_eq!(origin.chars().count(), split_point(url));
    }
}

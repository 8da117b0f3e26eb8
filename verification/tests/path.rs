use route_resolver::path::RoutePath;

#[test]
fn normal_form_is_kept() {
    for p in ["/", "/about", "/blog/posts", "/a//b"] {
        assert_eq!(RoutePath::new(p).as_str(), p);
    }
}

#[test]
fn trailing_slashes_are_dropped() {
    assert_eq!(RoutePath::new("/about/").as_str(), "/about");
    assert_eq!(RoutePath::new("/about///").as_str(), "/about");
    assert_eq!(RoutePath::new("/blog/posts/").as_str(), "/blog/posts");
}

#[test]
fn leading_slash_is_supplied() {
    assert_eq!(RoutePath::new("about").as_str(), "/about");
    assert_eq!(RoutePath::new("blog/posts/").as_str(), "/blog/posts");
}

#[test]
fn root_stays_root() {
    assert_eq!(RoutePath::new("").as_str(), "/");
    assert_eq!(RoutePath::new("/").as_str(), "/");
    assert_eq!(RoutePath::new("////").as_str(), "/");
}

#[test]
fn case_and_inner_slashes_are_kept() {
    assert_eq!(RoutePath::new("/About").as_str(), "/About");
    assert_eq!(RoutePath::new("//about").as_str(), "//about");
    assert_eq!(RoutePath::new("/straße/").as_str(), "/straße");
}

#[test]
fn normalizing_twice_is_normalizing_once() {
    for p in ["", "/", "a", "/a/", "a//", "//", "/blog/posts///"] {
        let once = RoutePath::new(p);
        let twice = RoutePath::new(once.as_str());
        assert_eq!(once, twice);
        assert!(once.same_as(&twice));
    }
}

#[test]
fn clone_is_the_same_path() {
    let path = RoutePath::new("/contact/");
    let copy = path.clone();
    assert_eq!(copy, path);
    assert_eq!(copy.as_str(), "/contact");
    assert!(!path.same_as(&RoutePath::new("/contacts")));
}

use route_resolver::matcher::distance;

#[test]
fn distance_counts_edits() {
    assert_eq!(distance("kitten", "sitting"), 3);
    assert_eq!(distance("/ab0ut", "/about"), 1);
    assert_eq!(distance("flaw", "lawn"), 2);
    assert_eq!(distance("/blog", "/blog/posts"), 6);
}

#[test]
fn distance_to_self_is_zero() {
    for s in ["", "/", "/about", "/blog/posts", "naïve café"] {
        assert_eq!(distance(s, s), 0);
    }
}

#[test]
fn distance_is_zero_only_for_equal_strings() {
    assert_ne!(distance("/about", "/About"), 0);
    assert_ne!(distance("/about", "/about/"), 0);
}

#[test]
fn distance_is_symmetric() {
    let words = ["", "/", "/about", "/contact", "/blog/posts", "/xyzxyzxyz"];
    for a in words {
        for b in words {
            assert_eq!(distance(a, b), distance(b, a));
        }
    }
}

#[test]
fn distance_from_empty_is_length() {
    assert_eq!(distance("", ""), 0);
    assert_eq!(distance("", "/about"), 6);
    assert_eq!(distance("/announcements", ""), 14);
}

#[test]
fn distance_counts_characters_not_bytes() {
    assert_eq!(distance("", "héllo"), 5);
    assert_eq!(distance("é", "e"), 1);
    assert_eq!(distance("日本", "日本語"), 1);
}

#[test]
fn distance_obeys_the_triangle_inequality() {
    let words = ["", "/", "/about", "/ab0ut", "/contact", "/blog", "/blog/posts"];
    for a in words {
        for b in words {
            for c in words {
                assert!(distance(a, c) <= distance(a, b) + distance(b, c));
            }
        }
    }
}

#[test]
fn distance_stays_between_length_gap_and_longer_length() {
    let words = ["", "/", "/about", "/contact", "/announcements"];
    for a in words {
        for b in words {
            let (la, lb) = (a.chars().count(), b.chars().count());
            assert!(distance(a, b) <= la.max(lb));
            assert!(distance(a, b) >= la.abs_diff(lb));
        }
    }
}

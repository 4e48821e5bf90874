use windmill::literal::route;
use windmill::paths_match;
use windmill::DynamicSegment;
use windmill::RawRoute;
use windmill::RawSegment;
use windmill::Route;
use windmill::StaticSegment;

fn users_me() -> Route<u32> {
    Route {
        static_segments: vec![
            StaticSegment { value: "users".to_string(), position: 0 },
            StaticSegment { value: "me".to_string(), position: 2 },
        ],
        dynamic_segments: vec![DynamicSegment { name: "user_id".to_string(), position: 1 }],
        handler: None,
    }
}

#[test]
fn from_path_splits_on_slashes() {
    let raw = RawRoute::from_path("/users/42/me");
    assert_eq!(
        raw.raw_segments,
        vec![
            RawSegment { value: "users".to_string(), position: 0 },
            RawSegment { value: "42".to_string(), position: 1 },
            RawSegment { value: "me".to_string(), position: 2 },
        ]
    );
}

#[test]
fn from_path_of_the_empty_path_has_no_tokens() {
    assert!(RawRoute::from_path("").raw_segments.is_empty());
}

#[test]
fn from_path_of_a_single_slash_has_one_empty_token() {
    let raw = RawRoute::from_path("/");
    assert_eq!(raw.raw_segments, vec![RawSegment { value: String::new(), position: 0 }]);
}

#[test]
fn from_path_keeps_empty_pieces() {
    let raw = RawRoute::from_path("/a//b/");
    let values: Vec<&str> = raw.raw_segments.iter().map(|s| s.value.as_str()).collect();
    assert_eq!(values, vec!["a", "", "b", ""]);
    let positions: Vec<usize> = raw.raw_segments.iter().map(|s| s.position).collect();
    assert_eq!(positions, vec![0, 1, 2, 3]);
}

#[test]
fn from_path_drops_whatever_stands_before_the_first_slash() {
    let raw = RawRoute::from_path("users/42");
    assert_eq!(raw.raw_segments, vec![RawSegment { value: "42".to_string(), position: 0 }]);
    assert!(RawRoute::from_path("users").raw_segments.is_empty());
}

#[test]
fn from_path_counts_characters_not_bytes() {
    let raw = RawRoute::from_path("/caf\u{e9}/\u{65e5}\u{672c}");
    let values: Vec<&str> = raw.raw_segments.iter().map(|s| s.value.as_str()).collect();
    assert_eq!(values, vec!["caf\u{e9}", "\u{65e5}\u{672c}"]);
}

#[test]
fn static_segment_needs_position_and_text() {
    let segment = StaticSegment { value: "users".to_string(), position: 0 };
    assert!(segment.matches(&RawSegment { value: "users".to_string(), position: 0 }));
    assert!(!segment.matches(&RawSegment { value: "users".to_string(), position: 1 }));
    assert!(!segment.matches(&RawSegment { value: "user".to_string(), position: 0 }));
    assert!(!segment.matches(&RawSegment { value: "Users".to_string(), position: 0 }));
}

#[test]
fn dynamic_segment_needs_position_only() {
    let segment = DynamicSegment { name: "id".to_string(), position: 1 };
    assert!(segment.matches(&RawSegment { value: "42".to_string(), position: 1 }));
    assert!(segment.matches(&RawSegment { value: String::new(), position: 1 }));
    assert!(!segment.matches(&RawSegment { value: "42".to_string(), position: 0 }));
}

#[test]
fn matching_is_the_same_from_either_side() {
    let fixed = StaticSegment { value: "a".to_string(), position: 0 };
    let named = DynamicSegment { name: "x".to_string(), position: 0 };
    for token in [
        RawSegment { value: "a".to_string(), position: 0 },
        RawSegment { value: "b".to_string(), position: 0 },
        RawSegment { value: "a".to_string(), position: 3 },
    ] {
        assert_eq!(token.matches_static(&fixed), fixed.matches(&token));
        assert_eq!(token.matches_dynamic(&named), named.matches(&token));
    }
}

#[test]
fn route_matches_a_path_of_its_shape() {
    assert!(paths_match(&users_me(), &RawRoute::from_path("/users/42/me")));
}

#[test]
fn arity_mismatch_never_matches() {
    let route = users_me();
    assert!(!paths_match(&route, &RawRoute::from_path("/users/42")));
    assert!(!paths_match(&route, &RawRoute::from_path("/users/42/me/extra")));
    assert!(!paths_match(&route, &RawRoute::from_path("/users/42/me/")));
    assert!(!paths_match(&route, &RawRoute::from_path("")));
}

#[test]
fn changing_a_static_token_breaks_the_match() {
    let route = users_me();
    assert!(paths_match(&route, &RawRoute::from_path("/users/42/me")));
    assert!(!paths_match(&route, &RawRoute::from_path("/user/42/me")));
    assert!(!paths_match(&route, &RawRoute::from_path("/users/42/you")));
}

#[test]
fn any_text_fits_a_dynamic_segment() {
    let route = users_me();
    for path in ["/users/42/me", "/users/me/me", "/users//me", "/users/a%20b/me"] {
        assert!(paths_match(&route, &RawRoute::from_path(path)), "{}", path);
    }
}

#[test]
fn a_segment_beyond_the_path_does_not_match() {
    let route: Route<u32> = Route {
        static_segments: vec![StaticSegment { value: "a".to_string(), position: 5 }],
        dynamic_segments: vec![],
        handler: None,
    };
    assert!(!paths_match(&route, &RawRoute::from_path("/a")));
    let route: Route<u32> = Route {
        static_segments: vec![],
        dynamic_segments: vec![DynamicSegment { name: "x".to_string(), position: 1 }],
        handler: None,
    };
    assert!(!paths_match(&route, &RawRoute::from_path("/a")));
}

#[test]
fn tokens_with_foreign_positions_do_not_match() {
    let route: Route<u32> = route("/\"a\"/b").unwrap();
    let raw = RawRoute {
        raw_segments: vec![
            RawSegment { value: "a".to_string(), position: 0 },
            RawSegment { value: "x".to_string(), position: 7 },
        ],
    };
    assert!(!paths_match(&route, &raw));
}

#[test]
fn the_empty_route_matches_only_the_empty_path() {
    let route: Route<u32> = route("/").unwrap();
    assert!(paths_match(&route, &RawRoute::from_path("")));
    assert!(!paths_match(&route, &RawRoute::from_path("/")));
}

#[test]
fn joining_the_tokens_restores_the_path() {
    for path in ["/users/42/me", "/", "//", "/a//b/", "/x", "/caf\u{e9}/\u{65e5}"] {
        let raw = RawRoute::from_path(path);
        let mut joined = String::new();
        for token in raw.raw_segments.iter() {
            assert!(!token.value.contains('/'));
            joined.push('/');
            joined.push_str(&token.value);
        }
        assert_eq!(joined, path);
        assert_eq!(raw.raw_segments.len(), path.matches('/').count());
    }
}

#[test]
fn from_path_agrees_with_splitting_by_hand() {
    for path in ["", "a", "/", "/a", "a/b", "/a/b/c", "//a", "/a/", "///"] {
        let expected: Vec<String> = path.split('/').skip(1).map(|s| s.to_string()).collect();
        let raw = RawRoute::from_path(path);
        let values: Vec<String> = raw.raw_segments.iter().map(|s| s.value.clone()).collect();
        assert_eq!(values, expected, "{:?}", path);
        for (index, token) in raw.raw_segments.iter().enumerate() {
            assert_eq!(token.position, index);
        }
    }
}

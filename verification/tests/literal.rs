use windmill::literal::route;
use windmill::literal::RouteError;
use windmill::DynamicSegment;
use windmill::Route;
use windmill::StaticSegment;

#[test]
fn literal_with_static_and_dynamic_segments() {
    let parsed: Route<()> = route("/\"users\"/user_id/\"me\"").unwrap();
    assert_eq!(
        parsed.static_segments,
        vec![
            StaticSegment { value: "users".to_string(), position: 0 },
            StaticSegment { value: "me".to_string(), position: 2 },
        ]
    );
    assert_eq!(
        parsed.dynamic_segments,
        vec![DynamicSegment { name: "user_id".to_string(), position: 1 }]
    );
    assert!(parsed.handler.is_none());
}

#[test]
fn literal_of_dynamic_segments_only() {
    let parsed: Route<()> = route("/a/b/c").unwrap();
    assert!(parsed.static_segments.is_empty());
    assert_eq!(
        parsed.dynamic_segments,
        vec![
            DynamicSegment { name: "a".to_string(), position: 0 },
            DynamicSegment { name: "b".to_string(), position: 1 },
            DynamicSegment { name: "c".to_string(), position: 2 },
        ]
    );
}

#[test]
fn literal_of_a_single_slash_is_the_empty_route() {
    let parsed: Route<()> = route("/").unwrap();
    assert!(parsed.static_segments.is_empty());
    assert!(parsed.dynamic_segments.is_empty());
}

#[test]
fn empty_pieces_stand_for_nothing() {
    let parsed: Route<()> = route("//\"a\"//b/").unwrap();
    assert_eq!(
        parsed.static_segments,
        vec![StaticSegment { value: "a".to_string(), position: 0 }]
    );
    assert_eq!(
        parsed.dynamic_segments,
        vec![DynamicSegment { name: "b".to_string(), position: 1 }]
    );
}

#[test]
fn quoted_text_may_be_empty_or_hold_anything_but_quotes_and_slashes() {
    let parsed: Route<()> = route("/\"\"/\"a b-c.d\"").unwrap();
    assert_eq!(
        parsed.static_segments,
        vec![
            StaticSegment { value: String::new(), position: 0 },
            StaticSegment { value: "a b-c.d".to_string(), position: 1 },
        ]
    );
}

#[test]
fn identifiers_allow_underscores_and_digits() {
    let parsed: Route<()> = route("/_id/user2/X_y").unwrap();
    let names: Vec<&str> = parsed.dynamic_segments.iter().map(|s| s.name.as_str()).collect();
    assert_eq!(names, vec!["_id", "user2", "X_y"]);
}

#[test]
fn literal_without_leading_slash_is_refused() {
    assert_eq!(route::<()>("").unwrap_err(), RouteError::MissingSlash);
    assert_eq!(route::<()>("users").unwrap_err(), RouteError::MissingSlash);
    assert_eq!(route::<()>("\"users\"/id").unwrap_err(), RouteError::MissingSlash);
}

#[test]
fn first_bad_piece_is_reported() {
    assert_eq!(route::<()>("/2fast").unwrap_err(), RouteError::BadSegment { index: 0 });
    assert_eq!(route::<()>("/\"a\"/b-c/d e").unwrap_err(), RouteError::BadSegment { index: 1 });
    assert_eq!(route::<()>("/a//\"open").unwrap_err(), RouteError::BadSegment { index: 2 });
    assert_eq!(route::<()>("/\"a\"b\"").unwrap_err(), RouteError::BadSegment { index: 0 });
    assert_eq!(route::<()>("/\"").unwrap_err(), RouteError::BadSegment { index: 0 });
    assert_eq!(route::<()>("/caf\u{e9}").unwrap_err(), RouteError::BadSegment { index: 0 });
}

#[test]
fn parsed_routes_use_every_position_once() {
    let parsed: Route<()> = route("/\"a\"/b/\"c\"/d/e").unwrap();
    let mut positions: Vec<usize> = parsed
        .static_segments
        .iter()
        .map(|s| s.position)
        .chain(parsed.dynamic_segments.iter().map(|s| s.position))
        .collect();
    positions.sort();
    assert_eq!(positions, vec![0, 1, 2, 3, 4]);
}

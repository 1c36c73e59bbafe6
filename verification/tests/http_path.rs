use http_server::http_path::{
    trim_edges, HttpPath, HttpPathSegment, PathCompareResult, RouteMappingPath,
    RouteMappingPathSegment, ToPathString,
};
use http_server::http_path::PathCompareResult::{Matching, MatchingWithVariables, NotMatching};
use http_server::text_map::TextMap;

#[test]
fn should_match_basic_path() {
    assert_eq!(
        RouteMappingPath::from("/hello/world").matches(&"/hello/world".into()),
        Matching
    );
    assert_eq!(
        RouteMappingPath::from("/").matches(&"/".into()),
        Matching
    );
    assert_eq!(
        RouteMappingPath::from("/test").matches(&"/test".into()),
        Matching
    );
    assert_eq!(
        RouteMappingPath::from("/test/").matches(&"/test/".into()),
        Matching
    );
}

#[test]
fn should_not_match() {
    assert_eq!(
        RouteMappingPath::from("/hello/world").matches(&"/hello/".into()),
        NotMatching
    );
    assert_eq!(
        RouteMappingPath::from("/hello").matches(&"/hello/world".into()),
        NotMatching
    );
    assert_eq!(
        RouteMappingPath::from("/api/booking/{booking_id}").matches(&"/api/booking/".into()),
        NotMatching
    );
}

#[test]
fn should_match_variable() {
    assert_eq!(
        RouteMappingPath::from("/hello/{id}").matches(&"/hello/tristan".into()),
        MatchingWithVariables(TextMap::from(vec![("id".to_string(), "tristan".to_string())]))
    );
    assert_eq!(
        RouteMappingPath::from("/api/booking/{booking_id}/passenger/{passenger_id}").matches(&"/api/booking/1/passenger/67".into()),
        MatchingWithVariables(TextMap::from(vec![
            ("booking_id".to_string(), "1".to_string()),
            ("passenger_id".to_string(), "67".to_string())
        ]))
    );
}

#[test]
fn path_keeps_its_text() {
    let path = HttpPath::from("//a//b/");
    assert_eq!(path.as_str(), "//a//b/");
    let result: PathCompareResult = RouteMappingPath::from("a/b").matches(&path);
    assert_eq!(result, Matching);
}

fn segments(path: &HttpPath) -> Vec<&str> {
    path.path_segments.iter().map(|segment| segment.0.as_str()).collect()
}

#[test]
fn path_segments_are_the_non_empty_texts_between_slashes() {
    assert_eq!(segments(&HttpPath::from("/hello/world")), vec!["hello", "world"]);
    assert_eq!(segments(&HttpPath::from("hello/world")), vec!["hello", "world"]);
    assert_eq!(segments(&HttpPath::from("//hello///world//")), vec!["hello", "world"]);
    assert!(segments(&HttpPath::from("/")).is_empty());
    assert!(segments(&HttpPath::from("")).is_empty());
    assert!(segments(&HttpPath::from("////")).is_empty());
    assert_eq!(segments(&HttpPath::from("a")), vec!["a"]);
}

#[test]
fn path_segments_agree_with_the_standard_library() {
    for text in ["", "/", "a", "/a", "a/", "/a/b", "//a//b//", "/é/ü", "/a b/c", "/{x}/}"] {
        let expected: Vec<&str> = text.split('/').filter(|piece| !piece.is_empty()).collect();
        assert_eq!(segments(&HttpPath::from(text)), expected);
        assert_eq!(segments(&HttpPath::from(text.to_string())), expected);
    }
}

#[test]
fn path_segments_keep_case_and_are_not_decoded() {
    assert_eq!(segments(&HttpPath::from("/Hello/a%20b")), vec!["Hello", "a%20b"]);
    assert_eq!(segments(&HttpPath::from("/a?x=1")), vec!["a?x=1"]);
}

#[test]
fn path_from_string_keeps_its_text() {
    let path = HttpPath::from("/a/b".to_string());
    assert_eq!(path.as_str(), "/a/b");
    assert_eq!(path.path, "/a/b");
    assert_eq!(RouteMappingPath::from("/a/{b}").path, "/a/{b}");
    assert_eq!(segments(&path), vec!["a", "b"]);
}

#[test]
fn segment_from_text() {
    let segment = HttpPathSegment::from("abc");
    assert_eq!(segment.0, "abc");
}

fn kinds(route: &RouteMappingPath) -> Vec<(bool, &str)> {
    route
        .path_segments
        .iter()
        .map(|segment| match segment {
            RouteMappingPathSegment::Constant(text) => (false, text.as_str()),
            RouteMappingPathSegment::Variable(name) => (true, name.as_str()),
        })
        .collect()
}

#[test]
fn route_segments_are_constants_or_variables() {
    assert_eq!(
        kinds(&RouteMappingPath::from("/a/{v}/b")),
        vec![(false, "a"), (true, "v"), (false, "b")]
    );
    assert_eq!(kinds(&RouteMappingPath::from("/{}")), vec![(true, "")]);
    assert_eq!(kinds(&RouteMappingPath::from("/{")), vec![(false, "{")]);
    assert_eq!(kinds(&RouteMappingPath::from("/}")), vec![(false, "}")]);
    assert_eq!(kinds(&RouteMappingPath::from("/{a")), vec![(false, "{a")]);
    assert_eq!(kinds(&RouteMappingPath::from("/a}")), vec![(false, "a}")]);
    assert_eq!(kinds(&RouteMappingPath::from("/}{")), vec![(false, "}{")]);
    assert_eq!(kinds(&RouteMappingPath::from("/{{x}}")), vec![(true, "{x}")]);
    assert_eq!(kinds(&RouteMappingPath::from("/{é}")), vec![(true, "é")]);
    assert!(kinds(&RouteMappingPath::from("/")).is_empty());
}

#[test]
fn root_route_matches_root_path() {
    assert_eq!(RouteMappingPath::from("/").matches(&HttpPath::from("/")), Matching);
    assert_eq!(RouteMappingPath::from("/").matches(&HttpPath::from("")), Matching);
    assert_eq!(RouteMappingPath::from("").matches(&HttpPath::from("//")), Matching);
}

#[test]
fn variable_needs_a_segment() {
    assert_eq!(RouteMappingPath::from("/a/{x}").matches(&HttpPath::from("/a/")), NotMatching);
    assert_eq!(RouteMappingPath::from("/a/{x}").matches(&HttpPath::from("/a")), NotMatching);
    assert_eq!(RouteMappingPath::from("/a/{x}").matches(&HttpPath::from("/a/b/c")), NotMatching);
}

#[test]
fn later_of_two_variables_with_one_name_stays() {
    let result = RouteMappingPath::from("/{x}/{x}").matches(&HttpPath::from("/first/second"));
    assert_eq!(
        result,
        MatchingWithVariables(TextMap::from(vec![("x".to_string(), "second".to_string())]))
    );
    match result {
        MatchingWithVariables(variables) => {
            assert_eq!(variables.len(), 1);
            assert_eq!(variables.get("x"), Some("second"));
        }
        _ => panic!("the route has variables"),
    }
}

#[test]
fn route_without_variables_matches_its_own_segments_only() {
    let route = RouteMappingPath::from("/a/b");
    assert_eq!(route.matches(&HttpPath::from("/a/b")), Matching);
    assert_eq!(route.matches(&HttpPath::from("a//b/")), Matching);
    assert_eq!(route.matches(&HttpPath::from("/a/c")), NotMatching);
    assert_eq!(route.matches(&HttpPath::from("/A/b")), NotMatching);
    assert_eq!(route.matches(&HttpPath::from("/a")), NotMatching);
    assert_eq!(route.matches(&HttpPath::from("/a/b/c")), NotMatching);
}

#[test]
fn variable_takes_whatever_stands_in_its_place() {
    let route = RouteMappingPath::from("/echo/{t}");
    for text in ["banana", "{", "}", "{t}", "a?x=1", "%2F", "é"] {
        let path = HttpPath::from(format!("/echo/{}", text));
        assert_eq!(
            route.matches(&path),
            MatchingWithVariables(TextMap::from(vec![("t".to_string(), text.to_string())]))
        );
    }
}

#[test]
fn constant_before_a_variable_must_agree() {
    let route = RouteMappingPath::from("/a/{x}/c");
    assert_eq!(route.matches(&HttpPath::from("/b/1/c")), NotMatching);
    assert_eq!(route.matches(&HttpPath::from("/a/1/d")), NotMatching);
    assert_eq!(
        route.matches(&HttpPath::from("/a/1/c")),
        MatchingWithVariables(TextMap::from(vec![("x".to_string(), "1".to_string())]))
    );
}

#[test]
fn variable_without_name_binds_under_the_empty_name() {
    let route = RouteMappingPath::from("/{}");
    assert_eq!(
        route.matches(&HttpPath::from("/v")),
        MatchingWithVariables(TextMap::from(vec![("".to_string(), "v".to_string())]))
    );
}

#[test]
fn results_of_different_kinds_differ() {
    let with = MatchingWithVariables(TextMap::from(vec![("a".to_string(), "1".to_string())]));
    assert_ne!(Matching, NotMatching);
    assert_ne!(with, Matching);
    assert_ne!(NotMatching, with);
    assert_ne!(
        with,
        MatchingWithVariables(TextMap::from(vec![("a".to_string(), "2".to_string())]))
    );
}

#[test]
fn route_tells_of_variables_without_name() {
    assert!(RouteMappingPath::from("/a/{}").has_empty_variable_name());
    assert!(!RouteMappingPath::from("/a/{x}").has_empty_variable_name());
    assert!(!RouteMappingPath::from("/a").has_empty_variable_name());
    assert!(!RouteMappingPath::from("/").has_empty_variable_name());
}

#[test]
fn route_tells_of_variables_with_one_name() {
    assert!(RouteMappingPath::from("/{x}/a/{x}").has_duplicate_variable_name());
    assert!(RouteMappingPath::from("/{}/{}").has_duplicate_variable_name());
    assert!(!RouteMappingPath::from("/{x}/{y}").has_duplicate_variable_name());
    assert!(!RouteMappingPath::from("/x/x").has_duplicate_variable_name());
    assert!(!RouteMappingPath::from("/x/{x}").has_duplicate_variable_name());
    assert!(!RouteMappingPath::from("/").has_duplicate_variable_name());
}

#[test]
fn edges_are_trimmed() {
    assert_eq!(trim_edges("{name}"), "name");
    assert_eq!(trim_edges("{}"), "");
    assert_eq!(trim_edges("{"), "");
    assert_eq!(trim_edges(""), "");
    assert_eq!(trim_edges("abc"), "b");
    assert_eq!(trim_edges("{é}"), "é");
}

#[test]
fn segments_are_written_with_slashes_between() {
    let path = HttpPath::from("//a/b//c");
    assert_eq!(path.path_segments.to_path_string(), "a/b/c");
    assert_eq!(path.path_segments[1..].to_path_string(), "b/c");
    assert_eq!(path.path_segments[..1].to_path_string(), "a");
    assert_eq!(HttpPath::from("/").path_segments.to_path_string(), "");
}

#[test]
fn copy_of_a_path_holds_the_same_text_and_segments() {
    let path = HttpPath::from("/a//b");
    let copy = path.clone();
    assert_eq!(copy.as_str(), "/a//b");
    assert_eq!(segments(&copy), vec!["a", "b"]);
    assert_eq!(path.path_segments[0].clone().0, "a");
}

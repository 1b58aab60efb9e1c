use endpoint_scan::line::{
    begins_with_marker, parse_annotation, parse_candidate, parse_line, LineError,
    ENDPOINT_PATTERN,
};
use endpoint_scan::report::ControllerRequestFileSearchResult;
use endpoint_scan::verb::HttpVerbs;

fn pair(found: Option<ControllerRequestFileSearchResult>) -> Option<(HttpVerbs, String)> {
    found.map(|f| (f.http_verb, f.rest_path))
}

fn endpoint(line: &str) -> Option<(HttpVerbs, String)> {
    match parse_line(line) {
        Ok(found) => pair(found),
        Err(error) => panic!("{:?}", error),
    }
}

fn annotation(line: &str) -> Option<(HttpVerbs, String)> {
    match parse_annotation(line) {
        Ok(found) => pair(found),
        Err(error) => panic!("{:?}", error),
    }
}

fn some(verb: HttpVerbs, path: &str) -> Option<(HttpVerbs, String)> {
    Some((verb, String::from(path)))
}

#[test]
fn get_mapping_with_path() {
    assert_eq!(endpoint("@GetMapping(\"/users/{id}\")"), some(HttpVerbs::Get, "/users/{id}"));
}

#[test]
fn request_mapping_ignores_attribute_name() {
    assert_eq!(endpoint("@RequestMapping(value = \"/health\")"), some(HttpVerbs::Any, "/health"));
}

#[test]
fn escaped_quote_stays_in_path() {
    assert_eq!(endpoint("@PostMapping(\"/a\\\"b\")"), some(HttpVerbs::Post, "/a\"b"));
}

#[test]
fn delete_mapping_without_parentheses() {
    assert_eq!(endpoint("@DeleteMapping"), some(HttpVerbs::Delete, ""));
}

#[test]
fn unknown_annotation_is_an_error() {
    match parse_line("@FooMapping(\"/x\")") {
        Err(LineError::UnknownAnnotation { name }) => assert_eq!(name, "@FooMapping"),
        other => panic!("{:?}", other),
    }
}

#[test]
fn unknown_annotation_without_parentheses_is_an_error() {
    match parse_line("@FooMapping // no path") {
        Err(LineError::UnknownAnnotation { name }) => assert_eq!(name, "@FooMapping//nopath"),
        other => panic!("{:?}", other),
    }
}

#[test]
fn line_outside_the_filter_has_no_endpoint() {
    assert_eq!(endpoint("public class OrderController {"), None);
    assert_eq!(endpoint("@Override"), None);
    assert_eq!(endpoint("@Mapping(\"/x\")"), None);
    assert_eq!(endpoint(""), None);
}

#[test]
fn line_that_does_not_start_with_the_marker_has_no_endpoint() {
    assert_eq!(endpoint("// @GetMapping(\"/x\")"), None);
    assert_eq!(endpoint("x @GetMapping(\"/x\")"), None);
}

#[test]
fn filter_answer_decides_whether_the_line_is_parsed() {
    assert!(matches!(parse_candidate("@GetMapping(\"/x\")", false), Ok(None)));
    assert!(matches!(parse_candidate("@FooMapping(\"/x\")", false), Ok(None)));
    assert!(matches!(parse_candidate("GetMapping(\"/x\")", true), Ok(None)));
    match parse_candidate("@GetMapping(\"/x\")", true) {
        Ok(found) => assert_eq!(pair(found), some(HttpVerbs::Get, "/x")),
        Err(error) => panic!("{:?}", error),
    }
    assert!(matches!(
        parse_candidate("@FooMapping(\"/x\")", true),
        Err(LineError::UnknownAnnotation { .. })
    ));
}

#[test]
fn every_mapping_annotation_has_its_verb() {
    assert_eq!(endpoint("@RequestMapping(\"/r\")"), some(HttpVerbs::Any, "/r"));
    assert_eq!(endpoint("@DeleteMapping(\"/d\")"), some(HttpVerbs::Delete, "/d"));
    assert_eq!(endpoint("@GetMapping(\"/g\")"), some(HttpVerbs::Get, "/g"));
    assert_eq!(endpoint("@HeadMapping(\"/h\")"), some(HttpVerbs::Head, "/h"));
    assert_eq!(endpoint("@OptionsMapping(\"/o\")"), some(HttpVerbs::Options, "/o"));
    assert_eq!(endpoint("@PatchMapping(\"/pa\")"), some(HttpVerbs::Patch, "/pa"));
    assert_eq!(endpoint("@PostMapping(\"/po\")"), some(HttpVerbs::Post, "/po"));
    assert_eq!(endpoint("@PutMapping(\"/pu\")"), some(HttpVerbs::Put, "/pu"));
}

#[test]
fn leading_white_space_is_passed_over() {
    assert_eq!(endpoint("    @GetMapping(\"/x\")"), some(HttpVerbs::Get, "/x"));
    assert_eq!(endpoint("\t@PutMapping(\"/y\")\r"), some(HttpVerbs::Put, "/y"));
    assert_eq!(endpoint("\u{a0}\u{3000}@PutMapping(\"/z\")"), some(HttpVerbs::Put, "/z"));
}

#[test]
fn white_space_is_no_part_of_the_name() {
    assert_eq!(endpoint("@GetMapping (\"/x\")"), some(HttpVerbs::Get, "/x"));
    assert_eq!(endpoint("@DeleteMapping   "), some(HttpVerbs::Delete, ""));
    assert_eq!(annotation("@Get Mapping(\"/x\")"), some(HttpVerbs::Get, "/x"));
}

#[test]
fn rest_of_the_line_after_the_path_is_ignored() {
    assert_eq!(
        endpoint("@GetMapping(value = \"/a\", produces = \"text/plain\") // \"c\""),
        some(HttpVerbs::Get, "/a")
    );
}

#[test]
fn empty_quoted_path() {
    assert_eq!(endpoint("@GetMapping(\"\")"), some(HttpVerbs::Get, ""));
}

#[test]
fn attributes_without_a_quoted_string_give_no_endpoint() {
    assert_eq!(endpoint("@GetMapping()"), None);
    assert_eq!(endpoint("@GetMapping(value = PATH)"), None);
    assert_eq!(endpoint("@GetMapping("), None);
}

#[test]
fn path_without_closing_quote_gives_no_endpoint() {
    assert_eq!(endpoint("@GetMapping(\"/open"), None);
    assert_eq!(endpoint("@GetMapping(\"/open\\\""), None);
}

#[test]
fn unknown_annotation_is_reported_before_the_attributes_are_read() {
    assert!(matches!(parse_line("@FooMapping("), Err(LineError::UnknownAnnotation { .. })));
}

#[test]
fn backslash_that_is_not_escaped_is_dropped() {
    assert_eq!(endpoint("@GetMapping(\"/a\\b\")"), some(HttpVerbs::Get, "/ab"));
}

#[test]
fn two_backslashes_escape_the_quote_after_them() {
    // `/a\\"b"`: the first backslash is dropped, the second is kept, and the
    // quote after it counts as escaped.
    assert_eq!(endpoint("@GetMapping(\"/a\\\\\"b\")"), some(HttpVerbs::Get, "/a\\\"b"));
}

#[test]
fn two_backslashes_before_the_end_leave_the_path_open() {
    assert_eq!(endpoint("@GetMapping(\"/a\\\\\")"), None);
}

#[test]
fn characters_outside_ascii_are_kept() {
    assert_eq!(
        endpoint("@GetMapping(\"/stra\u{df}e/\u{8d8a}\")"),
        some(HttpVerbs::Get, "/stra\u{df}e/\u{8d8a}")
    );
}

#[test]
fn name_is_looked_up_at_the_end_of_a_line_outside_ascii() {
    match parse_line("@DeleteMapping\u{e9}") {
        Err(LineError::UnknownAnnotation { name }) => assert_eq!(name, "@DeleteMapping\u{e9}"),
        other => panic!("{:?}", other),
    }
}

#[test]
fn marker_test_looks_at_the_first_visible_character() {
    assert!(begins_with_marker("@x"));
    assert!(begins_with_marker(" \t @"));
    assert!(!begins_with_marker(""));
    assert!(!begins_with_marker("   "));
    assert!(!begins_with_marker("x@"));
    assert!(!begins_with_marker(" x @"));
}

#[test]
fn line_filter_pattern_is_fixed() {
    assert_eq!(ENDPOINT_PATTERN, r"(@)\w+(Mapping).*");
}

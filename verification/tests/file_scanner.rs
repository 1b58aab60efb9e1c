use endpoint_scan::file::{scan_file, scan_text, split_lines};
use endpoint_scan::line::LineError;
use endpoint_scan::report::ControllerFileSearchResult;
use endpoint_scan::verb::HttpVerbs;

fn endpoints(report: &ControllerFileSearchResult) -> Vec<(HttpVerbs, String)> {
    report.request_search_results.iter().map(|r| (r.http_verb, r.rest_path.clone())).collect()
}

#[test]
fn new_report_has_the_name_and_no_endpoint() {
    let report = ControllerFileSearchResult::new(String::from("OrderController.java"));
    assert_eq!(report.file_name, "OrderController.java");
    assert!(report.request_search_results.is_empty());
}

#[test]
fn lines_are_the_pieces_between_line_feeds() {
    assert_eq!(split_lines("a\nb\nc"), vec!["a", "b", "c"]);
    assert_eq!(split_lines("a\n\nb\n"), vec!["a", "", "b", ""]);
    assert_eq!(split_lines(""), vec![""]);
    assert_eq!(split_lines("\n"), vec!["", ""]);
    assert_eq!(split_lines("a\r\nb"), vec!["a\r", "b"]);
    assert_eq!(split_lines("\u{e9}\n\u{8d8a}"), vec!["\u{e9}", "\u{8d8a}"]);
}

#[test]
fn two_mappings_and_one_other_line_give_two_endpoints_in_order() {
    let text = "@GetMapping(\"/orders\")\npublic class OrderController {\n@GetMapping(\"/orders/{id}\")";
    let report = scan_file(String::from("OrderController.java"), text.as_bytes()).unwrap();
    assert_eq!(report.file_name, "OrderController.java");
    assert_eq!(
        endpoints(&report),
        vec![
            (HttpVerbs::Get, String::from("/orders")),
            (HttpVerbs::Get, String::from("/orders/{id}")),
        ]
    );
}

#[test]
fn file_without_annotations_gives_an_empty_report() {
    let report = scan_text(String::from("EmptyController.java"), "class EmptyController {}\n").unwrap();
    assert_eq!(report.file_name, "EmptyController.java");
    assert!(report.request_search_results.is_empty());
    let report = scan_text(String::from("EmptyController.java"), "").unwrap();
    assert!(report.request_search_results.is_empty());
}

#[test]
fn controller_with_windows_line_ends() {
    let text = "@RestController\r\n@RequestMapping(\"/api\")\r\npublic class A {\r\n    @PostMapping\r\n    void f() {}\r\n}\r\n";
    let report = scan_text(String::from("AController.java"), text).unwrap();
    assert_eq!(
        endpoints(&report),
        vec![(HttpVerbs::Any, String::from("/api")), (HttpVerbs::Post, String::new())]
    );
}

#[test]
fn unknown_annotation_ends_the_scan_of_the_file() {
    let text = "@GetMapping(\"/a\")\n@FooMapping(\"/x\")\n@GetMapping(\"/b\")";
    match scan_text(String::from("XController.java"), text) {
        Err(LineError::UnknownAnnotation { name }) => assert_eq!(name, "@FooMapping"),
        other => panic!("{:?}", other),
    }
}

#[test]
fn first_unknown_annotation_is_the_one_reported() {
    let text = "@FirstMapping\n@SecondMapping";
    match scan_text(String::from("XController.java"), text) {
        Err(LineError::UnknownAnnotation { name }) => assert_eq!(name, "@FirstMapping"),
        other => panic!("{:?}", other),
    }
}

#[test]
fn bytes_that_are_no_utf8_are_replaced() {
    let mut content = Vec::from("@GetMapping(\"/a".as_bytes());
    content.push(0xff);
    content.extend_from_slice("b\")\n".as_bytes());
    content.push(0xc3);
    let report = scan_file(String::from("BController.java"), &content).unwrap();
    assert_eq!(endpoints(&report), vec![(HttpVerbs::Get, String::from("/a\u{fffd}b"))]);
}

#[test]
fn utf8_content_is_decoded() {
    let report =
        scan_file(String::from("CController.java"), "@PutMapping(\"/caf\u{e9}\")".as_bytes()).unwrap();
    assert_eq!(endpoints(&report), vec![(HttpVerbs::Put, String::from("/caf\u{e9}"))]);
}

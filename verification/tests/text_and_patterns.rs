use endpoint_scan::pattern::is_match;
use endpoint_scan::file::split_lines;
use endpoint_scan::line::begins_with_marker;
use endpoint_scan::text::{
    char_is_whitespace, copy_text, same_text, starts_with_char, without_first_char,
};
use endpoint_scan::verb::HttpVerbs;

#[test]
fn white_space_is_what_the_standard_library_calls_white_space() {
    let mut code: u32 = 0;
    while code <= 0x10FFFF {
        if let Some(c) = char::from_u32(code) {
            assert_eq!(char_is_whitespace(c), c.is_whitespace(), "U+{:04X}", code);
        }
        code += 1;
    }
}

#[test]
fn same_text_compares_character_by_character() {
    assert!(same_text("", ""));
    assert!(same_text("@GetMapping", "@GetMapping"));
    assert!(!same_text("@GetMapping", "@GetMappin"));
    assert!(!same_text("@GetMappin", "@GetMapping"));
    assert!(!same_text("@GetMapping", "@SetMapping"));
    assert!(!same_text("", "x"));
    assert!(same_text("\u{8d8a}\u{e9}", "\u{8d8a}\u{e9}"));
    assert!(!same_text("\u{8d8a}", "\u{8d8b}"));
}

#[test]
fn copy_text_gives_the_same_characters() {
    assert_eq!(copy_text("a\u{e9}\n"), "a\u{e9}\n");
    assert_eq!(copy_text(""), "");
}

#[test]
fn pattern_is_searched_anywhere_in_the_text() {
    assert_eq!(is_match("a+b", "xxaaab"), Some(true));
    assert_eq!(is_match("a+b", "a+b"), Some(false));
    assert_eq!(is_match("^b", "ab"), Some(false));
    assert_eq!(is_match("b$", "ab"), Some(true));
    assert_eq!(is_match("", ""), Some(true));
}

#[test]
fn pattern_that_does_not_compile_gives_no_answer() {
    assert_eq!(is_match("(", "("), None);
    assert_eq!(is_match("a{2,1}", "aa"), None);
}

#[test]
fn verbs_have_their_upper_case_names() {
    assert_eq!(HttpVerbs::Get.as_str(), "GET");
    assert_eq!(HttpVerbs::Post.as_str(), "POST");
    assert_eq!(HttpVerbs::Put.as_str(), "PUT");
    assert_eq!(HttpVerbs::Patch.as_str(), "PATCH");
    assert_eq!(HttpVerbs::Delete.as_str(), "DELETE");
    assert_eq!(HttpVerbs::Options.as_str(), "OPTIONS");
    assert_eq!(HttpVerbs::Head.as_str(), "HEAD");
    assert_eq!(HttpVerbs::Any.as_str(), "ANY");
}

#[test]
fn dictionary_knows_the_eight_annotations_and_no_other() {
    assert_eq!(HttpVerbs::from_annotation("@RequestMapping"), Some(HttpVerbs::Any));
    assert_eq!(HttpVerbs::from_annotation("@DeleteMapping"), Some(HttpVerbs::Delete));
    assert_eq!(HttpVerbs::from_annotation("@GetMapping"), Some(HttpVerbs::Get));
    assert_eq!(HttpVerbs::from_annotation("@HeadMapping"), Some(HttpVerbs::Head));
    assert_eq!(HttpVerbs::from_annotation("@OptionsMapping"), Some(HttpVerbs::Options));
    assert_eq!(HttpVerbs::from_annotation("@PatchMapping"), Some(HttpVerbs::Patch));
    assert_eq!(HttpVerbs::from_annotation("@PostMapping"), Some(HttpVerbs::Post));
    assert_eq!(HttpVerbs::from_annotation("@PutMapping"), Some(HttpVerbs::Put));
    assert_eq!(HttpVerbs::from_annotation("@FooMapping"), None);
    assert_eq!(HttpVerbs::from_annotation("GetMapping"), None);
    assert_eq!(HttpVerbs::from_annotation("@getmapping"), None);
    assert_eq!(HttpVerbs::from_annotation(""), None);
}

const SAMPLES: [&str; 12] = [
    "",
    " ",
    "@",
    " @GetMapping",
    "\t\u{a0}\u{2003}@x",
    "x@",
    "\n@",
    "a\nb",
    "\n\n",
    "-mapdir",
    "\u{e9}t\u{e9}\n@\u{8d8a}",
    "\u{feff}@bom",
];

#[test]
fn marker_test_agrees_with_trimming() {
    for sample in SAMPLES {
        assert_eq!(begins_with_marker(sample), sample.trim().starts_with('@'), "{:?}", sample);
    }
}

#[test]
fn lines_agree_with_splitting_at_line_feeds() {
    for sample in SAMPLES {
        let expected: Vec<&str> = sample.split('\n').collect();
        assert_eq!(split_lines(sample), expected, "{:?}", sample);
    }
}

#[test]
fn first_character_is_tested_and_dropped() {
    for sample in SAMPLES {
        assert_eq!(starts_with_char(sample, '-'), sample.starts_with('-'), "{:?}", sample);
        assert_eq!(starts_with_char(sample, '@'), sample.starts_with('@'), "{:?}", sample);
        let expected: String = sample.chars().skip(1).collect();
        assert_eq!(without_first_char(sample), expected, "{:?}", sample);
    }
}

//! The parser of one line of source text: a mapping annotation on the line
//! becomes an endpoint.

use vstd::prelude::*;
use vstd::std_specs::iter::IteratorSpec;
use crate::pattern::{is_match, pattern_search, regex_is_match};
use crate::report::{ControllerRequestFileSearchResult, Endpoint};
use crate::text::{
    char_is_whitespace, copy_text, index_of, is_whitespace, lemma_index_of, push_char, visible,
};
use crate::verb::HttpVerbs;

verus! {

/// The regular expression that a line has to match before it is parsed: the
/// marker, a word, and the word's ending `Mapping`.
pub const ENDPOINT_PATTERN: &'static str = "(@)\\w+(Mapping).*";

/// Why a line could not be turned into an endpoint.
#[derive(Debug)]
pub enum LineError {
    /// The annotation on the line is none of the mapping annotations.
    UnknownAnnotation { name: String },
    /// The regular expression of the line filter did not compile.
    PatternRejected { pattern: String },
}

/// A `LineError` as contracts speak of it.
pub enum LineFault {
    UnknownAnnotation { name: Seq<char> },
    PatternRejected { pattern: Seq<char> },
}

impl View for LineError {
    type V = LineFault;

    open spec fn view(&self) -> LineFault {
        match self {
            LineError::UnknownAnnotation { name } => LineFault::UnknownAnnotation { name: name@ },
            LineError::PatternRejected { pattern } => LineFault::PatternRejected {
                pattern: pattern@,
            },
        }
    }
}

/// What parsing a line gives, as contracts speak of it.
pub open spec fn outcome_view(
    outcome: Result<Option<ControllerRequestFileSearchResult>, LineError>,
) -> Result<Option<Endpoint>, LineFault> {
    match outcome {
        Ok(Some(found)) => Ok(Some(found@)),
        Ok(None) => Ok(None),
        Err(error) => Err(error@),
    }
}

/// Whether the first character of `line` that is no white space is the
/// marker `@`.
pub open spec fn starts_with_marker(line: Seq<char>) -> bool {
    exists|i: int|
        0 <= i < line.len() && line[i] == '@' && forall|j: int|
            0 <= j < i ==> is_whitespace(#[trigger] line[j])
}

/// The name of the annotation on `line`: the characters before the first
/// `(`, or all of them where there is none, without white space.
pub open spec fn annotation_name(line: Seq<char>) -> Seq<char> {
    line.take(index_of(line, '(', 0)).filter(visible())
}

/// Whether the character at `i` is escaped: the one just before it is a
/// backslash. Only that one character is looked at, so a backslash escapes
/// what follows it even where it is escaped itself.
pub open spec fn escaped(line: Seq<char>, i: int) -> bool {
    i > 0 && line[i - 1] == '\\'
}

/// Whether the character at `i` ends a path: a double quote that is not
/// escaped.
pub open spec fn closes_path(line: Seq<char>, i: int) -> bool {
    line[i] == '"' && !escaped(line, i)
}

/// The index of the first character at or after `from` that ends a path;
/// `line.len()` where there is none.
pub open spec fn path_end(line: Seq<char>, from: int) -> int
    decreases line.len() - from,
{
    if from < 0 || from >= line.len() {
        line.len() as int
    } else if closes_path(line, from) {
        from
    } else {
        path_end(line, from + 1)
    }
}

/// The path that the characters from `from` up to `to` spell: each of them
/// but the backslashes that are not escaped.
pub open spec fn path_text(line: Seq<char>, from: int, to: int) -> Seq<char>
    decreases to - from,
{
    if to <= from {
        Seq::empty()
    } else if line[to - 1] == '\\' && !escaped(line, to - 1) {
        path_text(line, from, to - 1)
    } else {
        path_text(line, from, to - 1).push(line[to - 1])
    }
}

/// What the annotation on `line` declares. Its name has to be one of the
/// mapping annotations. Without a `(` the endpoint has the empty path. After a
/// `(` the path is the first quoted string; where the line holds no complete
/// one, it declares no endpoint.
pub open spec fn annotation_outcome(line: Seq<char>) -> Result<Option<Endpoint>, LineFault> {
    let paren = index_of(line, '(', 0);
    let quote = index_of(line, '"', paren + 1);
    let end = path_end(line, quote + 1);
    match HttpVerbs::of_annotation(annotation_name(line)) {
        None => Err(LineFault::UnknownAnnotation { name: annotation_name(line) }),
        Some(verb) => if paren >= line.len() {
            Ok(Some(Endpoint { verb, path: Seq::empty() }))
        } else if end < line.len() {
            Ok(Some(Endpoint { verb, path: path_text(line, quote + 1, end) }))
        } else {
            Ok(None)
        },
    }
}

/// What a line gives once the line filter has answered `coarse`: the line is
/// parsed where the filter matched and the line starts with the marker, and
/// holds no endpoint otherwise.
pub open spec fn line_outcome(line: Seq<char>, coarse: bool) -> Result<
    Option<Endpoint>,
    LineFault,
> {
    if coarse && starts_with_marker(line) {
        annotation_outcome(line)
    } else {
        Ok(None)
    }
}

/// What `line` declares. A line that does not start with the marker
/// declares no endpoint. Any other line is put to the line filter, and parsed
/// where the filter matches it; it is a fault that the pattern of the filter
/// does not compile.
pub open spec fn declared(line: Seq<char>) -> Result<Option<Endpoint>, LineFault> {
    if !starts_with_marker(line) {
        Ok(None)
    } else {
        match pattern_search(ENDPOINT_PATTERN@, line) {
            Some(coarse) => line_outcome(line, coarse),
            None => Err(LineFault::PatternRejected { pattern: ENDPOINT_PATTERN@ }),
        }
    }
}

/// A line that the line filter does not match declares no endpoint,
/// whatever it holds.
pub proof fn lemma_unmatched_line_declares_nothing(line: Seq<char>)
    ensures
        !regex_is_match(ENDPOINT_PATTERN@, line) ==> !(declared(line) matches Ok(Some(_))),
        line_outcome(line, false) == Ok::<Option<Endpoint>, LineFault>(None),
{
}

/// `path_end` is the one index at or after `from` that ends a path with none
/// before it; it is the length where none follows `from`.
pub proof fn lemma_path_end(line: Seq<char>, from: int, k: int)
    requires
        0 <= from <= k <= line.len(),
        forall|j: int| from <= j < k ==> !closes_path(line, j),
        k < line.len() ==> closes_path(line, k),
    ensures
        path_end(line, from) == k,
    decreases k - from,
{
    if from < k {
        lemma_path_end(line, from + 1, k);
    }
}

/// The states of the parser, in the order in which a line passes them.
#[derive(Clone, Copy, Debug, PartialEq, Eq, Structural)]
pub enum Contexts {
    AnnotationName,
    AnnotationAttributes,
    EndpointPath,
    EndOfCapture,
}

/// What holds of the parser after the first `i` characters of `line`.
spec fn progress(
    line: Seq<char>,
    i: int,
    context: Contexts,
    buffer: Seq<char>,
    verb: HttpVerbs,
    path: Seq<char>,
    paren: int,
    quote: int,
    end: int,
) -> bool {
    match context {
        Contexts::AnnotationName => {
            &&& forall|j: int| 0 <= j < i ==> line[j] != '('
            &&& buffer == line.take(i).filter(visible())
        },
        Contexts::AnnotationAttributes => {
            &&& 0 <= paren < i
            &&& paren == index_of(line, '(', 0)
            &&& HttpVerbs::of_annotation(annotation_name(line)) == Some(verb)
            &&& forall|j: int| paren < j < i ==> line[j] != '"'
            &&& buffer == Seq::<char>::empty()
        },
        Contexts::EndpointPath => {
            &&& 0 <= paren < quote < i
            &&& paren == index_of(line, '(', 0)
            &&& HttpVerbs::of_annotation(annotation_name(line)) == Some(verb)
            &&& quote == index_of(line, '"', paren + 1)
            &&& forall|j: int| quote < j < i ==> !closes_path(line, j)
            &&& buffer == path_text(line, quote + 1, i)
        },
        Contexts::EndOfCapture => {
            &&& 0 <= paren < quote < end < i
            &&& paren == index_of(line, '(', 0)
            &&& HttpVerbs::of_annotation(annotation_name(line)) == Some(verb)
            &&& quote == index_of(line, '"', paren + 1)
            &&& end == path_end(line, quote + 1)
            &&& path == path_text(line, quote + 1, end)
        },
    }
}

/// Whether the first character of `line` that is no white space is the
/// marker `@`.
pub fn begins_with_marker(line: &str) -> (marked: bool)
    ensures
        marked == starts_with_marker(line@),
{
    for c in it: line.chars()
        invariant
            it.seq() == line@,
            forall|j: int| 0 <= j < it.index() ==> is_whitespace(#[trigger] line@[j]),
    {
        if !char_is_whitespace(c) {
            let ghost i = it.index();
            assert(forall|k: int|
                0 <= k < line@.len() && line@[k] == '@' && (forall|j: int|
                    0 <= j < k ==> is_whitespace(#[trigger] line@[j])) ==> k == i) by {
                assert(!is_whitespace('@'));
            }
            return c == '@';
        }
    }
    assert(!is_whitespace('@'));
    false
}

/// Parses the annotation on `line` character by character.
pub fn parse_annotation(line: &str) -> (outcome: Result<
    Option<ControllerRequestFileSearchResult>,
    LineError,
>)
    ensures
        outcome_view(outcome) == annotation_outcome(line@),
{
    let mut context = Contexts::AnnotationName;
    let mut buffer = String::new();
    let mut prev_c = '\0';
    let mut http_verb = HttpVerbs::Any;
    let mut endpoint_path = String::new();
    let ghost text = line@;
    let ghost mut paren: int = 0;
    let ghost mut quote: int = 0;
    let ghost mut end: int = 0;
    assert(text.take(0).filter(visible()) == Seq::<char>::empty()) by {
        reveal(Seq::filter);
    }
    for cur_c in it: line.chars()
        invariant
            it.seq() == text,
            text == line@,
            it.index() > 0 ==> prev_c == text[it.index() - 1],
            it.index() == 0 ==> prev_c == '\0',
            progress(
                text,
                it.index(),
                context,
                buffer@,
                http_verb,
                endpoint_path@,
                paren,
                quote,
                end,
            ),
    {
        let ghost i = it.index();
        let is_escape = prev_c == '\\';
        assert(is_escape == escaped(text, i));
        match context {
            Contexts::AnnotationName => {
                if cur_c == '(' {
                    proof {
                        lemma_index_of(text, '(', 0, i);
                    }
                    match HttpVerbs::from_annotation(buffer.as_str()) {
                        Some(verb) => {
                            http_verb = verb;
                        },
                        None => {
                            return Err(LineError::UnknownAnnotation { name: buffer });
                        },
                    }
                    buffer = String::new();
                    context = Contexts::AnnotationAttributes;
                    proof {
                        paren = i;
                    }
                } else {
                    proof {
                        assert(text.take(i + 1) == text.take(i).push(cur_c));
                        text.take(i).lemma_filter_push(cur_c, visible());
                    }
                    if !char_is_whitespace(cur_c) {
                        push_char(&mut buffer, cur_c);
                    }
                }
            },
            Contexts::AnnotationAttributes => {
                if cur_c == '"' {
                    proof {
                        lemma_index_of(text, '"', paren + 1, i);
                        quote = i;
                    }
                    context = Contexts::EndpointPath;
                }
            },
            Contexts::EndpointPath => {
                if cur_c == '"' && !is_escape {
                    proof {
                        lemma_path_end(text, quote + 1, i);
                        end = i;
                    }
                    endpoint_path = buffer;
                    buffer = String::new();
                    context = Contexts::EndOfCapture;
                } else if cur_c == '\\' && !is_escape {
                } else {
                    push_char(&mut buffer, cur_c);
                }
            },
            Contexts::EndOfCapture => {},
        }
        prev_c = cur_c;
    }
    let ghost n = text.len() as int;
    match context {
        Contexts::AnnotationName => {
            proof {
                lemma_index_of(text, '(', 0, n);
                assert(text.take(n) == text);
            }
            match HttpVerbs::from_annotation(buffer.as_str()) {
                Some(verb) => Ok(
                    Some(
                        ControllerRequestFileSearchResult {
                            http_verb: verb,
                            rest_path: String::new(),
                        },
                    ),
                ),
                None => Err(LineError::UnknownAnnotation { name: buffer }),
            }
        },
        Contexts::AnnotationAttributes => {
            proof {
                lemma_index_of(text, '"', paren + 1, n);
            }
            Ok(None)
        },
        Contexts::EndpointPath => {
            proof {
                lemma_path_end(text, quote + 1, n);
            }
            Ok(None)
        },
        Contexts::EndOfCapture => Ok(
            Some(ControllerRequestFileSearchResult { http_verb, rest_path: endpoint_path }),
        ),
    }
}

/// Parses `line` once the line filter has answered `coarse`.
pub fn parse_candidate(line: &str, coarse: bool) -> (outcome: Result<
    Option<ControllerRequestFileSearchResult>,
    LineError,
>)
    ensures
        outcome_view(outcome) == line_outcome(line@, coarse),
{
    if coarse && begins_with_marker(line) {
        parse_annotation(line)
    } else {
        Ok(None)
    }
}

/// Parses one line of source text. A line that does not start with the
/// marker holds no endpoint. Any other line is put to the line filter, and
/// parsed where the filter matches.
pub fn parse_line(line: &str) -> (outcome: Result<
    Option<ControllerRequestFileSearchResult>,
    LineError,
>)
    ensures
        outcome_view(outcome) == declared(line@),
{
    if !begins_with_marker(line) {
        return Ok(None);
    }
    match is_match(ENDPOINT_PATTERN, line) {
        Some(coarse) => parse_candidate(line, coarse),
        None => Err(LineError::PatternRejected { pattern: copy_text(ENDPOINT_PATTERN) }),
    }
}

} // verus!

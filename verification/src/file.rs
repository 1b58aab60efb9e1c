//! The scanner of one controller file: its text is cut into lines, and each
//! line that declares an endpoint adds it to the file's report.

use vstd::prelude::*;
use vstd::std_specs::iter::IteratorSpec;
use crate::line::{declared, parse_line, LineError, LineFault};
use crate::report::{endpoint_views, ControllerFileSearchResult, Endpoint, FileEndpoints};
use crate::text::{index_of, lemma_index_of, push_char, texts};

verus! {

/// The text that `String::from_utf8_lossy` decodes from `bytes`: the
/// characters that the bytes spell in UTF-8, with the replacement character
/// U+FFFD in place of each sequence that is not valid.
pub uninterp spec fn utf8_lossy(bytes: Seq<u8>) -> Seq<char>;

/// Decodes `bytes` with `String::from_utf8_lossy`, which never fails: what
/// is not valid UTF-8 is replaced. The text depends on the bytes alone.
#[verifier::external_body]
pub(crate) fn decode_lossy(bytes: &[u8]) -> (text: String)
    ensures
        text@ == utf8_lossy(bytes@),
{
    String::from_utf8_lossy(bytes).into_owned()
}

/// The lines of `text`: the pieces between its line feeds, so one more than
/// it has line feeds. A piece may be empty.
pub open spec fn text_lines(text: Seq<char>) -> Seq<Seq<char>>
    decreases text.len(),
{
    let feed = index_of(text, '\n', 0);
    if feed < 0 || feed >= text.len() {
        seq![text]
    } else {
        seq![text.take(feed)] + text_lines(text.skip(feed + 1))
    }
}

/// The endpoints that `lines` declare, in the order of the lines. The first
/// line that cannot be parsed makes the whole fail.
pub open spec fn lines_outcome(lines: Seq<Seq<char>>) -> Result<Seq<Endpoint>, LineFault>
    decreases lines.len(),
{
    if lines.len() == 0 {
        Ok(Seq::empty())
    } else {
        match lines_outcome(lines.drop_last()) {
            Err(fault) => Err(fault),
            Ok(found) => match declared(lines.last()) {
                Err(fault) => Err(fault),
                Ok(None) => Ok(found),
                Ok(Some(endpoint)) => Ok(found.push(endpoint)),
            },
        }
    }
}

/// The report of the file called `name` whose text is `text`.
pub open spec fn file_outcome(name: Seq<char>, text: Seq<char>) -> Result<
    FileEndpoints,
    LineFault,
> {
    match lines_outcome(text_lines(text)) {
        Ok(endpoints) => Ok(FileEndpoints { name, endpoints }),
        Err(fault) => Err(fault),
    }
}

/// What scanning a file gives, as contracts speak of it.
pub open spec fn report_view(outcome: Result<ControllerFileSearchResult, LineError>) -> Result<
    FileEndpoints,
    LineFault,
> {
    match outcome {
        Ok(report) => Ok(report@),
        Err(error) => Err(error@),
    }
}

/// A failure among the first lines is the failure of the whole.
pub proof fn lemma_fault_stays(lines: Seq<Seq<char>>, n: int)
    requires
        0 <= n <= lines.len(),
        lines_outcome(lines.take(n)) is Err,
    ensures
        lines_outcome(lines) == lines_outcome(lines.take(n)),
    decreases lines.len() - n,
{
    if n < lines.len() {
        assert(lines.take(n + 1).drop_last() == lines.take(n));
        lemma_fault_stays(lines, n + 1);
    } else {
        assert(lines.take(n) == lines);
    }
}

/// No line declares more than one endpoint: a file has at most as many
/// endpoints as lines.
pub proof fn lemma_one_endpoint_a_line(lines: Seq<Seq<char>>)
    ensures
        lines_outcome(lines) matches Ok(found) ==> found.len() <= lines.len(),
    decreases lines.len(),
{
    if lines.len() > 0 {
        lemma_one_endpoint_a_line(lines.drop_last());
    }
}

/// Cuts `text` into its lines.
pub fn split_lines(text: &str) -> (lines: Vec<String>)
    ensures
        texts(lines@) == text_lines(text@),
{
    let mut lines: Vec<String> = Vec::new();
    let mut current = String::new();
    let ghost whole = text@;
    let ghost mut start: int = 0;
    assert(whole.skip(0) == whole);
    assert(texts(lines@) + text_lines(whole) == text_lines(whole));
    for c in it: text.chars()
        invariant
            it.seq() == whole,
            whole == text@,
            0 <= start <= it.index(),
            current@ == whole.subrange(start, it.index()),
            forall|j: int| start <= j < it.index() ==> whole[j] != '\n',
            texts(lines@) + text_lines(whole.skip(start)) == text_lines(whole),
    {
        let ghost i = it.index();
        if c == '\n' {
            proof {
                let rest = whole.skip(start);
                lemma_index_of(rest, '\n', 0, i - start);
                assert(rest.take(i - start) == current@);
                assert(rest.skip(i - start + 1) == whole.skip(i + 1));
                assert(texts(lines@.push(current)) == texts(lines@).push(current@));
                assert(texts(lines@).push(current@) + text_lines(whole.skip(i + 1)) == texts(lines@)
                    + (seq![current@] + text_lines(whole.skip(i + 1))));
                start = i + 1;
            }
            lines.push(current);
            current = String::new();
            assert(current@ == whole.subrange(i + 1, i + 1));
        } else {
            assert(whole.subrange(start, i + 1) == whole.subrange(start, i).push(c));
            push_char(&mut current, c);
        }
    }
    proof {
        let rest = whole.skip(start);
        lemma_index_of(rest, '\n', 0, rest.len() as int);
        assert(rest == current@);
        assert(texts(lines@.push(current)) == texts(lines@).push(current@));
        assert(texts(lines@).push(current@) == texts(lines@) + seq![current@]);
    }
    lines.push(current);
    lines
}

/// Scans the text of the file called `file_name`. Each line is parsed in
/// turn; the first one that fails ends the scan with its error.
pub fn scan_text(file_name: String, text: &str) -> (outcome: Result<
    ControllerFileSearchResult,
    LineError,
>)
    ensures
        report_view(outcome) == file_outcome(file_name@, text@),
{
    let lines = split_lines(text);
    let mut result = ControllerFileSearchResult::new(file_name);
    let ghost all = text_lines(text@);
    assert(all.take(0) == Seq::<Seq<char>>::empty());
    for i in 0..lines.len()
        invariant
            texts(lines@) == all,
            all == text_lines(text@),
            result.file_name@ == file_name@,
            lines_outcome(all.take(i as int)) == Ok::<Seq<Endpoint>, LineFault>(result@.endpoints),
    {
        assert(lines[i as int]@ == all[i as int]);
        assert(all.take(i + 1).drop_last() == all.take(i as int));
        let ghost before = result.request_search_results@;
        match parse_line(lines[i].as_str()) {
            Ok(None) => {},
            Ok(Some(found)) => {
                result.request_search_results.push(found);
                assert(result@.endpoints == endpoint_views(before).push(found@));
            },
            Err(error) => {
                proof {
                    lemma_fault_stays(all, i + 1);
                }
                return Err(error);
            },
        }
    }
    assert(all.take(lines.len() as int) == all);
    Ok(result)
}

/// Scans the content of the file called `file_name`: the bytes are decoded
/// as UTF-8, leniently, and the text is scanned.
pub fn scan_file(file_name: String, content: &[u8]) -> (outcome: Result<
    ControllerFileSearchResult,
    LineError,
>)
    ensures
        report_view(outcome) == file_outcome(file_name@, utf8_lossy(content@)),
{
    let text = decode_lossy(content);
    scan_text(file_name, text.as_str())
}

} // verus!

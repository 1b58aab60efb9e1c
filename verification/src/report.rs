//! What a scan reports: the endpoints of each controller file, in order.

use vstd::prelude::*;
use crate::verb::HttpVerbs;

verus! {

/// An endpoint as contracts speak of it: a verb and the characters of a path.
pub struct Endpoint {
    pub verb: HttpVerbs,
    pub path: Seq<char>,
}

/// The endpoints of one file as contracts speak of them: the file's name and
/// its endpoints in the order of their lines.
pub struct FileEndpoints {
    pub name: Seq<char>,
    pub endpoints: Seq<Endpoint>,
}

/// One endpoint that a mapping annotation declares.
#[derive(Debug)]
pub struct ControllerRequestFileSearchResult {
    pub http_verb: HttpVerbs,
    pub rest_path: String,
}

impl View for ControllerRequestFileSearchResult {
    type V = Endpoint;

    open spec fn view(&self) -> Endpoint {
        Endpoint { verb: self.http_verb, path: self.rest_path@ }
    }
}

/// Each endpoint of `results` as contracts speak of it.
pub open spec fn endpoint_views(results: Seq<ControllerRequestFileSearchResult>) -> Seq<Endpoint> {
    Seq::new(results.len(), |i: int| results[i]@)
}

/// The endpoints found in one controller file.
#[derive(Debug)]
pub struct ControllerFileSearchResult {
    pub file_name: String,
    pub request_search_results: Vec<ControllerRequestFileSearchResult>,
}

impl View for ControllerFileSearchResult {
    type V = FileEndpoints;

    open spec fn view(&self) -> FileEndpoints {
        FileEndpoints {
            name: self.file_name@,
            endpoints: endpoint_views(self.request_search_results@),
        }
    }
}

impl ControllerFileSearchResult {
    /// The report of a file in which no endpoint has been found yet.
    pub fn new(file_name: String) -> (result: ControllerFileSearchResult)
        ensures
            result@ == (FileEndpoints { name: file_name@, endpoints: Seq::empty() }),
            result.file_name == file_name,
            result.request_search_results@.len() == 0,
    {
        let result = ControllerFileSearchResult {
            file_name: file_name,
            request_search_results: Vec::<ControllerRequestFileSearchResult>::new(),
        };
        assert(result@.endpoints =~= Seq::empty());
        result
    }
}

} // verus!

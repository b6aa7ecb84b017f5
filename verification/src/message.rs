//! The messages of the counting service, as they go over the wire in JSON
//! between client and balancer and in protobuf between balancer and backend.

use vstd::prelude::*;

verus! {

/// A query: how often does `word` occur in the file `file_name`?
#[derive(Debug)]
pub struct WordCountRequest {
    pub word: String,
    pub file_name: String,
}

/// The answer to a query.
#[derive(Debug)]
pub struct WordCountResponse {
    pub count: i64,
    pub status_code: i32,
    pub status_message: String,
    pub log_id: String,
}

/// A request with its texts as sequences of characters.
pub struct RequestModel {
    pub word: Seq<char>,
    pub file_name: Seq<char>,
}

/// A response with its texts as sequences of characters.
pub struct ResponseModel {
    pub count: i64,
    pub status_code: i32,
    pub status_message: Seq<char>,
    pub log_id: Seq<char>,
}

impl View for WordCountRequest {
    type V = RequestModel;

    open spec fn view(&self) -> RequestModel {
        RequestModel { word: self.word@, file_name: self.file_name@ }
    }
}

impl View for WordCountResponse {
    type V = ResponseModel;

    open spec fn view(&self) -> ResponseModel {
        ResponseModel {
            count: self.count,
            status_code: self.status_code,
            status_message: self.status_message@,
            log_id: self.log_id@,
        }
    }
}

impl WordCountRequest {
    pub fn new(word: String, file_name: String) -> (request: Self)
        ensures
            request@ == (RequestModel { word: word@, file_name: file_name@ }),
    {
        WordCountRequest { word, file_name }
    }
}

impl Clone for WordCountRequest {
    fn clone(&self) -> (copy: Self)
        ensures
            copy@ == self@,
    {
        WordCountRequest { word: self.word.clone(), file_name: self.file_name.clone() }
    }
}

impl Clone for WordCountResponse {
    fn clone(&self) -> (copy: Self)
        ensures
            copy@ == self@,
    {
        WordCountResponse {
            count: self.count,
            status_code: self.status_code,
            status_message: self.status_message.clone(),
            log_id: self.log_id.clone(),
        }
    }
}

} // verus!

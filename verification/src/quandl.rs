//! What every request to the service shares.

use vstd::prelude::*;
use vstd::string::*;
use crate::quandl_request::QuandlRequest;
use crate::requests::dataset_list_call::DatasetListCall;

verus! {

/// The state shared by all requests: the API key, which opens premium
/// databases and raises the usage limits.
#[derive(Debug)]
pub struct Quandl {
    /// The API key, if one was given.
    pub api_key: Option<String>,
}

impl Quandl {
    /// The characters of the API key, if one was given.
    pub open spec fn key(&self) -> Option<Seq<char>> {
        match self.api_key {
            Some(key) => Some(key@),
            None => None,
        }
    }

    /// A session without an API key.
    pub fn new() -> (quandl: Quandl)
        ensures
            quandl.key() is None,
    {
        Quandl { api_key: None }
    }

    /// A request for the observations of dataset `dataset_code` of database
    /// `database_code`, with no filter set.
    pub fn new_request<'a>(&'a self, database_code: &str, dataset_code: &str) -> (request:
        QuandlRequest<'a>)
        ensures
            request.quandl == self,
            request@ == QuandlRequest::unfiltered(self.key(), database_code@, dataset_code@),
    {
        QuandlRequest {
            quandl: self,
            database_code: String::from_str(database_code),
            dataset_code: String::from_str(dataset_code),
            limit: None,
            rows: None,
            column_index: None,
            start_date: None,
            end_date: None,
            order: None,
            collapse: None,
            transform: None,
        }
    }

    /// A request for the codes of all datasets of database `database_code`.
    pub fn new_dataset_list_call<'a>(&'a self, database_code: &str) -> (call: DatasetListCall<'a>)
        ensures
            call.quandl == self,
            call.database_code@ == database_code@,
    {
        DatasetListCall { database_code: String::from_str(database_code), quandl: self }
    }

    /// This session with `key` as its API key, in place of any earlier key.
    pub fn api_key(self, key: &str) -> (quandl: Quandl)
        ensures
            quandl.key() == Some(key@),
    {
        Quandl { api_key: Some(String::from_str(key)) }
    }
}

impl Default for Quandl {
    fn default() -> (quandl: Quandl)
        ensures
            quandl.key() is None,
    {
        Quandl { api_key: None }
    }
}

} // verus!

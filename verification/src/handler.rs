use vstd::prelude::*;
use crate::entry::Entry;
use crate::form::{spec_add_text, spec_delete_id, add_text, delete_id};
use crate::render::{spec_render, render};
use crate::store::{Store, StorageError};

verus! {

/// What a handler answers: the rendered page, the redirect back to the
/// list, a rejected request body, or a storage failure.
pub enum Response {
    Page(Vec<u8>),
    Redirect,
    BadRequest,
    ServerError,
}

impl Response {
    /// The one central mapping from a response to its HTTP status.
    pub fn status(&self) -> (s: u16)
        ensures
            s == (match self {
                Response::Page(_) => 200u16,
                Response::Redirect => 303u16,
                Response::BadRequest => 400u16,
                Response::ServerError => 500u16,
            }),
    {
        match self {
            Response::Page(_) => 200,
            Response::Redirect => 303,
            Response::BadRequest => 400,
            Response::ServerError => 500,
        }
    }

    /// The redirect target a response carries: a successful mutation leads
    /// back to the listing at the root path, nothing else redirects.
    pub fn location(&self) -> (loc: Option<Vec<u8>>)
        ensures
            (match self {
                Response::Redirect => loc matches Some(l) && l@ == seq![47u8],
                _ => loc is None,
            }),
    {
        match self {
            Response::Redirect => {
                let mut l: Vec<u8> = Vec::new();
                l.push(47);
                proof {
                    assert(l@ =~= seq![47u8]);
                }
                Some(l)
            },
            _ => None,
        }
    }
}

/// The listing's answer for each outcome of the store: the rendered page
/// for the entries that came back, otherwise the server error.
pub fn list_response(result: Result<Vec<Entry>, StorageError>) -> (r: Response)
    ensures
        (match result {
            Ok(entries) => r matches Response::Page(body) && body@ == spec_render(entries@),
            Err(_) => r matches Response::ServerError,
        }),
{
    match result {
        Ok(entries) => Response::Page(render(&entries)),
        Err(_) => Response::ServerError,
    }
}

/// A mutation's answer for each outcome of the store: back to the list on
/// success, otherwise the server error.
pub fn mutation_response(result: Result<(), StorageError>) -> (r: Response)
    ensures
        r matches Response::Redirect <==> result is Ok,
        r matches Response::ServerError <==> result is Err,
{
    match result {
        Ok(_) => Response::Redirect,
        Err(_) => Response::ServerError,
    }
}

/// The list endpoint: every entry of the store, rendered; a storage
/// failure answers with the server error.
pub fn handle_index(store: &Store) -> (r: Response)
    ensures
        r matches Response::Page(body) ==> (exists|entries: Seq<Entry>|
            body@ == spec_render(entries)),
        !(r matches Response::Redirect),
        !(r matches Response::BadRequest),
{
    let result = store.list_all();
    proof {
        // Witness for the postcondition: the entries the store handed back.
        if result is Ok {
            assert(spec_render(result->Ok_0@) == spec_render(result->Ok_0@));
        }
    }
    list_response(result)
}

/// The add endpoint: a body without a well-formed `text` field is rejected
/// before the store is touched; any text that the body names, the empty
/// text included, is inserted as it is.
pub fn handle_add(store: &Store, body: &[u8]) -> (r: Response)
    ensures
        r matches Response::BadRequest <==> spec_add_text(body@) is None,
        spec_add_text(body@) is Some ==> (r matches Response::Redirect || r matches Response::ServerError),
        !(r matches Response::Page(_)),
{
    match add_text(body) {
        None => Response::BadRequest,
        Some(text) => mutation_response(store.insert(&text)),
    }
}

/// The delete endpoint: a body whose `id` field is missing, malformed or
/// not a number in range is rejected before the store is touched; an
/// identifier that names no row is still a success.
pub fn handle_delete(store: &Store, body: &[u8]) -> (r: Response)
    ensures
        r matches Response::BadRequest <==> spec_delete_id(body@) is None,
        spec_delete_id(body@) is Some ==> (r matches Response::Redirect || r matches Response::ServerError),
        !(r matches Response::Page(_)),
{
    match delete_id(body) {
        None => Response::BadRequest,
        Some(id) => mutation_response(store.delete_by_id(id)),
    }
}

} // verus!

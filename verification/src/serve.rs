//! Serving the mirror: the options of the server and what it holds while it
//! runs.

use vstd::prelude::*;
use tantivy::{Index, TantivyError};
use crate::ext_searcher::{ExtSearcher, SearchError};
use crate::index::index_location;
use crate::text::join2;

pub mod extensions;

verus! {

/// Port that the server listens on unless another is named.
pub const DEFAULT_PORT: u16 = 8070;

/// Options of the server.
#[derive(Debug, Clone)]
pub struct ServeOpts {
    /// Port that the server listens on.
    pub port: u16,
}

/// Calls `Index::open_in_dir`. Trusted: an index that was opened lies in
/// the directory.
#[verifier::external_body]
fn open_index_in_dir(dir: &str) -> (r: Result<Index, TantivyError>)
    ensures
        r matches Ok(index) ==> index_location(index) == dir@,
{
    Index::open_in_dir(dir)
}

/// Where the live index of an output root is.
pub open spec fn index_dir(output: Seq<char>) -> Seq<char> {
    output + "/idx"@
}

/// What the server holds while it runs.
pub struct AppState {
    /// Answers the queries.
    pub searcher: ExtSearcher,
    /// Root of the mirrored data.
    pub output: String,
}

impl AppState {
    /// Where the live index of an output root is.
    pub fn live_index_dir(output: &str) -> (r: String)
        ensures
            r@ == index_dir(output@),
    {
        join2(output, "/idx")
    }

    /// Opens the live index below `output` for searching. Whether it can
    /// be opened and read is for the outside crate to say.
    pub fn init(output: &str) -> (r: Result<AppState, SearchError>)
        ensures
            r matches Ok(state) ==> state.output@ == output@ && index_location(
                state.searcher.source(),
            ) == index_dir(output@),
            r matches Err(e) ==> e is Open || e is Reader,
    {
        let dir = AppState::live_index_dir(output);
        let index = match open_index_in_dir(dir.as_str()) {
            Ok(index) => index,
            Err(e) => { return Err(SearchError::Open(e)); },
        };
        let searcher = ExtSearcher::init(index)?;
        Ok(AppState { searcher, output: String::from_str(output) })
    }
}

} // verus!

//! The requests that the server answers about packages, and what it decides
//! when it answers them.

use vstd::prelude::*;
use crate::mirror::{archive_path, latest_archive_path};
use crate::package_meta::ExtensionMetadata;
use crate::text::join2;

verus! {

/// Status of an answer that carries what was asked for.
pub const STATUS_OK: u16 = 200;

/// Status of an answer to a request for an archive that is not there.
pub const STATUS_NOT_FOUND: u16 = 404;

/// Status of an answer to a query that failed.
pub const STATUS_INTERNAL_SERVER_ERROR: u16 = 500;

/// Content type of an archive.
pub const ARCHIVE_CONTENT_TYPE: &'static str = "application/octet-stream";

/// Content disposition of an archive.
pub const ARCHIVE_CONTENT_DISPOSITION: &'static str = "attachment; filename=archive.tar.gz";

/// What a request asks for.
#[derive(Debug, Clone, Copy, PartialEq, Eq, Structural)]
pub enum Endpoint {
    /// The list of packages.
    List,
    /// The updates of some packages.
    Updates,
    /// The versions of one package.
    Versions,
    /// The archive last handled for a package.
    DownloadLatest,
    /// The archive of one version of a package.
    Download,
}

/// One path that the server answers `GET` requests on. A segment that
/// starts with `:` stands for any one segment and gives it a name.
#[derive(Debug, Clone, Copy, PartialEq, Eq)]
pub struct Route {
    pub path: &'static str,
    pub endpoint: Endpoint,
}

/// The paths of the server, each with what it is for.
pub fn get_routes() -> (r: Vec<Route>)
    ensures
        r@.len() == 5,
        r@[0].path@ == "/extensions"@ && r@[0].endpoint == Endpoint::List,
        r@[1].path@ == "/extensions/updates"@ && r@[1].endpoint == Endpoint::Updates,
        r@[2].path@ == "/extensions/:extension_id"@ && r@[2].endpoint == Endpoint::Versions,
        r@[3].path@ == "/extensions/:extension_id/download"@ && r@[3].endpoint
            == Endpoint::DownloadLatest,
        r@[4].path@ == "/extensions/:extension_id/:version/download"@ && r@[4].endpoint
            == Endpoint::Download,
{
    let mut r: Vec<Route> = Vec::new();
    r.push(Route { path: "/extensions", endpoint: Endpoint::List });
    r.push(Route { path: "/extensions/updates", endpoint: Endpoint::Updates });
    r.push(Route { path: "/extensions/:extension_id", endpoint: Endpoint::Versions });
    r.push(
        Route { path: "/extensions/:extension_id/download", endpoint: Endpoint::DownloadLatest },
    );
    r.push(
        Route { path: "/extensions/:extension_id/:version/download", endpoint: Endpoint::Download },
    );
    r
}

/// The body of an answer to a query.
#[derive(Debug)]
pub struct GetExtensionsResult {
    pub data: Vec<ExtensionMetadata>,
}

/// Parameters of a request for the list of packages.
#[derive(Debug)]
pub struct GetExtensionsParams {
    /// A word of the name, or the id.
    pub filter: Option<String>,
    /// Capabilities, separated by commas, of which a package must have
    /// one.
    pub provides: Option<String>,
    /// Newest schema version that the client can use.
    pub max_schema_version: i32,
}

/// Parameters of a request for the updates of some packages.
#[derive(Debug)]
pub struct GetExtensionUpdatesParams {
    /// Ids of the packages, separated by commas.
    pub ids: String,
    /// Oldest schema version that the client can use.
    pub min_schema_version: i32,
    /// Newest schema version that the client can use.
    pub max_schema_version: i32,
}

/// Parameters of a request for the versions of one package.
#[derive(Debug)]
pub struct GetExtensionVersionsParams {
    pub extension_id: String,
}

/// The status of the answer to a query: the result with `200`, a failure
/// with `500`.
pub fn query_status(succeeded: bool) -> (r: u16)
    ensures
        r == if succeeded {
            STATUS_OK
        } else {
            STATUS_INTERNAL_SERVER_ERROR
        },
{
    if succeeded {
        STATUS_OK
    } else {
        STATUS_INTERNAL_SERVER_ERROR
    }
}

/// The status of the answer to a request for an archive: the archive with
/// `200` where its file could be opened, else `404`, never a server error.
pub fn download_status(file_opened: bool) -> (r: u16)
    ensures
        r == if file_opened {
            STATUS_OK
        } else {
            STATUS_NOT_FOUND
        },
        r != STATUS_INTERNAL_SERVER_ERROR,
{
    if file_opened {
        STATUS_OK
    } else {
        STATUS_NOT_FOUND
    }
}

/// The file that holds the archive last handled for a package.
pub fn download_latest_extension(output: &str, extension_id: &str) -> (r: String)
    ensures
        r@ == latest_archive_path(output@, extension_id@),
{
    let mut r = join2(output, "/extensions/");
    r.append(extension_id);
    r.append("/archive");
    r
}

/// The file that holds the archive of one version of a package.
pub fn download_extension(output: &str, extension_id: &str, version: &str) -> (r: String)
    ensures
        r@ == archive_path(output@, extension_id@, version@),
{
    let mut r = join2(output, "/extensions/");
    r.append(extension_id);
    r.append("/");
    r.append(version);
    r.append("/archive");
    r
}

} // verus!

use extension_mirror::config::{Config, Op};
use extension_mirror::mirror::MirrorOpts;
use extension_mirror::serve::extensions::{
    download_extension, download_latest_extension, download_status, get_routes, query_status,
    Endpoint, GetExtensionsResult, Route, ARCHIVE_CONTENT_DISPOSITION, ARCHIVE_CONTENT_TYPE,
    STATUS_INTERNAL_SERVER_ERROR, STATUS_NOT_FOUND, STATUS_OK,
};
use extension_mirror::serve::{AppState, ServeOpts, DEFAULT_PORT};

#[test]
fn missing_archive_is_not_found_and_no_server_error() {
    assert_eq!(download_status(false), 404);
    assert_eq!(download_status(false), STATUS_NOT_FOUND);
    assert_ne!(download_status(false), STATUS_INTERNAL_SERVER_ERROR);
    assert_eq!(download_status(true), 200);
}

#[test]
fn failed_query_is_a_server_error() {
    assert_eq!(query_status(true), STATUS_OK);
    assert_eq!(query_status(false), 500);
}

#[test]
fn latest_archive_is_the_link_of_the_package() {
    assert_eq!(download_latest_extension("out", "rose-pine"), "out/extensions/rose-pine/archive");
}

#[test]
fn archive_of_a_version_is_below_the_package() {
    assert_eq!(
        download_extension("out", "rose-pine", "1.2.0"),
        "out/extensions/rose-pine/1.2.0/archive"
    );
}

#[test]
fn served_archive_paths_are_the_mirrored_ones() {
    let dl = extension_mirror::mirror::archive_task("u", "/srv", "a", "3");
    assert_eq!(download_extension("/srv", "a", "3"), dl.primary_target_path);
    assert_eq!(Some(download_latest_extension("/srv", "a")), dl.symlink_path);
}

#[test]
fn archives_are_sent_as_attachments() {
    assert_eq!(ARCHIVE_CONTENT_TYPE, "application/octet-stream");
    assert_eq!(ARCHIVE_CONTENT_DISPOSITION, "attachment; filename=archive.tar.gz");
}

#[test]
fn server_listens_on_8070_by_default() {
    assert_eq!(DEFAULT_PORT, 8070);
}

#[test]
fn configuration_names_the_operation() {
    let config = Config { output: "out".to_string(), cmd: Op::Serve(ServeOpts { port: 9000 }) };
    assert!(matches!(config.cmd, Op::Serve(ServeOpts { port: 9000 })));
    let config = Config {
        output: "out".to_string(),
        cmd: Op::Mirror(MirrorOpts { api_url: "u".to_string(), dl_threads: 2 }),
    };
    match config.cmd {
        Op::Mirror(opts) => {
            assert_eq!(opts.api_url, "u");
            assert_eq!(opts.dl_threads, 2);
        }
        Op::Serve(_) => panic!("wrong operation"),
    }
}

#[test]
fn query_result_holds_the_found_metadata() {
    let result = GetExtensionsResult { data: vec![] };
    assert!(result.data.is_empty());
}

#[test]
fn routes_cover_the_five_requests() {
    assert_eq!(
        get_routes(),
        vec![
            Route { path: "/extensions", endpoint: Endpoint::List },
            Route { path: "/extensions/updates", endpoint: Endpoint::Updates },
            Route { path: "/extensions/:extension_id", endpoint: Endpoint::Versions },
            Route { path: "/extensions/:extension_id/download", endpoint: Endpoint::DownloadLatest },
            Route {
                path: "/extensions/:extension_id/:version/download",
                endpoint: Endpoint::Download
            },
        ]
    );
}

#[test]
fn live_index_is_below_the_output_root() {
    assert_eq!(AppState::live_index_dir("out"), "out/idx");
}

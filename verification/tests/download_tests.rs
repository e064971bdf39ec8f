use ghactions::downloads::{AssetDescriptor, DownloadAction, HttpResponse};
use ghactions::{ToolCache, ToolCacheArch, ToolCacheError, ToolPlatform};

fn store(retry: u8) -> ToolCache {
    let mut cache = ToolCache::new(
        String::from("cache"),
        ToolCacheArch::X64,
        ToolPlatform::Linux,
    );
    cache.set_retry_count(retry);
    cache
}

#[test]
fn download_step_accepts_non_server_errors() {
    assert_eq!(ToolCache::download_step(200, 5), DownloadAction::Accept);
    assert_eq!(ToolCache::download_step(404, 5), DownloadAction::Accept);
    assert_eq!(ToolCache::download_step(499, 0), DownloadAction::Accept);
    assert_eq!(ToolCache::download_step(600, 0), DownloadAction::Accept);
}

#[test]
fn download_step_retries_server_errors_with_budget() {
    assert_eq!(ToolCache::download_step(500, 1), DownloadAction::Retry);
    assert_eq!(ToolCache::download_step(599, 9), DownloadAction::Retry);
}

#[test]
fn download_step_gives_up_without_budget() {
    assert_eq!(ToolCache::download_step(500, 0), DownloadAction::GiveUp);
    assert_eq!(ToolCache::download_step(503, 0), DownloadAction::GiveUp);
}

#[test]
fn download_retries_past_server_errors() {
    let cache = store(10);
    let responses = vec![
        HttpResponse::new(500, vec![1, 2, 3]),
        HttpResponse::new(502, vec![4, 5]),
        HttpResponse::new(503, vec![6]),
        HttpResponse::new(200, vec![7, 8, 9, 10]),
    ];
    let body = cache
        .run_download(&responses, "https://example.test/asset")
        .unwrap();
    assert_eq!(body, vec![7, 8, 9, 10]);
}

#[test]
fn download_takes_first_acceptable_body_only() {
    let cache = store(3);
    let responses = vec![
        HttpResponse::new(500, vec![9, 9]),
        HttpResponse::new(404, vec![1]),
        HttpResponse::new(200, vec![2]),
    ];
    let body = cache
        .run_download(&responses, "https://example.test/asset")
        .unwrap();
    assert_eq!(body, vec![1]);
}

#[test]
fn download_exhausts_budget_with_url() {
    let cache = store(3);
    let responses = vec![
        HttpResponse::new(500, vec![]),
        HttpResponse::new(501, vec![]),
        HttpResponse::new(502, vec![]),
        HttpResponse::new(200, vec![1]),
    ];
    let err = cache
        .run_download(&responses, "https://example.test/asset")
        .unwrap_err();
    match err {
        ToolCacheError::DownloadError(url) => {
            assert_eq!(url, "https://example.test/asset");
        }
        other => panic!("unexpected error: {:?}", other),
    }
}

#[test]
fn download_fails_when_transport_stops_answering() {
    let cache = store(5);
    let responses = vec![HttpResponse::new(500, vec![]), HttpResponse::new(500, vec![])];
    let err = cache
        .run_download(&responses, "https://example.test/asset")
        .unwrap_err();
    assert!(matches!(err, ToolCacheError::HttpError(_)));
}

#[test]
fn asset_descriptor_carries_url_and_content_type() {
    let asset = AssetDescriptor::new(
        String::from("https://example.test/tool.tar.gz"),
        String::from("application/gzip"),
    );
    assert_eq!(asset.url, "https://example.test/tool.tar.gz");
    assert_eq!(asset.content_type, "application/gzip");
}

#[test]
fn download_with_zero_budget_never_succeeds() {
    let cache = store(0);
    let responses = vec![HttpResponse::new(200, vec![1])];
    let err = cache
        .run_download(&responses, "https://example.test/asset")
        .unwrap_err();
    assert!(matches!(err, ToolCacheError::DownloadError(_)));
}

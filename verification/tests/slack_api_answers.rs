use opencrust::slack_api::{download_size_check, SlackApiResponse, SLACK_MAX_FILE_BYTES};

fn answer(ok: bool, error: Option<&str>, url: Option<&str>, ts: Option<&str>) -> SlackApiResponse {
    SlackApiResponse {
        ok,
        error: error.map(|s| s.to_string()),
        url: url.map(|s| s.to_string()),
        ts: ts.map(|s| s.to_string()),
    }
}

#[test]
fn connection_url_is_returned() {
    assert_eq!(answer(true, None, Some("wss://x"), None).connection_url(), Ok("wss://x".to_string()));
    assert_eq!(
        answer(true, None, None, None).connection_url(),
        Err("apps.connections.open: no url in response".to_string())
    );
    assert_eq!(
        answer(false, Some("invalid_auth"), None, None).connection_url(),
        Err("apps.connections.open error: invalid_auth".to_string())
    );
}

#[test]
fn posted_ts_is_returned() {
    assert_eq!(answer(true, None, None, Some("123.45")).posted_ts(), Ok("123.45".to_string()));
    assert_eq!(
        answer(false, None, None, Some("1")).posted_ts(),
        Err("chat.postMessage error: unknown".to_string())
    );
    assert_eq!(answer(true, None, None, None).posted_ts(), Err("chat.postMessage: no ts in response".to_string()));
}

#[test]
fn downloads_over_ten_mebibytes_are_refused() {
    assert_eq!(SLACK_MAX_FILE_BYTES, 10 * 1024 * 1024);
    assert!(download_size_check(SLACK_MAX_FILE_BYTES).is_ok());
    assert_eq!(
        download_size_check(SLACK_MAX_FILE_BYTES + 1),
        Err("file too large: 10485761 bytes exceeds 10485760 byte limit".to_string())
    );
}

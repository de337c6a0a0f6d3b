use uggo_core::client::{
    auth_header_value, classify_status, current_rune_page_path, rune_page_path, rune_pages_path,
    summoner_path, LeagueClient, LeagueClientError,
};
use uggo_core::lcc::LeagueClientConnector;

#[test]
fn session_base_url_and_auth_header() {
    let lf = LeagueClientConnector::parse_lockfile_contents("LeagueClientUx:1234:54321:abc123:https")
        .expect("well-formed lockfile must parse");
    assert_eq!(auth_header_value(&lf), "Basic cmlvdDphYmMxMjM=");
    let session = LeagueClient::new(lf).expect("session must build from valid credentials");
    assert_eq!(session.base_url, "https://127.0.0.1:54321");
    assert_eq!(
        session.request_url("/lol-perks/v1/pages"),
        "https://127.0.0.1:54321/lol-perks/v1/pages"
    );
}

#[test]
fn status_classification_succeeds_exactly_on_2xx() {
    assert_eq!(classify_status(200), Ok(()));
    assert_eq!(classify_status(204), Ok(()));
    assert_eq!(classify_status(299), Ok(()));
    assert_eq!(classify_status(199), Err(LeagueClientError::ApiError(199)));
    assert_eq!(classify_status(300), Err(LeagueClientError::ApiError(300)));
    assert_eq!(classify_status(500), Err(LeagueClientError::ApiError(500)));
}

#[test]
fn delete_of_missing_page_surfaces_status_404() {
    assert_eq!(classify_status(404), Err(LeagueClientError::ApiError(404)));
}

#[test]
fn endpoint_paths() {
    assert_eq!(summoner_path(), "/lol-summoner/v1/current-summoner");
    assert_eq!(rune_pages_path(), "/lol-perks/v1/pages");
    assert_eq!(current_rune_page_path(), "/lol-perks/v1/currentpage");
    assert_eq!(rune_page_path(42), "/lol-perks/v1/pages/42");
    assert_eq!(rune_page_path(0), "/lol-perks/v1/pages/0");
    assert_eq!(rune_page_path(-7), "/lol-perks/v1/pages/-7");
    assert_eq!(
        rune_page_path(i64::MIN),
        "/lol-perks/v1/pages/-9223372036854775808"
    );
}

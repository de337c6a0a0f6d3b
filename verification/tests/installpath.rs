use uggo_core::installdir::extract_install_dir_exec;
use uggo_core::lcc::{client_ui_name, find_ui_process, ProcessRecord};

fn record(name: &str) -> ProcessRecord {
    ProcessRecord { name: name.to_string(), pid: 1, cmd: vec![] }
}

#[test]
fn bare_value_resolves_unchanged() {
    let r = extract_install_dir_exec("--install-directory=/a/b/c");
    assert_eq!(r.as_deref(), Some("/a/b/c"));
}

#[test]
fn quoted_value_resolves_without_quotes() {
    let r = extract_install_dir_exec("--install-directory=\"/a/b/c with spaces\"");
    assert_eq!(r.as_deref(), Some("/a/b/c with spaces"));
}

#[test]
fn flag_is_found_inside_a_full_command_line() {
    let r = extract_install_dir_exec(
        "LeagueClientUx.exe --no-rads --install-directory=/opt/league --locale=en_US",
    );
    assert_eq!(r.as_deref(), Some("/opt/league"));
}

#[test]
fn quoted_flag_inside_a_command_line_keeps_spaces() {
    let r = extract_install_dir_exec(
        "C:/Riot/LeagueClientUx.exe --install-directory=\"C:/Riot Games/League\" --headless",
    );
    assert_eq!(r.as_deref(), Some("C:/Riot Games/League"));
}

#[test]
fn missing_flag_yields_nothing() {
    assert_eq!(extract_install_dir_exec("LeagueClientUx.exe --headless"), None);
    assert_eq!(extract_install_dir_exec(""), None);
}

#[test]
fn empty_value_yields_nothing() {
    assert_eq!(extract_install_dir_exec("--install-directory= /x"), None);
    assert_eq!(extract_install_dir_exec("--install-directory="), None);
}

#[test]
fn unterminated_quote_falls_back_to_the_simple_pattern() {
    let r = extract_install_dir_exec("--install-directory=\"abc");
    assert_eq!(r.as_deref(), Some("abc"));
}

#[test]
fn known_client_names_match_case_insensitively() {
    assert!(client_ui_name("LeagueClientUx.exe"));
    assert!(client_ui_name("LEAGUECLIENTUX.EXE"));
    assert!(client_ui_name("LeagueClientUx"));
    assert!(client_ui_name("leagueclientux"));
    assert!(!client_ui_name("LeagueClient.exe"));
    assert!(!client_ui_name("leagueclientux.ex"));
}

#[test]
fn no_matching_process_yields_no_discovery() {
    let records = vec![record("systemd"), record("bash"), record("LeagueClient.exe")];
    assert_eq!(find_ui_process(&records), None);
    assert_eq!(find_ui_process(&vec![]), None);
}

#[test]
fn first_matching_process_is_found() {
    let records = vec![record("bash"), record("LeagueClientUx.exe"), record("leagueclientux")];
    assert_eq!(find_ui_process(&records), Some(1));
}

#[test]
fn discovery_without_a_running_client_fails_cleanly() {
    // No game client runs here, so the full scan ends in the discovery error.
    let r = uggo_core::lcc::LeagueClientConnector::get_path();
    assert_eq!(r, Err(uggo_core::lcc::LeagueConnectorError::NoInstallationPath));
}

use base64::Engine;
use base64::prelude::BASE64_STANDARD;
use uggo_core::lcc::{LeagueClientConnector, LeagueConnectorError};

#[test]
fn parses_well_formed_lockfile() {
    let lf = LeagueClientConnector::parse_lockfile_contents("LeagueClientUx:1234:54321:abc123:https")
        .expect("well-formed lockfile must parse");
    assert_eq!(lf.process, "LeagueClientUx");
    assert_eq!(lf.pid, 1234);
    assert_eq!(lf.port, 54321);
    assert_eq!(lf.password, "abc123");
    assert_eq!(lf.protocol, "https");
    assert_eq!(lf.username, "riot");
    assert_eq!(lf.address, "127.0.0.1");
}

#[test]
fn token_is_base64_of_riot_and_password() {
    let lf = LeagueClientConnector::parse_lockfile_contents("LeagueClientUx:1234:54321:abc123:https")
        .expect("well-formed lockfile must parse");
    assert_eq!(lf.b64_auth, "cmlvdDphYmMxMjM=");
    assert_eq!(lf.b64_auth, BASE64_STANDARD.encode("riot:abc123".as_bytes()));
}

#[test]
fn parsing_is_deterministic() {
    let a = LeagueClientConnector::parse_lockfile_contents("P:1:2:pw:https").unwrap();
    let b = LeagueClientConnector::parse_lockfile_contents("P:1:2:pw:https").unwrap();
    assert_eq!(a, b);
}

#[test]
fn fewer_than_five_fields_is_invalid_format() {
    for contents in ["", "LeagueClientUx", "a:b", "a:1:2", "a:1:2:pw"] {
        let r = LeagueClientConnector::parse_lockfile_contents(contents);
        assert_eq!(r, Err(LeagueConnectorError::InvalidLockfileFormat), "input: {contents:?}");
    }
}

#[test]
fn extra_fields_are_ignored() {
    let lf = LeagueClientConnector::parse_lockfile_contents("n:1:2:p:https:extra:more")
        .expect("extra fields are tolerated");
    assert_eq!(lf.protocol, "https");
    assert_eq!(lf.password, "p");
}

#[test]
fn non_numeric_pid_names_the_pid_field() {
    let r = LeagueClientConnector::parse_lockfile_contents("name:abc:123:pw:https");
    assert_eq!(r, Err(LeagueConnectorError::NumberParse { name: "pid" }));
}

#[test]
fn non_numeric_port_names_the_port_field() {
    let r = LeagueClientConnector::parse_lockfile_contents("name:123:x1:pw:https");
    assert_eq!(r, Err(LeagueConnectorError::NumberParse { name: "port" }));
}

#[test]
fn overflowing_pid_is_a_number_error() {
    let r = LeagueClientConnector::parse_lockfile_contents("name:99999999999:1:pw:https");
    assert_eq!(r, Err(LeagueConnectorError::NumberParse { name: "pid" }));
}

#[test]
fn pid_at_u32_max_parses_and_one_above_fails() {
    let lf = LeagueClientConnector::parse_lockfile_contents("n:4294967295:1:p:https").unwrap();
    assert_eq!(lf.pid, 4294967295);
    let r = LeagueClientConnector::parse_lockfile_contents("n:4294967296:1:p:https");
    assert_eq!(r, Err(LeagueConnectorError::NumberParse { name: "pid" }));
}

#[test]
fn leading_plus_is_accepted_in_numeric_fields() {
    let lf = LeagueClientConnector::parse_lockfile_contents("n:+123:+443:p:https").unwrap();
    assert_eq!(lf.pid, 123);
    assert_eq!(lf.port, 443);
    let r = LeagueClientConnector::parse_lockfile_contents("n:+:1:p:https");
    assert_eq!(r, Err(LeagueConnectorError::NumberParse { name: "pid" }));
}

#[test]
fn empty_password_encodes_riot_and_colon_only() {
    let lf = LeagueClientConnector::parse_lockfile_contents("n:1:2::https").unwrap();
    assert_eq!(lf.password, "");
    assert_eq!(lf.b64_auth, BASE64_STANDARD.encode("riot:".as_bytes()));
}

use uggo_core::context::State;
use uggo_core::strutil::{i64_to_string, join_args, split_colon_exec, u64_to_string};
use uggo_core::ugg::UggApi;

#[test]
fn fresh_api_uses_default_version() {
    let api = UggApi::new();
    assert_eq!(api.api_version, "15.1.1");
}

#[test]
fn applying_fetched_versions_adopts_the_first() {
    let mut api = UggApi::new();
    let adopted = api.apply_versions(&vec!["15.2.1".to_string(), "15.1.1".to_string()]);
    assert_eq!(adopted, "15.2.1");
    assert_eq!(api.api_version, "15.2.1");
}

#[test]
fn applying_an_empty_version_list_keeps_the_current_version() {
    let mut api = UggApi::new();
    let kept = api.apply_versions(&vec![]);
    assert_eq!(kept, "15.1.1");
    assert_eq!(api.api_version, "15.1.1");
}

#[test]
fn overview_url_without_region_or_role() {
    let api = UggApi::new();
    let url = api.overview_url("ranked_solo_5x5", "Jinx", None, None);
    assert_eq!(
        url,
        "https://stats2.u.gg/lol/1.5/overview/15.1.1/ranked_solo_5x5/Jinx/1.5.0.json?"
    );
}

#[test]
fn overview_url_with_region_and_role() {
    let api = UggApi::new();
    let url = api.overview_url("normal_aram", "Lux", Some(12), Some(4));
    assert_eq!(
        url,
        "https://stats2.u.gg/lol/1.5/overview/15.1.1/normal_aram/Lux/1.5.0.json?&regionId=12&roleId=4"
    );
}

#[test]
fn matchups_url_matches_the_overview_shape() {
    let mut api = UggApi::new();
    api.apply_versions(&vec!["14.9.1".to_string()]);
    let url = api.matchups_url("ranked_solo_5x5", "Ahri", Some(1), None);
    assert_eq!(
        url,
        "https://stats2.u.gg/lol/1.5/matchups/14.9.1/ranked_solo_5x5/Ahri/1.5.0.json?&regionId=1"
    );
}

#[test]
fn decimal_rendering() {
    assert_eq!(u64_to_string(0), "0");
    assert_eq!(u64_to_string(10), "10");
    assert_eq!(u64_to_string(54321), "54321");
    assert_eq!(u64_to_string(u64::MAX), "18446744073709551615");
    assert_eq!(i64_to_string(-1), "-1");
    assert_eq!(i64_to_string(i64::MIN), "-9223372036854775808");
}

#[test]
fn splitting_and_joining() {
    assert_eq!(split_colon_exec("a:b::c"), vec!["a", "b", "", "c"]);
    assert_eq!(split_colon_exec(""), vec![""]);
    assert_eq!(split_colon_exec("plain"), vec!["plain"]);
    let args = vec!["LeagueClientUx.exe".to_string(), "--install-directory=/x".to_string()];
    assert_eq!(join_args(&args), "LeagueClientUx.exe --install-directory=/x");
    assert_eq!(join_args(&vec![]), "");
}

#[test]
fn interaction_starts_in_champion_selection() {
    assert_eq!(State::initial(), State::ChampSelect);
}

#[test]
fn champion_pairs_sort_by_name_and_keep_all_pairs() {
    let list = vec![
        ("Zyra".to_string(), "143".to_string()),
        ("Ahri".to_string(), "103".to_string()),
        ("Lux".to_string(), "99".to_string()),
        ("Ahri".to_string(), "103".to_string()),
    ];
    let sorted = uggo_core::context::sort_champ_pairs(list);
    let names: Vec<&str> = sorted.iter().map(|p| p.0.as_str()).collect();
    assert_eq!(names, vec!["Ahri", "Ahri", "Lux", "Zyra"]);
    assert_eq!(sorted[3].1, "143");
}

#[test]
fn champion_lookup_by_key() {
    let pairs = vec![
        ("103".to_string(), "Ahri".to_string()),
        ("99".to_string(), "Lux".to_string()),
    ];
    assert_eq!(uggo_core::context::champ_name_by_key(&pairs, "99"), Some("Lux".to_string()));
    assert_eq!(uggo_core::context::champ_name_by_key(&pairs, "103"), Some("Ahri".to_string()));
    assert_eq!(uggo_core::context::champ_name_by_key(&pairs, "7"), None);
}

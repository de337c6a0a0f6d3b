//! The read-only statistics service: version selection and the URLs of its
//! champion overview and matchup documents.
//!
//! The service is an external collaborator reached over plain stateless REST
//! calls; the calls themselves live outside the library. What is defined and
//! verified here is the state the caller keeps (the data version in use) and
//! the exact URL each document is fetched from, including the optional
//! region and role query parameters.

use vstd::prelude::*;

use crate::strutil::{dec_str, u64_to_string};

verus! {

/// Client state for the statistics service: the transport client and the
/// data version interpolated into every document URL.
pub struct UggApi {
    pub client: reqwest::Client,
    pub api_version: String,
}

/// Relies on reqwest's `ClientBuilder`: a plain client with the given
/// `User-Agent`; when building fails, the default client takes its place.
/// This client keeps full certificate validation: the relaxed trust of the
/// local-service session never applies to it.
#[verifier::external_body]
fn build_ugg_client(user_agent: &str) -> (r: reqwest::Client)
{
    reqwest::Client::builder().user_agent(user_agent).build().unwrap_or_default()
}

/// The region query fragment: empty for the worldwide aggregate, else the
/// region's numeric id.
pub open spec fn region_query(region_id: Option<u32>) -> Seq<char> {
    match region_id {
        Some(id) => "&regionId="@ + dec_str(id as nat),
        None => Seq::<char>::empty(),
    }
}

/// The role query fragment: empty when the role is chosen automatically,
/// else the role's numeric id.
pub open spec fn role_query(role_id: Option<u32>) -> Seq<char> {
    match role_id {
        Some(id) => "&roleId="@ + dec_str(id as nat),
        None => Seq::<char>::empty(),
    }
}

/// The URL of one statistics document of the given kind (`overview` or
/// `matchups`) for a champion, under the given data version, game mode, and
/// optional region and role.
pub open spec fn stats_url(
    kind: Seq<char>,
    version: Seq<char>,
    mode: Seq<char>,
    champ: Seq<char>,
    region_id: Option<u32>,
    role_id: Option<u32>,
) -> Seq<char> {
    "https://stats2.u.gg/lol/1.5/"@ + kind + "/"@ + version + "/"@ + mode + "/"@ + champ
        + "/1.5.0.json?"@ + region_query(region_id) + role_query(role_id)
}

fn append_queries(url: &mut String, region_id: Option<u32>, role_id: Option<u32>)
    ensures
        final(url)@ == old(url)@ + region_query(region_id) + role_query(role_id),
{
    match region_id {
        Some(id) => {
            url.append("&regionId=");
            url.append(u64_to_string(id as u64).as_str());
        },
        None => {
        },
    }
    match role_id {
        Some(id) => {
            url.append("&roleId=");
            url.append(u64_to_string(id as u64).as_str());
        },
        None => {
        },
    }
    proof {
        assert(final(url)@ =~= old(url)@ + region_query(region_id) + role_query(role_id));
    }
}

impl UggApi {
    /// A fresh client, starting from the built-in default data version until
    /// a fetched version list replaces it.
    pub fn new() -> (r: UggApi)
        ensures
            r.api_version@ == "15.1.1"@,
    {
        UggApi {
            client: build_ugg_client(
                "Mozilla/5.0 (Windows NT 10.0; Win64; x64) AppleWebKit/537.36 (KHTML, like Gecko) Chrome/122.0.0.0 Safari/537.36",
            ),
            api_version: String::from_str("15.1.1"),
        }
    }

    /// Adopts the first of a fetched list of versions, newest first, keeping
    /// the current version when the list is empty, and returns the version
    /// now in use.
    pub fn apply_versions(&mut self, versions: &Vec<String>) -> (r: String)
        ensures
            versions@.len() > 0 ==> final(self).api_version@ == versions@[0]@,
            versions@.len() == 0 ==> final(self).api_version@ == old(self).api_version@,
            r@ == final(self).api_version@,
    {
        if versions.len() > 0 {
            self.api_version = versions[0].clone();
        }
        self.api_version.clone()
    }

    /// The URL of a champion's overview document.
    pub fn overview_url(
        &self,
        mode_api: &str,
        champ: &str,
        region_id: Option<u32>,
        role_id: Option<u32>,
    ) -> (r: String)
        ensures
            r@ == stats_url("overview"@, self.api_version@, mode_api@, champ@, region_id, role_id),
    {
        let mut url = self.stats_document_url("overview", mode_api, champ);
        append_queries(&mut url, region_id, role_id);
        proof {
            assert(url@ =~= stats_url(
                "overview"@,
                self.api_version@,
                mode_api@,
                champ@,
                region_id,
                role_id,
            ));
        }
        url
    }

    /// The URL of a champion's matchup document.
    pub fn matchups_url(
        &self,
        mode_api: &str,
        champ: &str,
        region_id: Option<u32>,
        role_id: Option<u32>,
    ) -> (r: String)
        ensures
            r@ == stats_url("matchups"@, self.api_version@, mode_api@, champ@, region_id, role_id),
    {
        let mut url = self.stats_document_url("matchups", mode_api, champ);
        append_queries(&mut url, region_id, role_id);
        proof {
            assert(url@ =~= stats_url(
                "matchups"@,
                self.api_version@,
                mode_api@,
                champ@,
                region_id,
                role_id,
            ));
        }
        url
    }

    /// The document URL up to and including the query separator.
    fn stats_document_url(&self, kind: &str, mode_api: &str, champ: &str) -> (r: String)
        ensures
            r@ == "https://stats2.u.gg/lol/1.5/"@ + kind@ + "/"@ + self.api_version@ + "/"@
                + mode_api@ + "/"@ + champ@ + "/1.5.0.json?"@,
    {
        let mut url = String::from_str("https://stats2.u.gg/lol/1.5/");
        url.append(kind);
        url.append("/");
        url.append(self.api_version.as_str());
        url.append("/");
        url.append(mode_api);
        url.append("/");
        url.append(champ);
        url.append("/1.5.0.json?");
        proof {
            assert(url@ =~= "https://stats2.u.gg/lol/1.5/"@ + kind@ + "/"@ + self.api_version@
                + "/"@ + mode_api@ + "/"@ + champ@ + "/1.5.0.json?"@);
        }
        url
    }
}

} // verus!

use crate::config::{platform_base, regional_base, Config};
use crate::text::{decimal, push_decimal};
use vstd::prelude::*;
use vstd::string::*;

verus! {

/// The percent-encoding of `s` that `urlencoding::encode` gives.
pub uninterp spec fn url_encoded(s: Seq<char>) -> Seq<char>;

/// Relies on `urlencoding::encode`: every byte but ASCII alphanumerics and
/// `-`, `_`, `.`, `~` percent-encoded; the result depends on `s` alone.
#[verifier::external_body]
fn url_encode(s: &str) -> (r: String)
    ensures
        r@ == url_encoded(s@),
{
    urlencoding::encode(s).into_owned()
}

/// The query of a match-id listing: `start` and `count` where given, joined
/// by `&`, after a `?`; nothing when neither is given.
pub open spec fn list_query(start: Option<u32>, count: Option<u32>) -> Seq<char> {
    match (start, count) {
        (Some(s), Some(c)) => "?start="@ + decimal(s as nat) + "&count="@ + decimal(c as nat),
        (Some(s), None) => "?start="@ + decimal(s as nat),
        (None, Some(c)) => "?count="@ + decimal(c as nat),
        (None, None) => Seq::empty(),
    }
}

/// Builders of the upstream endpoint URLs.
pub struct Endpoints;

impl Endpoints {
    fn on_platform(config: &Config, region: &str, path: &str, tail: &str) -> (r: String)
        ensures
            r@ == platform_base(region@) + path@ + tail@,
    {
        let mut url = config.base_url_for_region(region);
        url.append(path);
        url.append(tail);
        url
    }

    fn on_regional(config: &Config, region: &str, path: &str, tail: &str) -> (r: String)
        ensures
            r@ == regional_base(region@) + path@ + tail@,
    {
        let mut url = config.regional_base_url_for_region(region);
        url.append(path);
        url.append(tail);
        url
    }

    pub fn summoner_by_name(config: &Config, region: &str, summoner_name: &str) -> (r: String)
        ensures
            r@ == platform_base(region@) + "/lol/summoner/v4/summoners/by-name/"@ + url_encoded(
                summoner_name@,
            ),
    {
        let encoded = url_encode(summoner_name);
        Self::on_platform(config, region, "/lol/summoner/v4/summoners/by-name/", encoded.as_str())
    }

    pub fn summoner_by_puuid(config: &Config, region: &str, puuid: &str) -> (r: String)
        ensures
            r@ == platform_base(region@) + "/lol/summoner/v4/summoners/by-puuid/"@ + puuid@,
    {
        Self::on_platform(config, region, "/lol/summoner/v4/summoners/by-puuid/", puuid)
    }

    pub fn summoner_by_id(config: &Config, region: &str, summoner_id: &str) -> (r: String)
        ensures
            r@ == platform_base(region@) + "/lol/summoner/v4/summoners/"@ + summoner_id@,
    {
        Self::on_platform(config, region, "/lol/summoner/v4/summoners/", summoner_id)
    }

    pub fn match_list_by_puuid(
        config: &Config,
        region: &str,
        puuid: &str,
        start: Option<u32>,
        count: Option<u32>,
    ) -> (r: String)
        ensures
            r@ == regional_base(region@) + "/lol/match/v5/matches/by-puuid/"@ + puuid@ + "/ids"@
                + list_query(start, count),
    {
        let mut url = Self::on_regional(config, region, "/lol/match/v5/matches/by-puuid/", puuid);
        url.append("/ids");
        let ghost base = url@;
        match start {
            Some(s) => {
                url.append("?start=");
                push_decimal(&mut url, s as u64);
                match count {
                    Some(c) => {
                        url.append("&count=");
                        push_decimal(&mut url, c as u64);
                    },
                    None => {},
                }
            },
            None => match count {
                Some(c) => {
                    url.append("?count=");
                    push_decimal(&mut url, c as u64);
                },
                None => {},
            },
        }
        assert(url@ =~= base + list_query(start, count));
        url
    }

    pub fn match_by_id(config: &Config, region: &str, match_id: &str) -> (r: String)
        ensures
            r@ == regional_base(region@) + "/lol/match/v5/matches/"@ + match_id@,
    {
        Self::on_regional(config, region, "/lol/match/v5/matches/", match_id)
    }

    pub fn match_timeline(config: &Config, region: &str, match_id: &str) -> (r: String)
        ensures
            r@ == regional_base(region@) + "/lol/match/v5/matches/"@ + match_id@ + "/timeline"@,
    {
        let mut url = Self::on_regional(config, region, "/lol/match/v5/matches/", match_id);
        url.append("/timeline");
        url
    }

    pub fn league_entries_by_summoner(config: &Config, region: &str, summoner_id: &str) -> (r:
        String)
        ensures
            r@ == platform_base(region@) + "/lol/league/v4/entries/by-summoner/"@ + summoner_id@,
    {
        Self::on_platform(config, region, "/lol/league/v4/entries/by-summoner/", summoner_id)
    }

    pub fn master_league(config: &Config, region: &str, queue: &str) -> (r: String)
        ensures
            r@ == platform_base(region@) + "/lol/league/v4/masterleagues/by-queue/"@ + queue@,
    {
        Self::on_platform(config, region, "/lol/league/v4/masterleagues/by-queue/", queue)
    }

    pub fn grandmaster_league(config: &Config, region: &str, queue: &str) -> (r: String)
        ensures
            r@ == platform_base(region@) + "/lol/league/v4/grandmasterleagues/by-queue/"@ + queue@,
    {
        Self::on_platform(config, region, "/lol/league/v4/grandmasterleagues/by-queue/", queue)
    }

    pub fn challenger_league(config: &Config, region: &str, queue: &str) -> (r: String)
        ensures
            r@ == platform_base(region@) + "/lol/league/v4/challengerleagues/by-queue/"@ + queue@,
    {
        Self::on_platform(config, region, "/lol/league/v4/challengerleagues/by-queue/", queue)
    }
}

/// The queue name of ranked solo games.
pub const RANKED_SOLO_5X5: &'static str = "RANKED_SOLO_5x5";

/// The numeric queue id of ranked solo games.
pub const RANKED_SOLO_QUEUE_ID: i32 = 420;

} // verus!

use crate::text::{
    parse_u32, parse_u64, parse_usize, parsed_u32, parsed_u64, parsed_usize, same_text,
    split_char, split_on, starts_with, trim_text, trimmed,
};
use vstd::prelude::*;
use vstd::string::*;

verus! {

/// Settings of the rate limiter.
#[derive(Clone, Copy, Debug, PartialEq, Eq, Structural)]
pub struct RateLimitConfig {
    pub application_limit_per_second: u32,
    pub application_limit_per_two_minutes: u32,
    pub max_concurrent_requests: u32,
    pub retry_delay_ms: u64,
    pub max_retries: u32,
}

/// Settings of the crawl loop.
#[derive(Clone, Copy, Debug, PartialEq, Eq, Structural)]
pub struct CrawlerConfig {
    pub queue_size_limit: usize,
    pub batch_size: usize,
    pub health_check_interval_seconds: u64,
    pub state_save_interval_seconds: u64,
}

/// Settings of the log output.
#[derive(Clone, Debug)]
pub struct LoggingConfig {
    pub level: String,
    pub format: String,
}

/// The whole configuration of the crawler.
#[derive(Clone, Debug)]
pub struct Config {
    pub riot_api_key: String,
    pub database_url: String,
    pub regions: Vec<String>,
    pub rate_limits: RateLimitConfig,
    pub crawler: CrawlerConfig,
    pub logging: LoggingConfig,
}

/// The raw text of each recognised setting, `None` where it is not set.
#[derive(Clone, Debug)]
pub struct EnvSettings {
    pub riot_api_key: Option<String>,
    pub database_url: Option<String>,
    pub regions: Option<String>,
    pub log_level: Option<String>,
    pub log_format: Option<String>,
    pub application_limit_per_second: Option<String>,
    pub application_limit_per_two_minutes: Option<String>,
    pub max_concurrent_requests: Option<String>,
    pub retry_delay_ms: Option<String>,
    pub max_retries: Option<String>,
    pub queue_size_limit: Option<String>,
    pub batch_size: Option<String>,
    pub health_check_interval_seconds: Option<String>,
    pub state_save_interval_seconds: Option<String>,
}

/// Why a configuration was rejected.
#[derive(Clone, Debug)]
pub enum ConfigError {
    MissingApiKey,
    InvalidApiKeyFormat,
    InvalidRegion(String),
    ZeroApplicationLimit,
    ZeroTwoMinuteLimit,
    ZeroConcurrentRequests,
    ZeroQueueSize,
}

/// The regions the upstream service serves.
pub open spec fn is_known_region(r: Seq<char>) -> bool {
    ||| r == "na1"@
    ||| r == "euw1"@
    ||| r == "eun1"@
    ||| r == "kr"@
    ||| r == "br1"@
    ||| r == "jp1"@
    ||| r == "ru"@
    ||| r == "oc1"@
    ||| r == "tr1"@
    ||| r == "la1"@
    ||| r == "la2"@
}

/// The per-region host of player and league endpoints.
pub open spec fn platform_base(region: Seq<char>) -> Seq<char> {
    "https://"@ + region + ".api.riotgames.com"@
}

/// The continental host of match endpoints.
pub open spec fn regional_base(region: Seq<char>) -> Seq<char> {
    if region == "euw1"@ || region == "eun1"@ || region == "tr1"@ || region == "ru"@ {
        "https://europe.api.riotgames.com"@
    } else if region == "kr"@ || region == "jp1"@ {
        "https://asia.api.riotgames.com"@
    } else if region == "oc1"@ {
        "https://sea.api.riotgames.com"@
    } else {
        "https://americas.api.riotgames.com"@
    }
}

/// A text setting, or its default.
pub open spec fn text_setting(o: Option<String>, default: Seq<char>) -> Seq<char> {
    match o {
        Some(s) => s@,
        None => default,
    }
}

/// A number setting; text that is not such a number leaves the default.
pub open spec fn u32_setting(o: Option<String>, default: u32) -> u32 {
    match o {
        Some(s) => match parsed_u32(s@) {
            Some(v) => v,
            None => default,
        },
        None => default,
    }
}

pub open spec fn u64_setting(o: Option<String>, default: u64) -> u64 {
    match o {
        Some(s) => match parsed_u64(s@) {
            Some(v) => v,
            None => default,
        },
        None => default,
    }
}

pub open spec fn usize_setting(o: Option<String>, default: usize) -> usize {
    match o {
        Some(s) => match parsed_usize(s@) {
            Some(v) => v,
            None => default,
        },
        None => default,
    }
}

pub open spec fn default_regions() -> Seq<Seq<char>> {
    seq!["na1"@, "euw1"@, "kr"@, "eun1"@]
}

/// The regions setting: comma-separated, each trimmed.
pub open spec fn regions_setting(o: Option<String>) -> Seq<Seq<char>> {
    match o {
        Some(s) => split_on(s@, ',').map_values(|p: Seq<char>| trimmed(p)),
        None => default_regions(),
    }
}

pub open spec fn strings(v: Seq<String>) -> Seq<Seq<char>> {
    v.map_values(|s: String| s@)
}

/// What a configuration built from `e` holds.
pub open spec fn configured(e: EnvSettings, c: Config) -> bool {
    &&& c.riot_api_key@ == text_setting(e.riot_api_key, Seq::empty())
    &&& c.database_url@ == text_setting(e.database_url, "./data/lol_crawler.db"@)
    &&& strings(c.regions@) == regions_setting(e.regions)
    &&& c.logging.level@ == text_setting(e.log_level, "info"@)
    &&& c.logging.format@ == text_setting(e.log_format, "json"@)
    &&& c.rate_limits == (RateLimitConfig {
        application_limit_per_second: u32_setting(e.application_limit_per_second, 20),
        application_limit_per_two_minutes: u32_setting(e.application_limit_per_two_minutes, 100),
        max_concurrent_requests: u32_setting(e.max_concurrent_requests, 10),
        retry_delay_ms: u64_setting(e.retry_delay_ms, 1000),
        max_retries: u32_setting(e.max_retries, 3),
    })
    &&& c.crawler == (CrawlerConfig {
        queue_size_limit: usize_setting(e.queue_size_limit, 100000),
        batch_size: usize_setting(e.batch_size, 100),
        health_check_interval_seconds: u64_setting(e.health_check_interval_seconds, 60),
        state_save_interval_seconds: u64_setting(e.state_save_interval_seconds, 300),
    })
}

/// Index of the first region not in the table, if any.
pub open spec fn first_unknown_region(rs: Seq<Seq<char>>) -> Option<int> {
    if exists|i: int| 0 <= i < rs.len() && !is_known_region(#[trigger] rs[i]) {
        Some(
            choose|i: int|
                0 <= i < rs.len() && !is_known_region(#[trigger] rs[i]) && forall|k: int|
                    0 <= k < i ==> is_known_region(#[trigger] rs[k]),
        )
    } else {
        None
    }
}

/// Whether `err` is the first rule broken by a configuration with this key,
/// these regions and these bounds, checked in order: the key is present,
/// the key starts with `RGAPI-`, every region is known, the per-second
/// limit, the two-minute limit, the concurrency bound and the queue size are
/// each positive.
pub open spec fn is_fault(
    key: Seq<char>,
    regions: Seq<Seq<char>>,
    per_second: u32,
    per_two_minutes: u32,
    concurrent: u32,
    queue: usize,
    err: ConfigError,
) -> bool {
    if key.len() == 0 {
        err is MissingApiKey
    } else if !"RGAPI-"@.is_prefix_of(key) {
        err is InvalidApiKeyFormat
    } else if first_unknown_region(regions) is Some {
        err matches ConfigError::InvalidRegion(r) && r@ == regions[first_unknown_region(regions)->Some_0]
    } else if per_second == 0 {
        err is ZeroApplicationLimit
    } else if per_two_minutes == 0 {
        err is ZeroTwoMinuteLimit
    } else if concurrent == 0 {
        err is ZeroConcurrentRequests
    } else if queue == 0 {
        err is ZeroQueueSize
    } else {
        false
    }
}

/// Whether a configuration with this key, these regions and these bounds
/// breaks none of the rules.
pub open spec fn is_valid(
    key: Seq<char>,
    regions: Seq<Seq<char>>,
    per_second: u32,
    per_two_minutes: u32,
    concurrent: u32,
    queue: usize,
) -> bool {
    &&& key.len() > 0
    &&& "RGAPI-"@.is_prefix_of(key)
    &&& first_unknown_region(regions) is None
    &&& per_second > 0
    &&& per_two_minutes > 0
    &&& concurrent > 0
    &&& queue > 0
}

pub open spec fn config_valid(c: Config) -> bool {
    is_valid(
        c.riot_api_key@,
        strings(c.regions@),
        c.rate_limits.application_limit_per_second,
        c.rate_limits.application_limit_per_two_minutes,
        c.rate_limits.max_concurrent_requests,
        c.crawler.queue_size_limit,
    )
}

pub open spec fn is_config_fault(c: Config, err: ConfigError) -> bool {
    is_fault(
        c.riot_api_key@,
        strings(c.regions@),
        c.rate_limits.application_limit_per_second,
        c.rate_limits.application_limit_per_two_minutes,
        c.rate_limits.max_concurrent_requests,
        c.crawler.queue_size_limit,
        err,
    )
}

/// Whether the configuration that `e` describes passes validation.
pub open spec fn settings_valid(e: EnvSettings) -> bool {
    is_valid(
        text_setting(e.riot_api_key, Seq::empty()),
        regions_setting(e.regions),
        u32_setting(e.application_limit_per_second, 20),
        u32_setting(e.application_limit_per_two_minutes, 100),
        u32_setting(e.max_concurrent_requests, 10),
        usize_setting(e.queue_size_limit, 100000),
    )
}

/// Whether `err` is what validation reports of the configuration that `e` describes.
pub open spec fn settings_fault(e: EnvSettings, err: ConfigError) -> bool {
    is_fault(
        text_setting(e.riot_api_key, Seq::empty()),
        regions_setting(e.regions),
        u32_setting(e.application_limit_per_second, 20),
        u32_setting(e.application_limit_per_two_minutes, 100),
        u32_setting(e.max_concurrent_requests, 10),
        usize_setting(e.queue_size_limit, 100000),
        err,
    )
}

fn text_or(o: &Option<String>, default: &str) -> (r: String)
    ensures
        r@ == text_setting(*o, default@),
{
    match o {
        Some(s) => s.clone(),
        None => String::from_str(default),
    }
}

fn u32_or(o: &Option<String>, default: u32) -> (r: u32)
    ensures
        r == u32_setting(*o, default),
{
    match o {
        Some(s) => match parse_u32(s.as_str()) {
            Some(v) => v,
            None => default,
        },
        None => default,
    }
}

fn u64_or(o: &Option<String>, default: u64) -> (r: u64)
    ensures
        r == u64_setting(*o, default),
{
    match o {
        Some(s) => match parse_u64(s.as_str()) {
            Some(v) => v,
            None => default,
        },
        None => default,
    }
}

fn usize_or(o: &Option<String>, default: usize) -> (r: usize)
    ensures
        r == usize_setting(*o, default),
{
    match o {
        Some(s) => match parse_usize(s.as_str()) {
            Some(v) => v,
            None => default,
        },
        None => default,
    }
}

fn region_list(o: &Option<String>) -> (r: Vec<String>)
    ensures
        strings(r@) == regions_setting(*o),
{
    match o {
        Some(s) => {
            let pieces = split_char(s.as_str(), ',');
            let mut out: Vec<String> = Vec::new();
            let mut i: usize = 0;
            while i < pieces.len()
                invariant
                    i <= pieces@.len(),
                    pieces@.map_values(|p: String| p@) == split_on(s@, ','),
                    strings(out@) == split_on(s@, ',').subrange(0, i as int).map_values(
                        |p: Seq<char>| trimmed(p),
                    ),
                decreases pieces@.len() - i,
            {
                let t = trim_text(pieces[i].as_str());
                let ghost before = out@;
                out.push(t);
                assert(strings(out@) =~= strings(before).push(t@));
                proof {
                    assert(pieces@.map_values(|p: String| p@)[i as int] == pieces@[i as int]@);
                    assert(split_on(s@, ',')[i as int] == pieces@[i as int]@);
                }
                assert(strings(out@) =~= split_on(s@, ',').subrange(0, i + 1).map_values(
                    |p: Seq<char>| trimmed(p),
                ));
                i = i + 1;
            }
            assert(split_on(s@, ',').subrange(0, i as int) =~= split_on(s@, ','));
            out
        },
        None => {
            let mut out: Vec<String> = Vec::new();
            out.push(String::from_str("na1"));
            out.push(String::from_str("euw1"));
            out.push(String::from_str("kr"));
            out.push(String::from_str("eun1"));
            assert(strings(out@) =~= default_regions());
            out
        },
    }
}

/// Whether `region` is one of the regions the upstream service serves.
pub fn is_valid_region(region: &str) -> (r: bool)
    ensures
        r == is_known_region(region@),
{
    same_text(region, "na1") || same_text(region, "euw1") || same_text(region, "eun1")
        || same_text(region, "kr") || same_text(region, "br1") || same_text(region, "jp1")
        || same_text(region, "ru") || same_text(region, "oc1") || same_text(region, "tr1")
        || same_text(region, "la1") || same_text(region, "la2")
}

/// The list of known regions, as error messages give it.
pub open spec fn region_list_text() -> Seq<char> {
    "na1, euw1, eun1, kr, br1, jp1, ru, oc1, tr1, la1, la2"@
}

/// The sentence that says what `e` finds wrong.
pub open spec fn error_text(e: ConfigError) -> Seq<char> {
    match e {
        ConfigError::MissingApiKey => "RIOT_API_KEY environment variable is required"@,
        ConfigError::InvalidApiKeyFormat => "RIOT_API_KEY must start with 'RGAPI-'"@,
        ConfigError::InvalidRegion(r) => "Invalid region '"@ + r@ + "'. Valid regions: "@
            + region_list_text(),
        ConfigError::ZeroApplicationLimit => "APPLICATION_LIMIT_PER_SECOND must be greater than 0"@,
        ConfigError::ZeroTwoMinuteLimit => "APPLICATION_LIMIT_PER_TWO_MINUTES must be greater than 0"@,
        ConfigError::ZeroConcurrentRequests => "MAX_CONCURRENT_REQUESTS must be greater than 0"@,
        ConfigError::ZeroQueueSize => "QUEUE_SIZE_LIMIT must be greater than 0"@,
    }
}

impl ConfigError {
    /// A sentence that says what is wrong.
    pub fn message(&self) -> (m: String)
        ensures
            m@ == error_text(*self),
    {
        match self {
            ConfigError::MissingApiKey => String::from_str(
                "RIOT_API_KEY environment variable is required",
            ),
            ConfigError::InvalidApiKeyFormat => String::from_str(
                "RIOT_API_KEY must start with 'RGAPI-'",
            ),
            ConfigError::InvalidRegion(r) => {
                let mut m = String::from_str("Invalid region '");
                m.append(r.as_str());
                m.append("'. Valid regions: ");
                m.append("na1, euw1, eun1, kr, br1, jp1, ru, oc1, tr1, la1, la2");
                m
            },
            ConfigError::ZeroApplicationLimit => String::from_str(
                "APPLICATION_LIMIT_PER_SECOND must be greater than 0",
            ),
            ConfigError::ZeroTwoMinuteLimit => String::from_str(
                "APPLICATION_LIMIT_PER_TWO_MINUTES must be greater than 0",
            ),
            ConfigError::ZeroConcurrentRequests => String::from_str(
                "MAX_CONCURRENT_REQUESTS must be greater than 0",
            ),
            ConfigError::ZeroQueueSize => String::from_str("QUEUE_SIZE_LIMIT must be greater than 0"),
        }
    }
}

impl Default for Config {
    fn default() -> (c: Config)
        ensures
            c.riot_api_key@ == Seq::<char>::empty(),
            c.database_url@ == "./data/lol_crawler.db"@,
            strings(c.regions@) == default_regions(),
            c.logging.level@ == "info"@,
            c.logging.format@ == "json"@,
            c.rate_limits == (RateLimitConfig {
                application_limit_per_second: 20,
                application_limit_per_two_minutes: 100,
                max_concurrent_requests: 10,
                retry_delay_ms: 1000,
                max_retries: 3,
            }),
            c.crawler == (CrawlerConfig {
                queue_size_limit: 100000,
                batch_size: 100,
                health_check_interval_seconds: 60,
                state_save_interval_seconds: 300,
            }),
    {
        Config {
            riot_api_key: String::new(),
            database_url: String::from_str("./data/lol_crawler.db"),
            regions: region_list(&None),
            rate_limits: RateLimitConfig {
                application_limit_per_second: 20,
                application_limit_per_two_minutes: 100,
                max_concurrent_requests: 10,
                retry_delay_ms: 1000,
                max_retries: 3,
            },
            crawler: CrawlerConfig {
                queue_size_limit: 100000,
                batch_size: 100,
                health_check_interval_seconds: 60,
                state_save_interval_seconds: 300,
            },
            logging: LoggingConfig {
                level: String::from_str("info"),
                format: String::from_str("json"),
            },
        }
    }
}

impl Config {
    /// Builds the configuration from the settings that are present, keeping
    /// the default of each that is absent or is not a number where one is
    /// wanted, then validates it.
    pub fn from_env(settings: &EnvSettings) -> (r: Result<Config, ConfigError>)
        ensures
            r is Ok <==> settings_valid(*settings),
            r matches Ok(c) ==> configured(*settings, c),
            r matches Err(e) ==> settings_fault(*settings, e),
    {
        let config = Config {
            riot_api_key: text_or(&settings.riot_api_key, ""),
            database_url: text_or(&settings.database_url, "./data/lol_crawler.db"),
            regions: region_list(&settings.regions),
            rate_limits: RateLimitConfig {
                application_limit_per_second: u32_or(&settings.application_limit_per_second, 20),
                application_limit_per_two_minutes: u32_or(
                    &settings.application_limit_per_two_minutes,
                    100,
                ),
                max_concurrent_requests: u32_or(&settings.max_concurrent_requests, 10),
                retry_delay_ms: u64_or(&settings.retry_delay_ms, 1000),
                max_retries: u32_or(&settings.max_retries, 3),
            },
            crawler: CrawlerConfig {
                queue_size_limit: usize_or(&settings.queue_size_limit, 100000),
                batch_size: usize_or(&settings.batch_size, 100),
                health_check_interval_seconds: u64_or(&settings.health_check_interval_seconds, 60),
                state_save_interval_seconds: u64_or(&settings.state_save_interval_seconds, 300),
            },
            logging: LoggingConfig {
                level: text_or(&settings.log_level, "info"),
                format: text_or(&settings.log_format, "json"),
            },
        };
        proof {
            reveal_strlit("");
        }
        match config.validate() {
            Some(e) => Err(e),
            None => Ok(config),
        }
    }

    /// The first rule that this configuration breaks, if any.
    pub fn validate(&self) -> (r: Option<ConfigError>)
        ensures
            r is None <==> config_valid(*self),
            r matches Some(e) ==> is_config_fault(*self, e),
    {
        if self.riot_api_key.unicode_len() == 0 {
            return Some(ConfigError::MissingApiKey);
        }
        if !starts_with(self.riot_api_key.as_str(), "RGAPI-") {
            return Some(ConfigError::InvalidApiKeyFormat);
        }
        let mut i: usize = 0;
        while i < self.regions.len()
            invariant
                i <= self.regions@.len(),
                self.riot_api_key@.len() > 0,
                "RGAPI-"@.is_prefix_of(self.riot_api_key@),
                forall|k: int| 0 <= k < i ==> is_known_region(#[trigger] strings(self.regions@)[k]),
            decreases self.regions@.len() - i,
        {
            if !is_valid_region(self.regions[i].as_str()) {
                let ghost rs = strings(self.regions@);
                assert(!is_known_region(rs[i as int]));
                assert(0 <= i < rs.len() && !is_known_region(rs[i as int]) && forall|k: int|
                    0 <= k < i ==> is_known_region(#[trigger] rs[k]));
                let ghost w = first_unknown_region(rs);
                assert(w is Some);
                let ghost j = w->Some_0;
                assert(j == i as int) by {
                    if j < i {
                        assert(is_known_region(rs[j]));
                    }
                    if j > i {
                        assert(is_known_region(rs[i as int]));
                    }
                }
                let name = self.regions[i].clone();
                return Some(ConfigError::InvalidRegion(name));
            }
            i = i + 1;
        }
        assert(first_unknown_region(strings(self.regions@)) is None);
        if self.rate_limits.application_limit_per_second == 0 {
            return Some(ConfigError::ZeroApplicationLimit);
        }
        if self.rate_limits.application_limit_per_two_minutes == 0 {
            return Some(ConfigError::ZeroTwoMinuteLimit);
        }
        if self.rate_limits.max_concurrent_requests == 0 {
            return Some(ConfigError::ZeroConcurrentRequests);
        }
        if self.crawler.queue_size_limit == 0 {
            return Some(ConfigError::ZeroQueueSize);
        }
        None
    }

    /// The base URL of player and league endpoints for `region`.
    pub fn base_url_for_region(&self, region: &str) -> (r: String)
        ensures
            r@ == platform_base(region@),
    {
        let mut url = String::from_str("https://");
        url.append(region);
        url.append(".api.riotgames.com");
        url
    }

    /// The base URL of match endpoints for `region`.
    pub fn regional_base_url_for_region(&self, region: &str) -> (r: String)
        ensures
            r@ == regional_base(region@),
    {
        if same_text(region, "euw1") || same_text(region, "eun1") || same_text(region, "tr1")
            || same_text(region, "ru") {
            String::from_str("https://europe.api.riotgames.com")
        } else if same_text(region, "kr") || same_text(region, "jp1") {
            String::from_str("https://asia.api.riotgames.com")
        } else if same_text(region, "oc1") {
            String::from_str("https://sea.api.riotgames.com")
        } else {
            String::from_str("https://americas.api.riotgames.com")
        }
    }
}

} // verus!

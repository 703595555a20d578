use lol_crawler::config::{Config, ConfigError, EnvSettings};
use lol_crawler::endpoints::Endpoints;
use lol_crawler::models::{Schema, SCHEMA_VERSION};
use lol_crawler::text::trim_text;

fn clean_env() -> EnvSettings {
    EnvSettings {
        riot_api_key: None,
        database_url: None,
        regions: None,
        log_level: None,
        log_format: None,
        application_limit_per_second: None,
        application_limit_per_two_minutes: None,
        max_concurrent_requests: None,
        retry_delay_ms: None,
        max_retries: None,
        queue_size_limit: None,
        batch_size: None,
        health_check_interval_seconds: None,
        state_save_interval_seconds: None,
    }
}

fn minimal_valid_env() -> EnvSettings {
    let mut e = clean_env();
    e.riot_api_key = Some("RGAPI-test-key-123".to_string());
    e
}

fn some(s: &str) -> Option<String> {
    Some(s.to_string())
}

fn error_text(r: Result<Config, ConfigError>) -> String {
    match r {
        Ok(_) => panic!("expected an error"),
        Err(e) => e.message(),
    }
}

#[test]
fn test_default_config() {
    let config = Config::default();

    assert_eq!(config.riot_api_key, "");
    assert_eq!(config.database_url, "./data/lol_crawler.db");
    assert_eq!(config.regions, vec!["na1", "euw1", "kr", "eun1"]);

    assert_eq!(config.rate_limits.application_limit_per_second, 20);
    assert_eq!(config.rate_limits.application_limit_per_two_minutes, 100);
    assert_eq!(config.rate_limits.max_concurrent_requests, 10);
    assert_eq!(config.rate_limits.retry_delay_ms, 1000);
    assert_eq!(config.rate_limits.max_retries, 3);

    assert_eq!(config.crawler.queue_size_limit, 100_000);
    assert_eq!(config.crawler.batch_size, 100);
    assert_eq!(config.crawler.health_check_interval_seconds, 60);
    assert_eq!(config.crawler.state_save_interval_seconds, 300);

    assert_eq!(config.logging.level, "info");
    assert_eq!(config.logging.format, "json");
}

#[test]
fn test_config_from_env_minimal_valid() {
    let config = Config::from_env(&minimal_valid_env()).unwrap();
    assert_eq!(config.riot_api_key, "RGAPI-test-key-123");
    assert_eq!(config.database_url, "./data/lol_crawler.db");
    assert_eq!(config.regions, vec!["na1", "euw1", "kr", "eun1"]);
}

#[test]
fn test_config_from_env_missing_api_key() {
    let result = Config::from_env(&clean_env());
    assert!(result.is_err(), "Expected error for missing API key, but got success");
    assert!(error_text(result).contains("RIOT_API_KEY environment variable is required"));
}

#[test]
fn test_config_from_env_invalid_api_key_format() {
    let mut e = clean_env();
    e.riot_api_key = some("invalid-key-format");
    let result = Config::from_env(&e);
    assert!(result.is_err());
    assert!(error_text(result).contains("RIOT_API_KEY must start with 'RGAPI-'"));
}

#[test]
fn test_config_from_env_all_variables() {
    let mut e = clean_env();
    e.riot_api_key = some("RGAPI-complete-test-key");
    e.database_url = some("./test_data/custom.db");
    e.regions = some("na1,euw1,kr");
    e.log_level = some("debug");
    e.application_limit_per_second = some("50");
    e.application_limit_per_two_minutes = some("500");
    e.max_concurrent_requests = some("25");
    e.queue_size_limit = some("50000");
    e.batch_size = some("200");
    e.health_check_interval_seconds = some("120");
    e.state_save_interval_seconds = some("600");

    let config = Config::from_env(&e).unwrap();

    assert_eq!(config.riot_api_key, "RGAPI-complete-test-key");
    assert_eq!(config.database_url, "./test_data/custom.db");
    assert_eq!(config.regions, vec!["na1", "euw1", "kr"]);
    assert_eq!(config.logging.level, "debug");
    assert_eq!(config.rate_limits.application_limit_per_second, 50);
    assert_eq!(config.rate_limits.application_limit_per_two_minutes, 500);
    assert_eq!(config.rate_limits.max_concurrent_requests, 25);
    assert_eq!(config.crawler.queue_size_limit, 50000);
    assert_eq!(config.crawler.batch_size, 200);
    assert_eq!(config.crawler.health_check_interval_seconds, 120);
    assert_eq!(config.crawler.state_save_interval_seconds, 600);
}

#[test]
fn test_regions_parsing() {
    let mut e = minimal_valid_env();
    e.regions = some("na1");
    let config = Config::from_env(&e).unwrap();
    assert_eq!(config.regions, vec!["na1"]);

    e.regions = some(" na1 , euw1 , kr ");
    let config = Config::from_env(&e).unwrap();
    assert_eq!(config.regions, vec!["na1", "euw1", "kr"]);

    e.regions = some("na1,euw1,eun1,kr,br1,jp1,ru,oc1,tr1,la1,la2");
    let config = Config::from_env(&e).unwrap();
    assert_eq!(config.regions.len(), 11);
}

#[test]
fn test_invalid_regions() {
    let mut e = minimal_valid_env();
    e.regions = some("na1,invalid_region,kr");
    let result = Config::from_env(&e);
    assert!(result.is_err());
    assert!(error_text(result).contains("Invalid region 'invalid_region'"));
}

#[test]
fn test_invalid_numeric_parsing() {
    let mut e = minimal_valid_env();
    e.application_limit_per_second = some("not_a_number");
    let config = Config::from_env(&e).unwrap();
    assert_eq!(config.rate_limits.application_limit_per_second, 20);

    e.queue_size_limit = some("invalid");
    let config = Config::from_env(&e).unwrap();
    assert_eq!(config.crawler.queue_size_limit, 100_000);
}

#[test]
fn test_validation_zero_rate_limits() {
    let mut e = minimal_valid_env();
    e.application_limit_per_second = some("0");
    let result = Config::from_env(&e);
    assert!(result.is_err());
    assert!(error_text(result).contains("APPLICATION_LIMIT_PER_SECOND must be greater than 0"));
}

#[test]
fn test_validation_zero_concurrent_requests() {
    let mut e = minimal_valid_env();
    e.max_concurrent_requests = some("0");
    let result = Config::from_env(&e);
    assert!(result.is_err());
    assert!(error_text(result).contains("MAX_CONCURRENT_REQUESTS must be greater than 0"));
}

#[test]
fn test_validation_zero_queue_size() {
    let mut e = minimal_valid_env();
    e.queue_size_limit = some("0");
    let result = Config::from_env(&e);
    assert!(result.is_err());
    assert!(error_text(result).contains("QUEUE_SIZE_LIMIT must be greater than 0"));
}

#[test]
fn test_base_url_for_region() {
    let config = Config::default();

    assert_eq!(config.base_url_for_region("na1"), "https://na1.api.riotgames.com");
    assert_eq!(config.base_url_for_region("euw1"), "https://euw1.api.riotgames.com");
    assert_eq!(config.base_url_for_region("kr"), "https://kr.api.riotgames.com");
    assert_eq!(config.base_url_for_region("br1"), "https://br1.api.riotgames.com");
    assert_eq!(config.base_url_for_region("jp1"), "https://jp1.api.riotgames.com");

    assert_eq!(config.base_url_for_region("unknown"), "https://unknown.api.riotgames.com");
}

#[test]
fn test_regional_base_url_for_region() {
    let config = Config::default();

    assert_eq!(config.regional_base_url_for_region("na1"), "https://americas.api.riotgames.com");
    assert_eq!(config.regional_base_url_for_region("br1"), "https://americas.api.riotgames.com");
    assert_eq!(config.regional_base_url_for_region("la1"), "https://americas.api.riotgames.com");
    assert_eq!(config.regional_base_url_for_region("la2"), "https://americas.api.riotgames.com");

    assert_eq!(config.regional_base_url_for_region("euw1"), "https://europe.api.riotgames.com");
    assert_eq!(config.regional_base_url_for_region("eun1"), "https://europe.api.riotgames.com");
    assert_eq!(config.regional_base_url_for_region("tr1"), "https://europe.api.riotgames.com");
    assert_eq!(config.regional_base_url_for_region("ru"), "https://europe.api.riotgames.com");

    assert_eq!(config.regional_base_url_for_region("kr"), "https://asia.api.riotgames.com");
    assert_eq!(config.regional_base_url_for_region("jp1"), "https://asia.api.riotgames.com");

    assert_eq!(config.regional_base_url_for_region("oc1"), "https://sea.api.riotgames.com");

    assert_eq!(config.regional_base_url_for_region("unknown"), "https://americas.api.riotgames.com");
}

#[test]
fn test_edge_cases_parsing() {
    let mut e = minimal_valid_env();
    e.regions = some("");
    let result = Config::from_env(&e);
    assert!(result.is_err());
    assert!(error_text(result).contains("Invalid region"));
}

#[test]
fn test_extremely_large_values() {
    let mut e = minimal_valid_env();
    e.application_limit_per_second = some("999999");
    e.queue_size_limit = some("9999999999");
    e.health_check_interval_seconds = some("86400");
    let config = Config::from_env(&e).unwrap();
    assert_eq!(config.rate_limits.application_limit_per_second, 999999);
    assert_eq!(config.crawler.queue_size_limit, 9999999999);
    assert_eq!(config.crawler.health_check_interval_seconds, 86400);
}

#[test]
fn test_boundary_values() {
    let mut e = minimal_valid_env();
    e.application_limit_per_second = some("1");
    e.max_concurrent_requests = some("1");
    e.queue_size_limit = some("1");
    let config = Config::from_env(&e).unwrap();
    assert_eq!(config.rate_limits.application_limit_per_second, 1);
    assert_eq!(config.rate_limits.max_concurrent_requests, 1);
    assert_eq!(config.crawler.queue_size_limit, 1);
}

#[test]
fn test_special_api_key_formats() {
    let mut e = clean_env();
    e.riot_api_key = some("RGAPI-");
    assert!(Config::from_env(&e).is_ok());

    e.riot_api_key =
        some("RGAPI-abcdef123456789012345678901234567890abcdef123456789012345678901234567890");
    assert!(Config::from_env(&e).is_ok());

    e.riot_api_key = some("RGAPI-abc_def-123.456");
    assert!(Config::from_env(&e).is_ok());
}

#[test]
fn test_partial_env_override() {
    let mut e = minimal_valid_env();
    e.database_url = some("/custom/path/db.sqlite");
    e.application_limit_per_second = some("25");
    let config = Config::from_env(&e).unwrap();

    assert_eq!(config.database_url, "/custom/path/db.sqlite");
    assert_eq!(config.rate_limits.application_limit_per_second, 25);

    assert_eq!(config.regions, vec!["na1", "euw1", "kr", "eun1"]);
    assert_eq!(config.rate_limits.application_limit_per_two_minutes, 100);
    assert_eq!(config.crawler.batch_size, 100);
}

#[test]
fn numeric_settings_accept_a_plus_sign_and_reject_overflow() {
    let mut e = minimal_valid_env();
    e.max_retries = some("+7");
    e.application_limit_per_two_minutes = some("4294967296");
    e.retry_delay_ms = some("250");
    let config = Config::from_env(&e).unwrap();
    assert_eq!(config.rate_limits.max_retries, 7);
    assert_eq!(config.rate_limits.application_limit_per_two_minutes, 100);
    assert_eq!(config.rate_limits.retry_delay_ms, 250);
}

#[test]
fn validation_checks_the_key_before_the_regions() {
    let mut e = clean_env();
    e.riot_api_key = some("bad");
    e.regions = some("nowhere");
    match Config::from_env(&e) {
        Err(ConfigError::InvalidApiKeyFormat) => {}
        other => panic!("unexpected result: {:?}", other.map(|c| c.riot_api_key)),
    }
}

#[test]
fn validate_reports_the_first_unknown_region() {
    let mut config = Config::default();
    config.riot_api_key = "RGAPI-x".to_string();
    config.regions = vec!["kr".to_string(), "mars".to_string(), "venus".to_string()];
    match config.validate() {
        Some(ConfigError::InvalidRegion(r)) => assert_eq!(r, "mars"),
        other => panic!("unexpected: {:?}", other),
    }
    config.regions = vec!["kr".to_string()];
    assert!(config.validate().is_none());
}

#[test]
fn test_schema_version() {
    assert_eq!(SCHEMA_VERSION, 1);
}

#[test]
fn older_schema_needs_migration() {
    assert!(Schema::needs_migration(0));
    assert!(!Schema::needs_migration(1));
}

#[test]
fn test_match_list_endpoint() {
    let config = Config::default();
    let url = Endpoints::match_list_by_puuid(&config, "na1", "test-puuid", Some(0), Some(20));
    assert!(url.contains("test-puuid"));
    assert!(url.contains("start=0"));
    assert!(url.contains("count=20"));
    assert!(url.contains("americas.api.riotgames.com"));
    assert_eq!(
        url,
        "https://americas.api.riotgames.com/lol/match/v5/matches/by-puuid/test-puuid/ids?start=0&count=20"
    );
}

#[test]
fn match_list_query_parts_are_optional() {
    let config = Config::default();
    assert_eq!(
        Endpoints::match_list_by_puuid(&config, "kr", "p", None, None),
        "https://asia.api.riotgames.com/lol/match/v5/matches/by-puuid/p/ids"
    );
    assert_eq!(
        Endpoints::match_list_by_puuid(&config, "kr", "p", None, Some(105)),
        "https://asia.api.riotgames.com/lol/match/v5/matches/by-puuid/p/ids?count=105"
    );
    assert_eq!(
        Endpoints::match_list_by_puuid(&config, "kr", "p", Some(4294967295), None),
        "https://asia.api.riotgames.com/lol/match/v5/matches/by-puuid/p/ids?start=4294967295"
    );
}

#[test]
fn test_master_league_endpoint() {
    let config = Config::default();
    let url = Endpoints::master_league(&config, "na1", "RANKED_SOLO_5x5");
    assert!(url.contains("masterleagues"));
    assert!(url.contains("RANKED_SOLO_5x5"));
    assert!(url.contains("na1.api.riotgames.com"));
}

#[test]
fn endpoint_paths_are_exact() {
    let config = Config::default();
    assert_eq!(
        Endpoints::summoner_by_puuid(&config, "euw1", "abc"),
        "https://euw1.api.riotgames.com/lol/summoner/v4/summoners/by-puuid/abc"
    );
    assert_eq!(
        Endpoints::summoner_by_id(&config, "euw1", "sid"),
        "https://euw1.api.riotgames.com/lol/summoner/v4/summoners/sid"
    );
    assert_eq!(
        Endpoints::match_by_id(&config, "oc1", "OC1_9"),
        "https://sea.api.riotgames.com/lol/match/v5/matches/OC1_9"
    );
    assert_eq!(
        Endpoints::match_timeline(&config, "ru", "RU_1"),
        "https://europe.api.riotgames.com/lol/match/v5/matches/RU_1/timeline"
    );
    assert_eq!(
        Endpoints::league_entries_by_summoner(&config, "kr", "s1"),
        "https://kr.api.riotgames.com/lol/league/v4/entries/by-summoner/s1"
    );
    assert_eq!(
        Endpoints::grandmaster_league(&config, "kr", "Q"),
        "https://kr.api.riotgames.com/lol/league/v4/grandmasterleagues/by-queue/Q"
    );
    assert_eq!(
        Endpoints::challenger_league(&config, "kr", "Q"),
        "https://kr.api.riotgames.com/lol/league/v4/challengerleagues/by-queue/Q"
    );
}

#[test]
fn summoner_name_is_percent_encoded() {
    let config = Config::default();
    assert_eq!(
        Endpoints::summoner_by_name(&config, "na1", "Invalid@Name x"),
        "https://na1.api.riotgames.com/lol/summoner/v4/summoners/by-name/Invalid%40Name%20x"
    );
}

#[test]
fn zero_two_minute_limit_is_rejected() {
    let mut e = minimal_valid_env();
    e.application_limit_per_two_minutes = some("0");
    let result = Config::from_env(&e);
    assert!(matches!(result, Err(ConfigError::ZeroTwoMinuteLimit)));
    assert_eq!(
        error_text(Config::from_env(&e)),
        "APPLICATION_LIMIT_PER_TWO_MINUTES must be greater than 0"
    );
}

#[test]
fn invalid_region_message_is_exact() {
    assert_eq!(
        ConfigError::InvalidRegion("x".to_string()).message(),
        "Invalid region 'x'. Valid regions: na1, euw1, eun1, kr, br1, jp1, ru, oc1, tr1, la1, la2"
    );
}

#[test]
fn trim_drops_unicode_whitespace_at_both_ends_only() {
    assert_eq!(trim_text(" \t na1 \n"), "na1");
    assert_eq!(trim_text("\u{3000}e u\u{a0}"), "e u");
    assert_eq!(trim_text("   "), "");
    assert_eq!(trim_text(""), "");
    assert_eq!(trim_text("kr"), "kr");
}

use vstd::prelude::*;

verus! {

/// Version of the persisted layout that this library writes.
pub const SCHEMA_VERSION: i32 = 1;

/// The persisted layout: nine tables, with a singleton crawler-state row.
pub struct Schema;

impl Schema {
    /// Whether a store at layout `version` must be migrated first.
    pub fn needs_migration(version: i32) -> (r: bool)
        ensures
            r == (version < SCHEMA_VERSION),
    {
        version < SCHEMA_VERSION
    }
}

/// A player profile as the upstream service returns it.
#[derive(Clone, Debug)]
pub struct SummonerResponse {
    pub account_id: Option<String>,
    pub profile_icon_id: u32,
    pub revision_date: u64,
    pub name: Option<String>,
    pub id: Option<String>,
    pub puuid: String,
    pub summoner_level: u32,
}

/// A league of one tier.
#[derive(Clone, Debug)]
pub struct LeagueListResponse {
    pub league_id: String,
    pub entries: Vec<LeagueEntry>,
    pub tier: String,
    pub name: String,
    pub queue: String,
}

#[derive(Clone, Debug)]
pub struct LeagueEntry {
    pub puuid: String,
    pub league_points: u32,
    pub rank: String,
    pub wins: u32,
    pub losses: u32,
    pub veteran: bool,
    pub inactive: bool,
    pub fresh_blood: bool,
    pub hot_streak: bool,
    pub mini_series: Option<MiniSeries>,
}

#[derive(Clone, Debug)]
pub struct MiniSeries {
    pub losses: u32,
    pub progress: String,
    pub target: u32,
    pub wins: u32,
}

/// The metadata part of a match.
#[derive(Clone, Debug)]
pub struct MetadataDto {
    pub data_version: String,
    pub match_id: String,
    pub participants: Vec<String>,
}

/// One team of a match.
#[derive(Clone, Debug)]
pub struct TeamDto {
    pub bans: Vec<BanDto>,
    pub objectives: ObjectivesDto,
    pub team_id: i32,
    pub win: bool,
}

/// One ban of a team; a champion id of zero or less means no ban.
#[derive(Clone, Copy, Debug, PartialEq, Eq, Structural)]
pub struct BanDto {
    pub champion_id: i32,
    pub pick_turn: i32,
}

#[derive(Clone, Copy, Debug, PartialEq, Eq, Structural)]
pub struct ObjectivesDto {
    pub baron: ObjectiveDto,
    pub champion: ObjectiveDto,
    pub dragon: ObjectiveDto,
    pub horde: Option<ObjectiveDto>,
    pub inhibitor: ObjectiveDto,
    pub rift_herald: ObjectiveDto,
    pub tower: ObjectiveDto,
}

#[derive(Clone, Copy, Debug, PartialEq, Eq, Structural)]
pub struct ObjectiveDto {
    pub first: bool,
    pub kills: i32,
}

/// A match as the upstream service returns it, with the parts the crawler reads.
#[derive(Clone, Debug)]
pub struct MatchDto {
    pub metadata: MetadataDto,
    pub info: InfoDto,
}

/// The body of a match.
#[derive(Clone, Debug)]
pub struct InfoDto {
    pub game_creation: i64,
    pub game_duration: i64,
    pub game_end_timestamp: Option<i64>,
    pub game_id: i64,
    pub game_mode: String,
    pub game_name: Option<String>,
    pub game_type: String,
    pub game_version: String,
    pub map_id: i32,
    pub participants: Vec<ParticipantDto>,
    pub platform_id: String,
    pub queue_id: i32,
    pub teams: Vec<TeamDto>,
    pub tournament_code: Option<String>,
}

/// The figures of one participant that the crawler stores.
#[derive(Clone, Debug)]
pub struct ParticipantDto {
    pub puuid: String,
    pub summoner_name: String,
    pub champion_id: i32,
    pub champion_name: String,
    pub team_id: i32,
    pub lane: String,
    pub individual_position: String,
    pub kills: i32,
    pub deaths: i32,
    pub assists: i32,
    pub total_damage_dealt: i32,
    pub total_damage_dealt_to_champions: i32,
    pub total_damage_taken: i32,
    pub gold_earned: i32,
    pub gold_spent: i32,
    pub turret_kills: i32,
    pub inhibitor_kills: i32,
    pub total_minions_killed: i32,
    pub neutral_minions_killed: i32,
    pub champ_level: i32,
    pub item0: i32,
    pub item1: i32,
    pub item2: i32,
    pub item3: i32,
    pub item4: i32,
    pub item5: i32,
    pub item6: i32,
    pub summoner1_id: i32,
    pub summoner2_id: i32,
    pub perks: Option<PerksDto>,
    pub win: bool,
    pub first_blood_kill: bool,
    pub first_tower_kill: bool,
}

#[derive(Clone, Debug)]
pub struct PerksDto {
    pub stat_perks: PerkStatsDto,
    pub styles: Vec<PerkStyleDto>,
}

#[derive(Clone, Copy, Debug, PartialEq, Eq, Structural)]
pub struct PerkStatsDto {
    pub defense: i32,
    pub flex: i32,
    pub offense: i32,
}

#[derive(Clone, Debug)]
pub struct PerkStyleDto {
    pub description: String,
    pub selections: Vec<PerkStyleSelectionDto>,
    pub style: i32,
}

#[derive(Clone, Copy, Debug, PartialEq, Eq, Structural)]
pub struct PerkStyleSelectionDto {
    pub perk: i32,
    pub var1: i32,
    pub var2: i32,
    pub var3: i32,
}

/// A player row. Times are milliseconds since the Unix epoch.
#[derive(Clone, Debug)]
pub struct DbSummoner {
    pub puuid: String,
    pub summoner_id: String,
    pub account_id: String,
    pub summoner_name: String,
    pub profile_icon_id: i32,
    pub summoner_level: i32,
    pub region: String,
    pub created_at: i64,
    pub updated_at: i64,
}

/// A match row. `created_at` is milliseconds since the Unix epoch.
#[derive(Clone, Debug)]
pub struct DbMatch {
    pub match_id: String,
    pub game_creation: i64,
    pub game_duration: i32,
    pub game_end_timestamp: Option<i64>,
    pub game_id: i64,
    pub game_mode: String,
    pub game_name: Option<String>,
    pub game_type: String,
    pub game_version: String,
    pub map_id: i32,
    pub platform_id: String,
    pub queue_id: i32,
    pub tournament_code: Option<String>,
    pub region: String,
    pub created_at: i64,
}

/// One player's performance in one match.
#[derive(Clone, Debug)]
pub struct DbParticipant {
    pub id: Option<i64>,
    pub match_id: String,
    pub puuid: String,
    pub summoner_name: String,
    pub champion_id: i32,
    pub champion_name: Option<String>,
    pub team_id: i32,
    pub position: Option<String>,
    pub individual_position: Option<String>,
    pub kills: i32,
    pub deaths: i32,
    pub assists: i32,
    pub total_damage_dealt: i32,
    pub total_damage_dealt_to_champions: i32,
    pub total_damage_taken: i32,
    pub gold_earned: i32,
    pub gold_spent: i32,
    pub turret_kills: i32,
    pub inhibitor_kills: i32,
    pub total_minions_killed: i32,
    pub neutral_minions_killed: i32,
    pub champion_level: i32,
    pub items_0: i32,
    pub items_1: i32,
    pub items_2: i32,
    pub items_3: i32,
    pub items_4: i32,
    pub items_5: i32,
    pub items_6: i32,
    pub summoner_spell_1: i32,
    pub summoner_spell_2: i32,
    pub primary_rune_tree: Option<i32>,
    pub secondary_rune_tree: Option<i32>,
    pub win: bool,
    pub first_blood_kill: bool,
    pub first_tower_kill: bool,
}

/// One team's row of a match.
#[derive(Clone, Debug)]
pub struct DbTeam {
    pub id: Option<i64>,
    pub match_id: String,
    pub team_id: i32,
    pub win: bool,
    pub first_baron: bool,
    pub first_dragon: bool,
    pub first_inhibitor: bool,
    pub first_rift_herald: bool,
    pub first_tower: bool,
    pub baron_kills: i32,
    pub dragon_kills: i32,
    pub inhibitor_kills: i32,
    pub rift_herald_kills: i32,
    pub tower_kills: i32,
}

/// One ban row of a match.
#[derive(Clone, Debug)]
pub struct DbBan {
    pub id: Option<i64>,
    pub match_id: String,
    pub team_id: i32,
    pub champion_id: i32,
    pub pick_turn: i32,
}

/// The singleton progress row. `last_update` is milliseconds since the Unix epoch.
#[derive(Clone, Debug)]
pub struct DbCrawlerState {
    pub id: i32,
    pub last_processed_summoner: Option<String>,
    pub total_summoners_processed: i32,
    pub total_matches_processed: i32,
    pub queue_size: i32,
    pub last_update: i64,
}

} // verus!

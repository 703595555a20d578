use crate::models::{
    BanDto, DbBan, DbMatch, DbParticipant, DbSummoner, DbTeam, MatchDto, ParticipantDto, PerksDto,
    SummonerResponse, TeamDto,
};
use crate::api::ApiError;
use crate::queue::{SummonerPriority, SummonerTask};
use vstd::prelude::*;
use vstd::string::*;

verus! {

/// How many recent match ids the worker asks for per player.
pub const RECENT_MATCHES: u32 = 20;

/// A participant seen in a match, and whether the store already has them.
#[derive(Clone, Debug)]
pub struct Discovery {
    pub puuid: String,
    pub summoner_name: String,
    pub known: bool,
}

/// Whether `r` is the team row of `t` in match `match_id`.
pub open spec fn is_team_row(r: DbTeam, match_id: Seq<char>, t: TeamDto) -> bool {
    &&& r.id is None
    &&& r.match_id@ == match_id
    &&& r.team_id == t.team_id
    &&& r.win == t.win
    &&& r.first_baron == t.objectives.baron.first
    &&& r.first_dragon == t.objectives.dragon.first
    &&& r.first_inhibitor == t.objectives.inhibitor.first
    &&& r.first_rift_herald == t.objectives.rift_herald.first
    &&& r.first_tower == t.objectives.tower.first
    &&& r.baron_kills == t.objectives.baron.kills
    &&& r.dragon_kills == t.objectives.dragon.kills
    &&& r.inhibitor_kills == t.objectives.inhibitor.kills
    &&& r.rift_herald_kills == t.objectives.rift_herald.kills
    &&& r.tower_kills == t.objectives.tower.kills
}

/// The team row of `team` in match `match_id`.
pub fn team_row(match_id: &String, team: &TeamDto) -> (r: DbTeam)
    ensures
        is_team_row(r, match_id@, *team),
{
    let o = team.objectives;
    DbTeam {
        id: None,
        match_id: match_id.clone(),
        team_id: team.team_id,
        win: team.win,
        first_baron: o.baron.first,
        first_dragon: o.dragon.first,
        first_inhibitor: o.inhibitor.first,
        first_rift_herald: o.rift_herald.first,
        first_tower: o.tower.first,
        baron_kills: o.baron.kills,
        dragon_kills: o.dragon.kills,
        inhibitor_kills: o.inhibitor.kills,
        rift_herald_kills: o.rift_herald.kills,
        tower_kills: o.tower.kills,
    }
}

/// The bans of one team that name a champion, as (team, champion, pick turn).
pub open spec fn real_bans(team_id: i32, bans: Seq<BanDto>) -> Seq<(i32, i32, i32)>
    decreases bans.len(),
{
    if bans.len() == 0 {
        Seq::empty()
    } else if bans.last().champion_id > 0 {
        real_bans(team_id, bans.drop_last()).push((team_id, bans.last().champion_id, bans.last().pick_turn))
    } else {
        real_bans(team_id, bans.drop_last())
    }
}

/// The bans of all teams that name a champion, team by team.
pub open spec fn all_real_bans(teams: Seq<TeamDto>) -> Seq<(i32, i32, i32)>
    decreases teams.len(),
{
    if teams.len() == 0 {
        Seq::empty()
    } else {
        all_real_bans(teams.drop_last()) + real_bans(teams.last().team_id, teams.last().bans@)
    }
}

pub open spec fn ban_fields(b: DbBan) -> (i32, i32, i32) {
    (b.team_id, b.champion_id, b.pick_turn)
}

/// The ban rows of a match: one per ban that names a champion; a champion
/// id of zero or less means no ban and is dropped.
pub fn ban_rows(match_id: &String, teams: &Vec<TeamDto>) -> (r: Vec<DbBan>)
    ensures
        r@.map_values(|b: DbBan| ban_fields(b)) == all_real_bans(teams@),
        forall|i: int| 0 <= i < r@.len() ==> (#[trigger] r@[i]).match_id@ == match_id@ && r@[i].id is None,
{
    let mut out: Vec<DbBan> = Vec::new();
    let mut i: usize = 0;
    while i < teams.len()
        invariant
            i <= teams@.len(),
            out@.map_values(|b: DbBan| ban_fields(b)) == all_real_bans(teams@.subrange(0, i as int)),
            forall|k: int| 0 <= k < out@.len() ==> (#[trigger] out@[k]).match_id@ == match_id@ && out@[k].id is None,
        decreases teams@.len() - i,
    {
        let team = &teams[i];
        let ghost before = out@.map_values(|b: DbBan| ban_fields(b));
        let mut j: usize = 0;
        while j < team.bans.len()
            invariant
                j <= team.bans@.len(),
                out@.map_values(|b: DbBan| ban_fields(b)) == before + real_bans(team.team_id, team.bans@.subrange(0, j as int)),
                forall|k: int| 0 <= k < out@.len() ==> (#[trigger] out@[k]).match_id@ == match_id@ && out@[k].id is None,
            decreases team.bans@.len() - j,
        {
            let ban = team.bans[j];
            proof {
                assert(team.bans@.subrange(0, j + 1).drop_last() =~= team.bans@.subrange(0, j as int));
            }
            if ban.champion_id > 0 {
                let row = DbBan {
                    id: None,
                    match_id: match_id.clone(),
                    team_id: team.team_id,
                    champion_id: ban.champion_id,
                    pick_turn: ban.pick_turn,
                };
                let ghost prev = out@;
                out.push(row);
                assert(out@.map_values(|b: DbBan| ban_fields(b)) =~= prev.map_values(|b: DbBan| ban_fields(b)).push(ban_fields(row)));
            }
            j = j + 1;
        }
        proof {
            assert(team.bans@.subrange(0, j as int) =~= team.bans@);
            assert(teams@.subrange(0, i + 1).drop_last() =~= teams@.subrange(0, i as int));
        }
        i = i + 1;
    }
    assert(teams@.subrange(0, i as int) =~= teams@);
    out
}

/// Whether `r` is the match row of `m`, fetched in `region` at `now`.
pub open spec fn is_match_row(r: DbMatch, m: MatchDto, region: Seq<char>, now: i64) -> bool {
    &&& r.match_id@ == m.metadata.match_id@
    &&& r.game_creation == m.info.game_creation
    &&& r.game_duration == m.info.game_duration as i32
    &&& r.game_end_timestamp == m.info.game_end_timestamp
    &&& r.game_id == m.info.game_id
    &&& r.game_mode@ == m.info.game_mode@
    &&& r.game_name == m.info.game_name
    &&& r.game_type@ == m.info.game_type@
    &&& r.game_version@ == m.info.game_version@
    &&& r.map_id == m.info.map_id
    &&& r.platform_id@ == m.info.platform_id@
    &&& r.queue_id == m.info.queue_id
    &&& r.tournament_code == m.info.tournament_code
    &&& r.region@ == region
    &&& r.created_at == now
}

/// The match row of `m`, fetched in `region`.
pub fn match_row(m: &MatchDto, region: &str, now_ms: i64) -> (r: DbMatch)
    ensures
        is_match_row(r, *m, region@, now_ms),
{
    DbMatch {
        match_id: m.metadata.match_id.clone(),
        game_creation: m.info.game_creation,
        game_duration: m.info.game_duration as i32,
        game_end_timestamp: m.info.game_end_timestamp,
        game_id: m.info.game_id,
        game_mode: m.info.game_mode.clone(),
        game_name: clone_text(&m.info.game_name),
        game_type: m.info.game_type.clone(),
        game_version: m.info.game_version.clone(),
        map_id: m.info.map_id,
        platform_id: m.info.platform_id.clone(),
        queue_id: m.info.queue_id,
        tournament_code: clone_text(&m.info.tournament_code),
        region: String::from_str(region),
        created_at: now_ms,
    }
}

fn clone_text(o: &Option<String>) -> (r: Option<String>)
    ensures
        r == *o,
{
    match o {
        Some(s) => Some(s.clone()),
        None => None,
    }
}

/// The rune tree of style `i`, where the participant has perks with that many styles.
pub open spec fn rune_tree(perks: Option<PerksDto>, i: int) -> Option<i32> {
    match perks {
        Some(p) => if 0 <= i < p.styles@.len() { Some(p.styles@[i].style) } else { None },
        None => None,
    }
}

fn style_of(perks: &Option<PerksDto>, i: usize) -> (r: Option<i32>)
    ensures
        r == rune_tree(*perks, i as int),
{
    match perks {
        Some(p) => if i < p.styles.len() { Some(p.styles[i].style) } else { None },
        None => None,
    }
}

/// Whether `r` is the participant row of `p` in match `match_id`.
pub open spec fn is_participant_row(r: DbParticipant, match_id: Seq<char>, p: ParticipantDto) -> bool {
    &&& r.id is None
    &&& r.match_id@ == match_id
    &&& r.puuid@ == p.puuid@
    &&& r.summoner_name@ == p.summoner_name@
    &&& r.champion_id == p.champion_id
    &&& r.champion_name == Some(p.champion_name)
    &&& r.team_id == p.team_id
    &&& r.position == Some(p.lane)
    &&& r.individual_position == Some(p.individual_position)
    &&& (r.kills, r.deaths, r.assists) == (p.kills, p.deaths, p.assists)
    &&& r.total_damage_dealt == p.total_damage_dealt
    &&& r.total_damage_dealt_to_champions == p.total_damage_dealt_to_champions
    &&& r.total_damage_taken == p.total_damage_taken
    &&& (r.gold_earned, r.gold_spent) == (p.gold_earned, p.gold_spent)
    &&& (r.turret_kills, r.inhibitor_kills) == (p.turret_kills, p.inhibitor_kills)
    &&& (r.total_minions_killed, r.neutral_minions_killed) == (
        p.total_minions_killed,
        p.neutral_minions_killed,
    )
    &&& r.champion_level == p.champ_level
    &&& (r.items_0, r.items_1, r.items_2, r.items_3, r.items_4, r.items_5, r.items_6) == (
        p.item0,
        p.item1,
        p.item2,
        p.item3,
        p.item4,
        p.item5,
        p.item6,
    )
    &&& (r.summoner_spell_1, r.summoner_spell_2) == (p.summoner1_id, p.summoner2_id)
    &&& r.primary_rune_tree == rune_tree(p.perks, 0)
    &&& r.secondary_rune_tree == rune_tree(p.perks, 1)
    &&& (r.win, r.first_blood_kill, r.first_tower_kill) == (
        p.win,
        p.first_blood_kill,
        p.first_tower_kill,
    )
}

/// The participant row of `p` in match `match_id`: its figures copied, the
/// lane as position, and the first two perk styles as rune trees.
pub fn participant_row(match_id: &String, p: &ParticipantDto) -> (r: DbParticipant)
    ensures
        is_participant_row(r, match_id@, *p),
{
    DbParticipant {
        id: None,
        match_id: match_id.clone(),
        puuid: p.puuid.clone(),
        summoner_name: p.summoner_name.clone(),
        champion_id: p.champion_id,
        champion_name: Some(p.champion_name.clone()),
        team_id: p.team_id,
        position: Some(p.lane.clone()),
        individual_position: Some(p.individual_position.clone()),
        kills: p.kills,
        deaths: p.deaths,
        assists: p.assists,
        total_damage_dealt: p.total_damage_dealt,
        total_damage_dealt_to_champions: p.total_damage_dealt_to_champions,
        total_damage_taken: p.total_damage_taken,
        gold_earned: p.gold_earned,
        gold_spent: p.gold_spent,
        turret_kills: p.turret_kills,
        inhibitor_kills: p.inhibitor_kills,
        total_minions_killed: p.total_minions_killed,
        neutral_minions_killed: p.neutral_minions_killed,
        champion_level: p.champ_level,
        items_0: p.item0,
        items_1: p.item1,
        items_2: p.item2,
        items_3: p.item3,
        items_4: p.item4,
        items_5: p.item5,
        items_6: p.item6,
        summoner_spell_1: p.summoner1_id,
        summoner_spell_2: p.summoner2_id,
        primary_rune_tree: style_of(&p.perks, 0),
        secondary_rune_tree: style_of(&p.perks, 1),
        win: p.win,
        first_blood_kill: p.first_blood_kill,
        first_tower_kill: p.first_tower_kill,
    }
}

/// Every row that one fetched match writes, in one transaction.
#[derive(Clone, Debug)]
pub struct MatchRows {
    pub match_row: DbMatch,
    pub teams: Vec<DbTeam>,
    pub bans: Vec<DbBan>,
    pub participants: Vec<DbParticipant>,
}

/// Whether `rows` are every row of match `m` fetched in `region` at `now`.
pub open spec fn is_match_rows(rows: MatchRows, m: MatchDto, region: Seq<char>, now: i64) -> bool {
    &&& is_match_row(rows.match_row, m, region, now)
    &&& rows.teams@.len() == m.info.teams@.len()
    &&& forall|i: int|
            0 <= i < rows.teams@.len() ==> is_team_row(
                #[trigger] rows.teams@[i],
                m.metadata.match_id@,
                m.info.teams@[i],
            )
    &&& rows.bans@.map_values(|b: DbBan| ban_fields(b)) == all_real_bans(m.info.teams@)
    &&& forall|i: int|
            0 <= i < rows.bans@.len() ==> (#[trigger] rows.bans@[i]).match_id@ == m.metadata.match_id@
                && rows.bans@[i].id is None
    &&& rows.participants@.len() == m.info.participants@.len()
    &&& forall|i: int|
            0 <= i < rows.participants@.len() ==> is_participant_row(
                #[trigger] rows.participants@[i],
                m.metadata.match_id@,
                m.info.participants@[i],
            )
}

/// The rows of a fetched match: the match, one per team, one per real ban,
/// one per participant, all under the match's id.
pub fn match_rows(m: &MatchDto, region: &str, now_ms: i64) -> (r: MatchRows)
    ensures
        is_match_rows(r, *m, region@, now_ms),
{
    let id = &m.metadata.match_id;
    let mut teams: Vec<DbTeam> = Vec::new();
    let mut i: usize = 0;
    while i < m.info.teams.len()
        invariant
            i <= m.info.teams@.len(),
            teams@.len() == i,
            forall|k: int|
                0 <= k < i ==> is_team_row(#[trigger] teams@[k], m.metadata.match_id@, m.info.teams@[k]),
        decreases m.info.teams@.len() - i,
    {
        let row = team_row(&m.metadata.match_id, &m.info.teams[i]);
        let ghost before = teams@;
        teams.push(row);
        assert forall|k: int| 0 <= k < i + 1 implies is_team_row(
            #[trigger] teams@[k],
            m.metadata.match_id@,
            m.info.teams@[k],
        ) by {
            if k < i {
                assert(teams@[k] == before[k]);
            } else {
                assert(teams@[k] == row);
            }
        }
        i = i + 1;
    }
    let mut participants: Vec<DbParticipant> = Vec::new();
    let mut j: usize = 0;
    while j < m.info.participants.len()
        invariant
            j <= m.info.participants@.len(),
            participants@.len() == j,
            forall|k: int|
                0 <= k < j ==> is_participant_row(
                    #[trigger] participants@[k],
                    m.metadata.match_id@,
                    m.info.participants@[k],
                ),
        decreases m.info.participants@.len() - j,
    {
        let row = participant_row(&m.metadata.match_id, &m.info.participants[j]);
        let ghost before = participants@;
        participants.push(row);
        assert forall|k: int| 0 <= k < j + 1 implies is_participant_row(
            #[trigger] participants@[k],
            m.metadata.match_id@,
            m.info.participants@[k],
        ) by {
            if k < j {
                assert(participants@[k] == before[k]);
            } else {
                assert(participants@[k] == row);
            }
        }
        j = j + 1;
    }
    MatchRows {
        match_row: match_row(m, region, now_ms),
        teams,
        bans: ban_rows(id, &m.info.teams),
        participants,
    }
}

/// The participants of a match as discoveries, not yet checked against the store.
pub fn match_discoveries(m: &MatchDto) -> (r: Vec<Discovery>)
    ensures
        r@.len() == m.info.participants@.len(),
        forall|i: int|
            0 <= i < r@.len() ==> (#[trigger] r@[i]).puuid@ == m.info.participants@[i].puuid@
                && r@[i].summoner_name@ == m.info.participants@[i].summoner_name@ && !r@[i].known,
{
    let mut out: Vec<Discovery> = Vec::new();
    let mut i: usize = 0;
    while i < m.info.participants.len()
        invariant
            i <= m.info.participants@.len(),
            out@.len() == i,
            forall|k: int|
                0 <= k < i ==> (#[trigger] out@[k]).puuid@ == m.info.participants@[k].puuid@
                    && out@[k].summoner_name@ == m.info.participants@[k].summoner_name@
                    && !out@[k].known,
        decreases m.info.participants@.len() - i,
    {
        let p = &m.info.participants[i];
        out.push(Discovery { puuid: p.puuid.clone(), summoner_name: p.summoner_name.clone(), known: false });
        i = i + 1;
    }
    out
}

/// The first `n` characters of `s`, or all of it when it is shorter.
pub open spec fn head(s: Seq<char>, n: nat) -> Seq<char> {
    if s.len() <= n { s } else { s.subrange(0, n as int) }
}

fn head_text(s: &str, n: usize) -> (r: &str)
    ensures
        r@ == head(s@, n as nat),
{
    let len = s.unicode_len();
    if len <= n {
        proof {
            assert(s@.subrange(0, len as int) =~= s@);
        }
        s.substring_char(0, len)
    } else {
        s.substring_char(0, n)
    }
}

/// Whether `r` is the player row for profile `s` fetched in `region` at `now`.
pub open spec fn is_profile_row(r: DbSummoner, s: SummonerResponse, region: Seq<char>, now: i64) -> bool {
    &&& r.puuid@ == s.puuid@
    &&& r.summoner_id@ == (match s.id {
        Some(t) => t@,
        None => Seq::empty(),
    })
    &&& r.account_id@ == (match s.account_id {
        Some(t) => t@,
        None => Seq::empty(),
    })
    &&& r.summoner_name@ == (match s.name {
        Some(t) => t@,
        None => "Player_"@ + head(s.puuid@, 8),
    })
    &&& r.profile_icon_id == s.profile_icon_id as i32
    &&& r.summoner_level == s.summoner_level as i32
    &&& r.region@ == region
    &&& r.created_at == now
    &&& r.updated_at == now
}

/// The player row for a fetched profile: absent ids become empty, an absent
/// name becomes `Player_` and the first eight characters of the pid.
pub fn profile_row(summoner: &SummonerResponse, region: &str, now_ms: i64) -> (r: DbSummoner)
    ensures
        is_profile_row(r, *summoner, region@, now_ms),
{
    let summoner_id = match &summoner.id {
        Some(s) => s.clone(),
        None => String::new(),
    };
    let account_id = match &summoner.account_id {
        Some(s) => s.clone(),
        None => String::new(),
    };
    let summoner_name = match &summoner.name {
        Some(s) => s.clone(),
        None => {
            let mut n = String::from_str("Player_");
            n.append(head_text(summoner.puuid.as_str(), 8));
            n
        },
    };
    DbSummoner {
        puuid: summoner.puuid.clone(),
        summoner_id,
        account_id,
        summoner_name,
        profile_icon_id: summoner.profile_icon_id as i32,
        summoner_level: summoner.summoner_level as i32,
        region: String::from_str(region),
        created_at: now_ms,
        updated_at: now_ms,
    }
}

/// Whether some earlier discovery has the same pid and name as `d`.
pub open spec fn seen_pair(prefix: Seq<Discovery>, d: Discovery) -> bool {
    exists|i: int|
        0 <= i < prefix.len() && (#[trigger] prefix[i]).puuid@ == d.puuid@ && prefix[i].summoner_name@
            == d.summoner_name@
}

/// The discoveries that become tasks: those the store does not know, each
/// (pid, name) pair once, in the order first seen.
pub open spec fn fresh_discoveries(ds: Seq<Discovery>) -> Seq<Discovery>
    decreases ds.len(),
{
    if ds.len() == 0 {
        Seq::empty()
    } else if !ds.last().known && !seen_pair(ds.drop_last(), ds.last()) {
        fresh_discoveries(ds.drop_last()).push(ds.last())
    } else {
        fresh_discoveries(ds.drop_last())
    }
}

/// Whether `t` is the task made for player `pid` named `name`.
pub open spec fn is_task_for(
    t: SummonerTask,
    pid: Seq<char>,
    name: Seq<char>,
    region: Seq<char>,
    priority: SummonerPriority,
    added_at: i64,
) -> bool {
    &&& t.puuid@ == pid
    &&& t.summoner_name@ == name
    &&& t.region@ == region
    &&& t.priority == priority
    &&& t.added_at == added_at
    &&& t.retries == 0
}

fn seen_before(found: &Vec<Discovery>, i: usize) -> (r: bool)
    requires
        i < found@.len(),
    ensures
        r == seen_pair(found@.subrange(0, i as int), found@[i as int]),
{
    let ghost prefix = found@.subrange(0, i as int);
    let mut k: usize = 0;
    while k < i
        invariant
            k <= i,
            i < found@.len(),
            prefix == found@.subrange(0, i as int),
            forall|m: int|
                0 <= m < k ==> !((#[trigger] prefix[m]).puuid@ == found@[i as int].puuid@
                    && prefix[m].summoner_name@ == found@[i as int].summoner_name@),
        decreases i - k,
    {
        if found[k].puuid == found[i].puuid && found[k].summoner_name == found[i].summoner_name {
            assert(prefix[k as int] == found@[k as int]);
            return true;
        }
        assert(prefix[k as int] == found@[k as int]);
        k = k + 1;
    }
    false
}

/// New Low-priority tasks for the participants the store does not know yet,
/// in the region of the task that found them.
pub fn discovered_tasks(found: &Vec<Discovery>, region: &str, added_at: i64) -> (r: Vec<SummonerTask>)
    ensures
        r@.len() == fresh_discoveries(found@).len(),
        forall|i: int|
            0 <= i < r@.len() ==> is_task_for(
                #[trigger] r@[i],
                fresh_discoveries(found@)[i].puuid@,
                fresh_discoveries(found@)[i].summoner_name@,
                region@,
                SummonerPriority::Low,
                added_at,
            ),
{
    let mut out: Vec<SummonerTask> = Vec::new();
    let mut i: usize = 0;
    while i < found.len()
        invariant
            i <= found@.len(),
            out@.len() == fresh_discoveries(found@.subrange(0, i as int)).len(),
            forall|k: int|
                0 <= k < out@.len() ==> is_task_for(
                    #[trigger] out@[k],
                    fresh_discoveries(found@.subrange(0, i as int))[k].puuid@,
                    fresh_discoveries(found@.subrange(0, i as int))[k].summoner_name@,
                    region@,
                    SummonerPriority::Low,
                    added_at,
                ),
        decreases found@.len() - i,
    {
        let ghost next = found@.subrange(0, i + 1);
        assert(next.drop_last() =~= found@.subrange(0, i as int));
        assert(next.last() == found@[i as int]);
        let seen = seen_before(found, i);
        if !found[i].known && !seen {
            let t = SummonerTask {
                puuid: found[i].puuid.clone(),
                summoner_name: found[i].summoner_name.clone(),
                region: String::from_str(region),
                priority: SummonerPriority::Low,
                added_at,
                retries: 0,
            };
            out.push(t);
        }
        i = i + 1;
    }
    assert(found@.subrange(0, i as int) =~= found@);
    out
}

/// The player row to store after a profile fetch; a failed fetch stores
/// nothing and the task goes on with the match history.
pub fn profile_outcome(fetched: Result<SummonerResponse, ApiError>, region: &str, now_ms: i64) -> (r:
    Option<DbSummoner>)
    ensures
        fetched is Err ==> r is None,
        fetched matches Ok(p) ==> (r matches Some(row) && is_profile_row(row, p, region@, now_ms)),
{
    match fetched {
        Ok(p) => Some(profile_row(&p, region, now_ms)),
        Err(_) => None,
    }
}

/// The match ids still to fetch: those not stored yet, each once, in the order listed.
pub open spec fn wanted_matches(ids: Seq<Seq<char>>, stored: Seq<bool>) -> Seq<Seq<char>>
    decreases ids.len(),
{
    if ids.len() == 0 {
        Seq::empty()
    } else {
        let rest = wanted_matches(ids.drop_last(), stored.drop_last());
        if !stored[ids.len() - 1] && !ids.drop_last().contains(ids.last()) {
            rest.push(ids.last())
        } else {
            rest
        }
    }
}

/// Picks the listed matches to fetch: a match already stored is skipped, and
/// an id listed twice is fetched once. `stored[i]` tells whether `ids[i]` is stored.
pub fn matches_to_fetch(ids: &Vec<String>, stored: &Vec<bool>) -> (r: Vec<String>)
    requires
        ids@.len() == stored@.len(),
    ensures
        r@.map_values(|t: String| t@) == wanted_matches(ids@.map_values(|t: String| t@), stored@),
{
    let ghost all = ids@.map_values(|t: String| t@);
    let mut out: Vec<String> = Vec::new();
    let mut i: usize = 0;
    while i < ids.len()
        invariant
            i <= ids@.len(),
            ids@.len() == stored@.len(),
            all == ids@.map_values(|t: String| t@),
            out@.map_values(|t: String| t@) == wanted_matches(
                all.subrange(0, i as int),
                stored@.subrange(0, i as int),
            ),
        decreases ids@.len() - i,
    {
        let ghost pre = all.subrange(0, i as int);
        assert(all.subrange(0, i + 1).drop_last() =~= pre);
        assert(stored@.subrange(0, i + 1).drop_last() =~= stored@.subrange(0, i as int));
        assert(all[i as int] == ids@[i as int]@);
        let mut seen = false;
        let mut k: usize = 0;
        while k < i
            invariant
                k <= i,
                i < ids@.len(),
                all == ids@.map_values(|t: String| t@),
                pre == all.subrange(0, i as int),
                seen == (exists|q: int| 0 <= q < k && pre[q] == all[i as int]),
            decreases i - k,
        {
            if ids[k] == ids[i] {
                assert(pre[k as int] == all[i as int]);
                seen = true;
            }
            k = k + 1;
        }
        assert(seen == pre.contains(all[i as int]));
        if !stored[i] && !seen {
            let ghost before = out@;
            out.push(ids[i].clone());
            assert(out@.map_values(|t: String| t@) =~= before.map_values(|t: String| t@).push(
                all[i as int],
            ));
        }
        i = i + 1;
    }
    assert(all.subrange(0, i as int) =~= all);
    assert(stored@.subrange(0, i as int) =~= stored@);
    out
}

/// The rows to write and the participants found after a match fetch; a
/// failed fetch skips that match only.
pub fn match_outcome(fetched: Result<MatchDto, ApiError>, region: &str, now_ms: i64) -> (r: Option<
    (MatchRows, Vec<Discovery>),
>)
    ensures
        fetched is Err ==> r is None,
        fetched matches Ok(m) ==> (r matches Some(out) && is_match_rows(out.0, m, region@, now_ms)
            && out.1@.len() == m.info.participants@.len() && forall|i: int|
            0 <= i < out.1@.len() ==> (#[trigger] out.1@[i]).puuid@ == m.info.participants@[i].puuid@
                && out.1@[i].summoner_name@ == m.info.participants@[i].summoner_name@
                && !out.1@[i].known),
{
    match fetched {
        Ok(m) => Some((match_rows(&m, region, now_ms), match_discoveries(&m))),
        Err(_) => None,
    }
}

} // verus!

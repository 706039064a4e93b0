use prox_casino::models::player::{OfflinePlayer, Timestamp};
use prox_casino::network::client::OnlineClient;
use prox_casino::services::save::SaveService;
use prox_casino::storage::local::{join_path, SaveData, SaveStore};

fn at(secs: i64) -> Timestamp {
    Timestamp { secs, nanos: 0 }
}

#[test]
fn a_fresh_player_can_claim_the_daily_bonus() {
    let p = OfflinePlayer::default();
    assert_eq!(p.name, "Player");
    assert_eq!(p.chips, 100_000);
    assert!(p.can_claim_daily());
}

#[test]
fn the_daily_bonus_waits_for_the_next_utc_day() {
    let mut p = OfflinePlayer::default();
    let noon = at(19_000 * 86_400 + 43_200);
    assert!(p.claim_daily_bonus_at(noon));
    assert_eq!(p.chips, 150_000);
    assert!(!p.claim_daily_bonus_at(at(19_000 * 86_400 + 86_399)));
    assert_eq!(p.chips, 150_000);
    assert!(p.can_claim_daily_at(at(19_001 * 86_400)));
    assert!(p.claim_daily_bonus_at(at(19_001 * 86_400 + 1)));
    assert_eq!(p.chips, 200_000);
}

#[test]
fn days_before_the_epoch_count_too() {
    let mut p = OfflinePlayer::default();
    assert!(p.claim_daily_bonus_at(at(-1)));
    assert!(!p.claim_daily_bonus_at(at(-86_400)));
    assert!(p.claim_daily_bonus_at(at(0)));
}

#[test]
fn a_claim_now_is_recorded() {
    let mut p = OfflinePlayer::default();
    assert!(p.claim_daily_bonus());
    assert!(p.last_daily_claim.is_some());
    assert!(!p.can_claim_daily());
}

#[test]
fn the_save_lives_in_its_own_folder() {
    assert_eq!(SaveStore::folder("/home/ada/.local/share"), "/home/ada/.local/share/prox-casino");
    let s = SaveStore::in_dir("/home/ada/.local/share/");
    assert_eq!(s.path(), "/home/ada/.local/share/prox-casino/offline_save.json");
    assert_eq!(s.temp_path(), "/home/ada/.local/share/prox-casino/offline_save.json.tmp");
    assert_eq!(join_path("", "a"), "a");
    assert_eq!(join_path(".", "a"), "./a");
    let svc = SaveService::new(SaveStore::in_dir("."));
    assert_eq!(svc.path(), "./prox-casino/offline_save.json");
    assert_eq!(svc.store().path(), "./prox-casino/offline_save.json");
}

#[test]
fn a_default_save_starts_fresh() {
    let d = SaveData::default();
    assert_eq!(d.player.chips, 100_000);
    assert_eq!(d.version, "0.1.0");
    assert_eq!(d.stats.games_played, 0);
    assert!(d.stats.session_history.is_empty());
}

#[test]
fn the_online_client_stays_offline() {
    let mut c = OnlineClient::default();
    assert!(!c.is_connected());
    c.connect("wss://example.invalid");
    assert!(!c.is_connected());
    assert!(c.next_event().is_none());
}

#[test]
fn a_claim_on_the_last_datable_day_closes_the_bonus() {
    let mut p = OfflinePlayer::default();
    p.last_daily_claim = Some(at(8_210_266_876_799));
    assert!(!p.can_claim_daily());
    assert!(!p.claim_daily_bonus());
    assert_eq!(p.chips, 100_000);
}

#[test]
fn chronos_first_day_is_a_day_like_any_other() {
    let mut p = OfflinePlayer::default();
    p.last_daily_claim = Some(at(-8_334_601_228_800));
    assert!(!p.can_claim_daily_at(at(-8_334_601_228_800 + 86_399)));
    assert!(p.can_claim_daily_at(at(-8_334_601_228_800 + 86_400)));
}

#[test]
fn a_leap_second_lies_on_its_day() {
    let mut p = OfflinePlayer::default();
    p.last_daily_claim = Some(Timestamp { secs: 86_399, nanos: 1_500_000_000 });
    assert!(!p.can_claim_daily_at(at(1)));
    assert!(p.can_claim_daily_at(at(86_400)));
}

#[test]
fn a_claim_beyond_the_calendar_is_let_through() {
    let mut p = OfflinePlayer::default();
    p.last_daily_claim = Some(at(-8_334_601_228_801));
    assert!(p.can_claim_daily_at(at(0)));
    p.last_daily_claim = Some(Timestamp { secs: 100, nanos: 1_500_000_000 });
    assert!(p.can_claim_daily_at(at(0)));
}

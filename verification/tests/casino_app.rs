use prox_casino::app::{with_session, App, Key, Note, View};
use prox_casino::games::blackjack::{Card, PlayState, Suit};
use prox_casino::models::mode::Mode;
use prox_casino::models::stats::SessionSummary;
use prox_casino::storage::local::SaveData;

fn fresh() -> App {
    App::new(SaveData::default(), "/tmp/offline_save.json")
}

fn last_text(app: &App) -> String {
    match app.notes.last() {
        Some(Note::Text(s)) => s.clone(),
        _ => String::new(),
    }
}

fn press(app: &mut App, keys: &str) {
    for c in keys.chars() {
        app.on_key(Key::Char(c));
    }
}

#[test]
fn a_new_casino_opens_on_the_dashboard() {
    let app = fresh();
    assert!(app.running);
    assert_eq!(app.view, View::Dashboard);
    assert_eq!(app.mode, Mode::Offline);
    assert_eq!(app.notes.len(), 1);
    assert_eq!(last_text(&app), "Loaded: /tmp/offline_save.json");
    assert_eq!(app.name_input, "Player");
    assert_eq!(app.session_start_chips, 100_000);
    assert!(!app.save_pending);
}

#[test]
fn number_keys_switch_screens_and_q_quits() {
    let mut app = fresh();
    app.on_key(Key::Char('3'));
    assert_eq!(app.view, View::Slots);
    assert_eq!(app.dashboard_cursor, 1);
    app.on_key(Key::Char('2'));
    assert_eq!(app.view, View::Blackjack);
    assert_eq!(app.dashboard_cursor, 0);
    app.on_key(Key::Char('4'));
    assert_eq!(app.view, View::Online);
    app.on_key(Key::Char('1'));
    assert_eq!(app.view, View::Dashboard);
    app.on_key(Key::Char('n'));
    assert_eq!(app.mode, Mode::Online);
    assert_eq!(last_text(&app), "Online");
    app.on_key(Key::Char('q'));
    assert!(!app.running);
}

#[test]
fn the_dashboard_cursor_wraps_around() {
    let mut app = fresh();
    app.on_key(Key::Up);
    assert_eq!(app.dashboard_cursor, 2);
    app.on_key(Key::Down);
    assert_eq!(app.dashboard_cursor, 0);
    app.on_key(Key::Down);
    app.on_key(Key::Enter);
    assert_eq!(app.view, View::Slots);
    assert_eq!(last_text(&app), "Slots");
    app.on_key(Key::Esc);
    assert_eq!(app.view, View::Dashboard);
    assert_eq!(last_text(&app), "Dashboard");
}

#[test]
fn the_feed_keeps_the_last_six_lines() {
    let mut app = fresh();
    press(&mut app, "onononon");
    assert_eq!(app.notes.len(), 6);
    assert_eq!(last_text(&app), "Online");
    match &app.notes[0] {
        Note::Text(s) => assert_eq!(s, "Offline"),
        _ => panic!("a text line"),
    }
}

#[test]
fn the_help_page_opens_and_closes() {
    let mut app = fresh();
    app.on_key(Key::Char('r'));
    assert!(app.help_modal.visible);
    assert_eq!(app.help_modal.title, "Developer Note");
    app.on_key(Key::Char('2'));
    assert_eq!(app.view, View::Dashboard);
    app.on_key(Key::Esc);
    assert!(!app.help_modal.visible);
    app.on_key(Key::Char('2'));
    app.on_key(Key::Char('R'));
    assert_eq!(app.help_modal.title, "Blackjack Rules");
    assert!(app.help_modal.body.contains("Soft 17 is hit. Hard 17 stands."));
}

#[test]
fn the_name_is_trimmed_and_cut_to_eighteen() {
    let mut app = fresh();
    app.on_key(Key::Char('e'));
    assert!(app.editing_name);
    assert_eq!(last_text(&app), "Editing offline name");
    for _ in 0..6 {
        app.on_key(Key::Backspace);
    }
    assert_eq!(app.name_input, "");
    press(&mut app, "  Ada Lovelace  ");
    app.on_key(Key::Char('\u{7}'));
    assert_eq!(app.name_input, "  Ada Lovelace  ");
    app.on_key(Key::Enter);
    assert!(!app.editing_name);
    assert_eq!(app.data.player.name, "Ada Lovelace");
    assert_eq!(last_text(&app), "Name: Ada Lovelace");
    assert!(app.save_pending);
    app.on_key(Key::Char('e'));
    press(&mut app, "xxxxxxxxxxxxxxxxxxxxxxxx");
    assert_eq!(app.name_input.chars().count(), 18);
    app.on_key(Key::Esc);
    assert_eq!(app.name_input, "Ada Lovelace");
    assert_eq!(last_text(&app), "Name edit cancelled");
}

#[test]
fn a_blank_name_leaves_the_name_as_it_was() {
    let mut app = fresh();
    app.on_key(Key::Char('E'));
    for _ in 0..6 {
        app.on_key(Key::Backspace);
    }
    press(&mut app, "   ");
    app.on_key(Key::Enter);
    assert_eq!(app.data.player.name, "Player");
    assert_eq!(last_text(&app), "Name unchanged");
    assert!(!app.save_pending);
}

#[test]
fn the_daily_bonus_is_paid_once() {
    let mut app = fresh();
    app.on_key(Key::Char('d'));
    assert_eq!(app.data.player.chips, 150_000);
    assert!(app.data.player.last_daily_claim.is_some());
    assert!(matches!(app.notes.last(), Some(Note::DailyBonus(50_000))));
    assert!(app.save_pending);
    app.on_key(Key::Char('D'));
    assert_eq!(app.data.player.chips, 150_000);
    assert_eq!(last_text(&app), "Daily done");
}

#[test]
fn a_deal_books_the_bet() {
    let mut app = fresh();
    app.on_key(Key::Char('2'));
    app.bj.deck = vec![
        Card { rank: 10, suit: Suit::Spades },
        Card { rank: 8, suit: Suit::Clubs },
        Card { rank: 7, suit: Suit::Hearts },
        Card { rank: 9, suit: Suit::Diamonds },
    ];
    app.on_key(Key::Left);
    assert_eq!(app.bj.bet, 9_000);
    app.on_key(Key::Char(' '));
    assert_eq!(app.bj.state, PlayState::PlayerTurn);
    assert!(!app.bj.reveal);
    assert_eq!(app.bj.dealer.len(), 2);
    assert_eq!(app.data.stats.total_bet, 9_000);
    assert_eq!(app.data.stats.highest_bet, 9_000);
    assert!(matches!(app.notes.last(), Some(Note::BetPlaced(9_000))));
    assert_eq!(app.data.player.chips, 100_000);
}

#[test]
fn a_finished_round_is_paid_once() {
    let mut app = fresh();
    app.on_key(Key::Char('2'));
    app.bj.deck = vec![
        Card { rank: 10, suit: Suit::Clubs },
        Card { rank: 6, suit: Suit::Spades },
        Card { rank: 7, suit: Suit::Clubs },
        Card { rank: 10, suit: Suit::Hearts },
        Card { rank: 10, suit: Suit::Diamonds },
    ];
    app.on_key(Key::Enter);
    assert_eq!(app.bj.state, PlayState::PlayerTurn);
    app.on_key(Key::Char('s'));
    assert_eq!(app.bj.state, PlayState::DealerTurn);
    let mut frames = 0;
    while !app.bj.settled && frames < 100 {
        app.tick();
        frames += 1;
    }
    assert!(app.bj.settled);
    assert_eq!(app.data.player.chips, 110_000);
    assert_eq!(app.data.stats.blackjack_wins, 1);
    assert_eq!(app.data.stats.games_played, 1);
    assert_eq!(app.data.stats.dealer_bust_count, 1);
    assert_eq!(app.data.stats.total_won, 10_000);
    assert_eq!(app.data.stats.biggest_win, 10_000);
    assert_eq!(app.data.stats.blackjack_best_streak, 1);
    assert!(matches!(app.notes.last(), Some(Note::HandWon(10_000))));
    assert_eq!(app.bj.anim.as_ref().map(|a| a.flash), Some(24));
    app.tick();
    assert_eq!(app.data.player.chips, 110_000);
    assert_eq!(app.data.stats.games_played, 1);
}

#[test]
fn a_spin_is_paid_up_front_and_counted_when_it_settles() {
    let mut app = fresh();
    app.on_key(Key::Char('3'));
    app.on_key(Key::Char(' '));
    assert!(app.slots.state.spinning);
    assert_eq!(app.data.player.chips, 95_000);
    assert_eq!(app.data.stats.total_bet, 5_000);
    assert!(matches!(app.notes.last(), Some(Note::SpinStarted(5_000))));
    app.on_key(Key::Char('m'));
    assert_eq!(last_text(&app), "Stop spin/auto before machine swap");
    let mut frames = 0;
    while app.slots.state.spinning && frames < 100 {
        app.tick();
        frames += 1;
    }
    assert!(!app.slots.state.spinning);
    assert_eq!(app.data.stats.slots_spins, 1);
    assert_eq!(app.data.stats.games_played, 1);
    let symbols = app.data.stats.cherry_matches
        + app.data.stats.lemon_matches
        + app.data.stats.bell_matches
        + app.data.stats.seven_matches
        + app.data.stats.diamond_matches;
    assert_eq!(symbols, 9);
    let payout = app.slots.state.last_payout;
    assert_eq!(app.data.player.chips, 95_000 + payout);
    assert!(app.save_pending);
}

#[test]
fn auto_spins_run_ten_times() {
    let mut app = fresh();
    app.on_key(Key::Char('3'));
    app.on_key(Key::Char('a'));
    assert_eq!(app.slots.state.auto_spin_total, 10);
    assert_eq!(app.slots.state.auto_spin_remaining, 9);
    assert!(app.slots.state.spinning);
    let mut frames = 0;
    while (app.slots.state.spinning || app.slots.state.auto_spin_remaining > 0) && frames < 2_000 {
        app.tick();
        frames += 1;
    }
    assert_eq!(app.data.stats.slots_spins, 10);
    assert_eq!(app.data.stats.total_bet, 50_000);
}

#[test]
fn the_machine_key_cycles_the_lobby() {
    let mut app = fresh();
    app.on_key(Key::Char('3'));
    app.on_key(Key::Char('M'));
    assert_eq!(app.slots.state.reel_count, 5);
    assert_eq!(last_text(&app), "Machine: Cyber Slots");
}

#[test]
fn a_save_is_written_eight_frames_after_it_is_asked_for() {
    let mut app = fresh();
    app.on_key(Key::Char('o'));
    app.on_key(Key::Char('e'));
    app.on_key(Key::Char('!'));
    app.on_key(Key::Enter);
    assert!(app.save_pending);
    for _ in 0..8 {
        assert!(!app.tick());
    }
    assert!(app.tick());
    assert!(!app.save_pending);
    assert!(!app.tick());
}

#[test]
fn the_history_keeps_the_last_ten_sessions() {
    let mut data = SaveData::default();
    for i in 0..12u64 {
        data.player.chips = 100_000 + i as i64;
        data = with_session(data, 100_000, format!("day {i}"), i * 60);
    }
    let h = &data.stats.session_history;
    assert_eq!(h.len(), 10);
    assert_eq!(h[0].date, "day 2");
    assert_eq!(h[9].date, "day 11");
    assert_eq!(h[9].net_change, 11);
    assert_eq!(h[9].duration_seconds, 660);
    let mut loser = SaveData::default();
    loser.player.chips = 40_000;
    let loser = with_session(loser, 100_000, String::from("d"), 5);
    let s: &SessionSummary = &loser.stats.session_history[0];
    assert_eq!(s.net_change, -60_000);
    assert_eq!(s.biggest_loss, 60_000);
    assert_eq!(s.ending_chips, 40_000);
}

#[test]
fn room_is_checked_before_a_frame() {
    let mut app = fresh();
    assert!(app.has_room());
    app.data.stats.games_played = u64::MAX;
    assert!(!app.has_room());
}

#[test]
fn a_doubled_loss_costs_twice_the_bet() {
    let mut app = fresh();
    app.on_key(Key::Char('2'));
    app.bj.deck = vec![
        Card { rank: 2, suit: Suit::Clubs },
        Card { rank: 9, suit: Suit::Spades },
        Card { rank: 6, suit: Suit::Clubs },
        Card { rank: 10, suit: Suit::Hearts },
        Card { rank: 5, suit: Suit::Diamonds },
    ];
    app.on_key(Key::Enter);
    assert_eq!(app.bj.state, PlayState::PlayerTurn);
    app.on_key(Key::Char('d'));
    assert_eq!(app.data.player.chips, 100_000);
    assert_eq!(app.data.stats.total_bet, 20_000);
    assert_eq!(app.bj.state, PlayState::RoundOver);
    app.tick();
    assert!(app.bj.settled);
    assert_eq!(app.data.player.chips, 80_000);
    assert!(matches!(app.notes.last(), Some(Note::HandLost(20_000))));
}

#[test]
fn the_daily_key_needs_room_in_the_chips() {
    let mut app = fresh();
    assert!(app.has_room_for(Key::Char('d')));
    app.data.player.chips = i64::MAX - 10;
    assert!(!app.has_room_for(Key::Char('d')));
    app.slots.state.display_chips = i64::MAX - 20;
    assert!(app.has_room());
    assert!(app.has_room_for(Key::Char('q')));
    app.slots.state.display_chips = -11;
    assert!(!app.has_room());
}

use prox_casino::games::blackjack::{AnimState, Card, Hand, Outcome, Suit};
use prox_casino::games::slots::MachineType;
use prox_casino::security::SecurityLevel;
use prox_casino::ui::animations::{pulse_frames, slot_reel_frames, spinner_frames};
use prox_casino::ui::screens::blackjack::{
    any_outcome, banner_art, card_value_single, dealer_value_display, flash_outcome,
    round_banner_title,
};
use prox_casino::ui::screens::dashboard::{format_duration, level_icon};
use prox_casino::ui::screens::slots::{celebration_text, machine_profile};
use prox_casino::utils::chip_format::format_chips_long;
use prox_casino::utils::numtext::{decimal_string, signed_decimal_string, two_digit_string};

fn card(rank: u8, suit: Suit) -> Card {
    Card { rank, suit }
}

fn settled(outcome: Option<Outcome>) -> Hand {
    Hand { cards: vec![], bet: 1_000, done: true, doubled: false, outcome }
}

#[test]
fn long_chip_amounts_group_thousands() {
    assert_eq!(format_chips_long(0), "0");
    assert_eq!(format_chips_long(999), "999");
    assert_eq!(format_chips_long(1_000), "1,000");
    assert_eq!(format_chips_long(100_000), "100,000");
    assert_eq!(format_chips_long(1_234_567), "1,234,567");
    assert_eq!(format_chips_long(-1_234_567), "-1,234,567");
    assert_eq!(format_chips_long(-5), "-5");
    assert_eq!(format_chips_long(i64::MIN), "-9,223,372,036,854,775,808");
    assert_eq!(format_chips_long(i64::MAX), "9,223,372,036,854,775,807");
}

#[test]
fn numbers_print_in_decimal() {
    assert_eq!(decimal_string(0), "0");
    assert_eq!(decimal_string(u64::MAX), "18446744073709551615");
    assert_eq!(signed_decimal_string(-42), "-42");
    assert_eq!(signed_decimal_string(i64::MIN), "-9223372036854775808");
    assert_eq!(two_digit_string(7), "07");
    assert_eq!(two_digit_string(42), "42");
}

#[test]
fn durations_print_as_clock_time() {
    assert_eq!(format_duration(0), "00:00");
    assert_eq!(format_duration(59), "00:59");
    assert_eq!(format_duration(61), "01:01");
    assert_eq!(format_duration(3_600), "01:00:00");
    assert_eq!(format_duration(3_725), "01:02:05");
    assert_eq!(format_duration(360_000), "100:00:00");
}

#[test]
fn levels_follow_the_chips() {
    assert_eq!(level_icon(0), ("LVL 01", "Bronze"));
    assert_eq!(level_icon(99_999), ("LVL 01", "Bronze"));
    assert_eq!(level_icon(100_000), ("LVL 03", "Gold"));
    assert_eq!(level_icon(1_000_000), ("LVL 06", "Diamond"));
    assert_eq!(level_icon(10_000_000), ("LVL 10", "Royal"));
    assert_eq!(level_icon(100_000_000), ("LVL 15", "High Roller"));
    assert_eq!(level_icon(-5), ("LVL 01", "Bronze"));
}

#[test]
fn the_house_line_hides_the_hole_card_until_revealed() {
    let dealer = [card(12, Suit::Hearts), card(1, Suit::Spades)];
    assert_eq!(dealer_value_display(&dealer, false), "  SHOWING: Q");
    assert_eq!(dealer_value_display(&dealer, true), "  HOUSE: 21  BLACKJACK");
    let bust = [card(10, Suit::Hearts), card(6, Suit::Spades), card(9, Suit::Clubs)];
    assert_eq!(dealer_value_display(&bust, true), "  HOUSE: 25  BUST");
    let plain = [card(10, Suit::Hearts), card(7, Suit::Spades)];
    assert_eq!(dealer_value_display(&plain, true), "  HOUSE: 17");
    let three = [card(7, Suit::Hearts), card(7, Suit::Spades), card(7, Suit::Clubs)];
    assert_eq!(dealer_value_display(&three, true), "  HOUSE: 21");
}

#[test]
fn card_labels_print_the_rank() {
    assert_eq!(card_value_single(&card(1, Suit::Hearts)), "A");
    assert_eq!(card_value_single(&card(7, Suit::Hearts)), "7");
    assert_eq!(card_value_single(&card(10, Suit::Hearts)), "10");
    assert_eq!(card_value_single(&card(11, Suit::Hearts)), "J");
    assert_eq!(card_value_single(&card(13, Suit::Hearts)), "K");
}

#[test]
fn the_round_banner_ranks_the_outcomes() {
    assert_eq!(round_banner_title(&[settled(Some(Outcome::Win)), settled(Some(Outcome::Blackjack))]), "BLACKJACK");
    assert_eq!(round_banner_title(&[settled(Some(Outcome::Win)), settled(Some(Outcome::Lose))]), "MIXED ROUND");
    assert_eq!(round_banner_title(&[settled(Some(Outcome::Win))]), "YOU WIN");
    assert_eq!(round_banner_title(&[settled(Some(Outcome::Lose))]), "HOUSE WINS");
    assert_eq!(round_banner_title(&[settled(Some(Outcome::Push))]), "PUSH");
    assert_eq!(round_banner_title(&[settled(None)]), "ROUND OVER");
    assert!(any_outcome(&[settled(Some(Outcome::Push))], Outcome::Push));
    assert!(!any_outcome(&[], Outcome::Push));
    assert_eq!(banner_art("PUSH").len(), banner_art("BLACKJACK").len());
    assert!(!banner_art("YOU WIN").is_empty());
}

#[test]
fn the_cards_flash_in_beats() {
    assert_eq!(flash_outcome(&None), None);
    assert_eq!(flash_outcome(&Some(AnimState { flash: 0, kind: Outcome::Win })), None);
    assert_eq!(flash_outcome(&Some(AnimState { flash: 4, kind: Outcome::Win })), Some(Outcome::Win));
    assert_eq!(flash_outcome(&Some(AnimState { flash: 3, kind: Outcome::Win })), None);
    assert_eq!(flash_outcome(&Some(AnimState { flash: 15, kind: Outcome::Lose })), Some(Outcome::Lose));
}

#[test]
fn slot_texts() {
    assert_eq!(celebration_text(100), "=== ULTRA JACKPOT ===");
    assert_eq!(celebration_text(50), "=== MEGA WIN ===");
    assert_eq!(celebration_text(20), "=== JACKPOT HIT ===");
    assert_eq!(celebration_text(3), "=== WIN ===");
    assert_eq!(machine_profile(MachineType::Cyber), ("5 reels | wild-heavy", "longer lines and bonus chases"));
    assert_eq!(machine_profile(MachineType::Classic).0, "3 reels | calm spread");
}

#[test]
fn animation_frames() {
    assert_eq!(spinner_frames(), ["[=   ]", "[==  ]", "[=== ]", "[====]"]);
    assert_eq!(pulse_frames(), ["#", "=", "-", "."]);
    assert_eq!(slot_reel_frames().len(), 12);
    assert_eq!(slot_reel_frames()[0], "[>         ]");
}

#[test]
fn only_the_online_level_is_authoritative() {
    assert!(SecurityLevel::Online.is_authoritative());
    assert!(!SecurityLevel::Offline.is_authoritative());
}

#[test]
fn long_chip_amounts_read_back() {
    for a in [0i64, 7, 999, 1_000, 12_345, -1_000_000, 987_654_321, i64::MIN, i64::MAX] {
        let r = format_chips_long(a);
        assert_eq!(r.replace(',', "").parse::<i128>(), Ok(a as i128));
        assert_eq!(r.starts_with('-'), a < 0);
    }
}

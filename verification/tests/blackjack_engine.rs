use prox_casino::games::blackjack::{
    hand_value, is_soft, rank_char, BlackjackEngine, Card, Hand, Outcome, PlayState, Suit,
};

fn card(rank: u8, suit: Suit) -> Card {
    Card { rank, suit }
}

fn hand(cards: Vec<Card>, bet: i64) -> Hand {
    Hand { cards, bet, done: false, doubled: false, outcome: None }
}

#[test]
fn initial_deal_gives_two_cards_to_player_and_dealer() {
    let mut game = BlackjackEngine::new();
    game.bet = 10_000;
    game.deck = vec![
        card(10, Suit::Spades),
        card(8, Suit::Clubs),
        card(7, Suit::Hearts),
        card(9, Suit::Diamonds),
    ];

    assert!(game.deal(100_000));
    assert_eq!(game.hands.len(), 1);
    assert_eq!(game.hands[0].cards.len(), 2);
    assert_eq!(game.dealer.len(), 2);
    assert_eq!(game.hands[0].cards[0].rank, 9);
    assert_eq!(game.hands[0].cards[1].rank, 8);
    assert_eq!(game.dealer[0].rank, 7);
    assert_eq!(game.dealer[1].rank, 10);
}

#[test]
fn split_sets_split_turn_instead_of_returning_early() {
    let mut game = BlackjackEngine::new();
    game.bet = 10_000;
    game.state = PlayState::PlayerTurn;
    game.active = 0;
    game.hands = vec![Hand {
        cards: vec![card(8, Suit::Hearts), card(8, Suit::Spades)],
        bet: 10_000,
        done: false,
        doubled: false,
        outcome: None,
    }];
    game.deck = vec![card(6, Suit::Clubs), card(5, Suit::Diamonds)];

    let extra = game.split(100_000);

    assert_eq!(extra, 10_000);
    assert_eq!(game.hands.len(), 2);
    assert_eq!(game.state, PlayState::SplitTurn { hand_idx: 0 });
    assert_eq!(game.hands[0].cards.len(), 2);
    assert_eq!(game.hands[1].cards.len(), 2);
}

#[test]
fn double_down_adds_one_card_and_returns_extra_bet() {
    let mut game = BlackjackEngine::new();
    game.state = PlayState::PlayerTurn;
    game.active = 0;
    game.hands = vec![Hand {
        cards: vec![card(5, Suit::Hearts), card(6, Suit::Spades)],
        bet: 10_000,
        done: false,
        doubled: false,
        outcome: None,
    }];
    game.dealer = vec![card(10, Suit::Diamonds), card(9, Suit::Clubs)];
    game.deck = vec![card(10, Suit::Hearts)];

    let extra = game.double_down(100_000);

    assert_eq!(extra, 10_000);
    assert_eq!(game.hands[0].cards.len(), 3);
    assert!(game.hands[0].doubled);
}

#[test]
fn aces_count_one_or_eleven_whichever_fits() {
    assert_eq!(hand_value(&[card(1, Suit::Spades), card(13, Suit::Hearts)]), 21);
    assert_eq!(hand_value(&[card(1, Suit::Spades), card(1, Suit::Hearts), card(9, Suit::Clubs)]), 21);
    assert_eq!(
        hand_value(&[card(1, Suit::Spades), card(1, Suit::Hearts), card(13, Suit::Clubs), card(9, Suit::Clubs)]),
        21
    );
    assert_eq!(hand_value(&[card(13, Suit::Spades), card(12, Suit::Hearts), card(5, Suit::Clubs)]), 25);
    assert_eq!(hand_value(&[card(11, Suit::Spades), card(12, Suit::Hearts)]), 20);
    assert_eq!(hand_value(&[]), 0);
}

#[test]
fn soft_hands_keep_an_ace_at_eleven() {
    assert!(is_soft(&[card(1, Suit::Spades), card(6, Suit::Hearts)]));
    assert!(!is_soft(&[card(1, Suit::Spades), card(6, Suit::Hearts), card(10, Suit::Clubs)]));
    assert!(!is_soft(&[card(10, Suit::Spades), card(7, Suit::Hearts)]));
}

#[test]
fn card_labels() {
    assert_eq!(card(1, Suit::Hearts).suit_char(), "♥");
    assert_eq!(card(1, Suit::Spades).suit_char(), "♠");
    assert_eq!(rank_char(1), "A");
    assert_eq!(rank_char(10), "10");
    assert_eq!(rank_char(11), "J");
    assert_eq!(rank_char(13), "K");
}

#[test]
fn hand_queries() {
    let h = hand(vec![card(1, Suit::Spades), card(13, Suit::Hearts)], 1_000);
    assert!(h.is_blackjack());
    assert!(!h.is_bust());
    assert_eq!(h.value(), 21);
    let pair = hand(vec![card(8, Suit::Spades), card(8, Suit::Hearts)], 1_000);
    assert!(pair.can_split(2_000));
    assert!(!pair.can_split(1_999));
    assert!(pair.can_double(2_000));
    let bust = hand(vec![card(10, Suit::Spades), card(8, Suit::Hearts), card(5, Suit::Hearts)], 1_000);
    assert!(bust.is_bust());
}

#[test]
fn a_natural_ends_the_round_at_once() {
    let mut game = BlackjackEngine::new();
    game.bet = 10_000;
    game.deck = vec![card(9, Suit::Clubs), card(13, Suit::Spades), card(8, Suit::Clubs), card(1, Suit::Hearts)];
    assert!(game.deal(100_000));
    assert_eq!(game.state, PlayState::RoundOver);
    assert_eq!(game.message, "BLACKJACK!");
    assert_eq!(game.hands[0].outcome, Some(Outcome::Blackjack));
    let out = game.settle();
    assert_eq!(out, vec![(Outcome::Blackjack, 15_000)]);
}

#[test]
fn a_bet_above_the_chips_is_refused() {
    let mut game = BlackjackEngine::new();
    game.bet = 10_000;
    assert!(!game.deal(9_999));
    assert_eq!(game.message, "Not enough chips!");
    assert_eq!(game.state, PlayState::Idle);
    assert!(game.hands.is_empty());
}

#[test]
fn the_bet_stays_between_the_minimum_and_the_ceiling() {
    let mut game = BlackjackEngine::new();
    game.bet = 10_000;
    game.adjust_bet(-100_000, 50_000);
    assert_eq!(game.bet, 1_000);
    game.adjust_bet(100_000, 50_000);
    assert_eq!(game.bet, 50_000);
    game.adjust_bet(100_000_000, 1_000_000_000);
    assert_eq!(game.bet, 10_000_000);
    game.adjust_bet(0, 500);
    assert_eq!(game.bet, 1_000);
}

#[test]
fn a_bust_hit_ends_the_round_when_every_hand_is_bust() {
    let mut game = BlackjackEngine::new();
    game.state = PlayState::PlayerTurn;
    game.bet = 1_000;
    game.hands = vec![hand(vec![card(10, Suit::Hearts), card(6, Suit::Spades)], 1_000)];
    game.dealer = vec![card(10, Suit::Diamonds), card(7, Suit::Clubs)];
    game.deck = vec![card(9, Suit::Hearts)];
    game.hit();
    assert_eq!(game.hands[0].cards.len(), 3);
    assert_eq!(game.state, PlayState::RoundOver);
    assert!(game.all_bust);
    assert_eq!(game.hands[0].outcome, Some(Outcome::Lose));
    assert_eq!(game.settle(), vec![(Outcome::Lose, -1_000)]);
}

#[test]
fn the_house_hits_a_soft_seventeen_and_stands_on_a_hard_one() {
    let mut game = BlackjackEngine::new();
    game.state = PlayState::PlayerTurn;
    game.bet = 1_000;
    game.hands = vec![hand(vec![card(10, Suit::Hearts), card(8, Suit::Spades)], 1_000)];
    game.dealer = vec![card(1, Suit::Diamonds), card(6, Suit::Clubs)];
    game.deck = vec![card(10, Suit::Clubs)];
    game.stand();
    assert_eq!(game.state, PlayState::DealerTurn);
    assert!(game.reveal);
    let mut frames = 0;
    while game.state == PlayState::DealerTurn && frames < 100 {
        game.tick();
        frames += 1;
    }
    assert_eq!(game.state, PlayState::RoundOver);
    assert_eq!(game.dealer.len(), 3);
    assert_eq!(hand_value(&game.dealer), 17);
    assert_eq!(game.hands[0].outcome, Some(Outcome::Win));
    assert_eq!(game.message, "House: 17");
    assert_eq!(game.settle(), vec![(Outcome::Win, 1_000)]);
}

#[test]
fn the_house_stands_at_once_on_a_hard_seventeen() {
    let mut game = BlackjackEngine::new();
    game.state = PlayState::PlayerTurn;
    game.bet = 1_000;
    game.hands = vec![hand(vec![card(10, Suit::Hearts), card(7, Suit::Spades)], 1_000)];
    game.dealer = vec![card(10, Suit::Diamonds), card(7, Suit::Clubs)];
    game.deck = vec![];
    game.stand();
    assert_eq!(game.state, PlayState::RoundOver);
    assert_eq!(game.dealer.len(), 2);
    assert_eq!(game.hands[0].outcome, Some(Outcome::Push));
    assert_eq!(game.settle(), vec![(Outcome::Push, 0)]);
}

#[test]
fn an_empty_deck_is_replaced_by_a_shuffled_one() {
    let mut game = BlackjackEngine::new();
    game.state = PlayState::PlayerTurn;
    game.bet = 1_000;
    game.hands = vec![hand(vec![card(2, Suit::Hearts), card(3, Suit::Spades)], 1_000)];
    game.dealer = vec![card(10, Suit::Diamonds), card(7, Suit::Clubs)];
    game.deck = vec![];
    game.hit();
    assert_eq!(game.deck.len(), 51);
    let mut all: Vec<(u8, u8)> = game
        .deck
        .iter()
        .chain(game.hands[0].cards[2..].iter())
        .map(|c| (c.rank, c.suit as u8))
        .collect();
    all.sort();
    all.dedup();
    assert_eq!(all.len(), 52);
    let fresh = BlackjackEngine::new();
    let dealt: Vec<(u8, u8)> = fresh.deck.iter().map(|c| (c.rank, c.suit as u8)).collect();
    let mut built: Vec<(u8, u8)> = Vec::new();
    for suit in [Suit::Hearts, Suit::Diamonds, Suit::Clubs, Suit::Spades] {
        for rank in 1..=13u8 {
            built.push((rank, suit as u8));
        }
    }
    assert_eq!(dealt.len(), 52);
    assert_ne!(dealt, built);
}

#[test]
fn blackjack_pays_one_and_a_half_times_the_bet() {
    let mut game = BlackjackEngine::new();
    game.hands = vec![
        Hand { cards: vec![], bet: 10_000, done: true, doubled: false, outcome: Some(Outcome::Blackjack) },
        Hand { cards: vec![], bet: 3_001, done: true, doubled: false, outcome: Some(Outcome::Blackjack) },
        Hand { cards: vec![], bet: 2_000, done: true, doubled: false, outcome: None },
    ];
    assert_eq!(
        game.settle(),
        vec![(Outcome::Blackjack, 15_000), (Outcome::Blackjack, 4_501), (Outcome::Lose, -2_000)]
    );
}

#[test]
fn the_result_flash_fades() {
    let mut game = BlackjackEngine::new();
    game.state = PlayState::RoundOver;
    game.anim = Some(prox_casino::games::blackjack::AnimState { flash: 2, kind: Outcome::Win });
    game.tick();
    assert_eq!(game.anim.as_ref().map(|a| a.flash), Some(1));
    game.tick();
    assert!(game.anim.is_none());
}

#[test]
fn settling_takes_any_bet_whose_payout_fits() {
    let mut game = BlackjackEngine::new();
    game.hands = vec![
        Hand { cards: vec![], bet: 6_000_000_000_000_000_000, done: true, doubled: false, outcome: Some(Outcome::Blackjack) },
        Hand { cards: vec![], bet: i64::MAX, done: true, doubled: false, outcome: Some(Outcome::Win) },
        Hand { cards: vec![], bet: i64::MAX, done: true, doubled: false, outcome: Some(Outcome::Lose) },
        Hand { cards: vec![], bet: i64::MIN, done: true, doubled: false, outcome: Some(Outcome::Push) },
    ];
    assert_eq!(
        game.settle(),
        vec![
            (Outcome::Blackjack, 9_000_000_000_000_000_000),
            (Outcome::Win, i64::MAX),
            (Outcome::Lose, -i64::MAX),
            (Outcome::Push, 0),
        ]
    );
}

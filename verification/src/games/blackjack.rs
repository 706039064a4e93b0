use rand::seq::SliceRandom;
use vstd::prelude::*;
use vstd::string::*;

use crate::config::BJ_DEALER_TICK_DELAY;
use crate::utils::numtext::{decimal, decimal_string};

verus! {

#[derive(Debug, Clone, Copy, PartialEq, Eq, Structural)]
pub enum Suit {
    Hearts,
    Diamonds,
    Clubs,
    Spades,
}

#[derive(Debug, Clone, Copy)]
pub struct Card {
    pub rank: u8,
    pub suit: Suit,
}

/// The symbol printed for a suit.
pub open spec fn suit_symbol(s: Suit) -> char {
    match s {
        Suit::Hearts => '♥',
        Suit::Diamonds => '♦',
        Suit::Clubs => '♣',
        Suit::Spades => '♠',
    }
}

/// The label of a rank: A, J, Q, K for the court cards and aces, the number
/// otherwise.
pub open spec fn rank_label(r: u8) -> Seq<char> {
    if r == 1 {
        seq!['A']
    } else if r == 11 {
        seq!['J']
    } else if r == 12 {
        seq!['Q']
    } else if r == 13 {
        seq!['K']
    } else {
        decimal(r as nat)
    }
}

impl Card {
    pub fn suit_char(&self) -> (s: &'static str)
        ensures
            s@ == seq![suit_symbol(self.suit)],
    {
        match self.suit {
            Suit::Hearts => {
                proof { reveal_strlit("♥"); }
                "♥"
            },
            Suit::Diamonds => {
                proof { reveal_strlit("♦"); }
                "♦"
            },
            Suit::Clubs => {
                proof { reveal_strlit("♣"); }
                "♣"
            },
            Suit::Spades => {
                proof { reveal_strlit("♠"); }
                "♠"
            },
        }
    }
}

pub fn rank_char(r: u8) -> (s: &'static str)
    requires
        1 <= r <= 13,
    ensures
        s@ == rank_label(r),
{
    proof {
        reveal_strlit("A");
        reveal_strlit("J");
        reveal_strlit("Q");
        reveal_strlit("K");
        reveal_strlit("2");
        reveal_strlit("3");
        reveal_strlit("4");
        reveal_strlit("5");
        reveal_strlit("6");
        reveal_strlit("7");
        reveal_strlit("8");
        reveal_strlit("9");
        reveal_strlit("10");
        assert(decimal(10) == seq!['1', '0']) by {
            assert(decimal(1) == seq!['1']);
        }
    }
    match r {
        1 => "A",
        11 => "J",
        12 => "Q",
        13 => "K",
        2 => "2",
        3 => "3",
        4 => "4",
        5 => "5",
        6 => "6",
        7 => "7",
        8 => "8",
        9 => "9",
        _ => "10",
    }
}

/// Blackjack value of one card before any ace is softened: aces 11, court
/// cards 10, the rank otherwise.
pub open spec fn card_points(rank: u8) -> int {
    if rank == 1 {
        11
    } else if 11 <= rank <= 13 {
        10
    } else {
        rank as int
    }
}

fn card_value(rank: u8) -> (v: u8)
    ensures
        v == card_points(rank),
{
    match rank {
        1 => 11,
        11..=13 => 10,
        n => n,
    }
}

/// Sum of the card points of a hand, every ace counted as 11.
pub open spec fn raw_total(cards: Seq<Card>) -> int
    decreases cards.len(),
{
    if cards.len() == 0 {
        0
    } else {
        raw_total(cards.drop_last()) + card_points(cards.last().rank)
    }
}

/// Number of aces in a hand.
pub open spec fn ace_count(cards: Seq<Card>) -> nat
    decreases cards.len(),
{
    if cards.len() == 0 {
        0
    } else {
        ace_count(cards.drop_last()) + if cards.last().rank == 1 { 1nat } else { 0nat }
    }
}

/// Counts aces as 1 instead of 11, one at a time, while the total is over 21:
/// the resulting total and the aces still counted as 11.
pub open spec fn soften(total: int, aces: nat) -> (int, nat)
    decreases aces,
{
    if total > 21 && aces > 0 {
        soften(total - 10, (aces - 1) as nat)
    } else {
        (total, aces)
    }
}

/// The blackjack value of a hand.
pub open spec fn hand_total(cards: Seq<Card>) -> int {
    soften(raw_total(cards), ace_count(cards)).0
}

/// A hand is soft when an ace still counts as 11 and the hand is not bust.
pub open spec fn soft_hand(cards: Seq<Card>) -> bool {
    let r = soften(raw_total(cards), ace_count(cards));
    r.1 > 0 && r.0 <= 21
}

proof fn lemma_raw_total_prefix(cards: Seq<Card>, i: int)
    requires
        0 <= i <= cards.len(),
    ensures
        raw_total(cards.take(i)) <= raw_total(cards),
        ace_count(cards.take(i)) <= ace_count(cards),
        ace_count(cards) * 11 <= raw_total(cards),
        ace_count(cards.take(i)) * 11 <= raw_total(cards.take(i)),
    decreases cards.len(),
{
    if cards.len() > 0 {
        if i == cards.len() {
            assert(cards.take(i) =~= cards);
            lemma_raw_total_prefix(cards.drop_last(), i - 1);
        } else {
            assert(cards.take(i) =~= cards.drop_last().take(i));
            lemma_raw_total_prefix(cards.drop_last(), i);
        }
    } else {
        assert(cards.take(i) =~= cards);
    }
}

proof fn lemma_soften_bounds(total: int, aces: nat)
    requires
        aces * 11 <= total,
    ensures
        soften(total, aces).0 <= total,
        soften(total, aces).0 >= total - 10 * aces,
        soften(total, aces).1 <= aces,
        soften(total, aces).0 >= soften(total, aces).1 * 11,
        soften(total, aces).0 > 21 ==> soften(total, aces).1 == 0,
        soften(total, aces).1 > 0 ==> soften(total, aces).0 <= 21,
    decreases aces,
{
    if total > 21 && aces > 0 {
        lemma_soften_bounds(total - 10, (aces - 1) as nat);
    }
}

pub fn hand_value(cards: &[Card]) -> (v: u8)
    requires
        raw_total(cards@) <= 255,
    ensures
        v == hand_total(cards@),
{
    let mut total: u8 = 0;
    let mut aces: u8 = 0;
    let mut i: usize = 0;
    while i < cards.len()
        invariant
            0 <= i <= cards@.len(),
            raw_total(cards@) <= 255,
            total == raw_total(cards@.take(i as int)),
            aces == ace_count(cards@.take(i as int)),
        decreases cards@.len() - i,
    {
        proof {
            assert(cards@.take(i + 1).drop_last() =~= cards@.take(i as int));
            lemma_raw_total_prefix(cards@, i + 1);
        }
        let c = cards[i];
        match c.rank {
            1 => {
                aces += 1;
                total += 11;
            },
            11..=13 => total += 10,
            n => total += n,
        }
        i += 1;
    }
    proof {
        assert(cards@.take(i as int) =~= cards@);
        lemma_raw_total_prefix(cards@, i as int);
    }
    while total > 21 && aces > 0
        invariant
            soften(total as int, aces as nat) == soften(raw_total(cards@), ace_count(cards@)),
            aces * 11 <= total,
        decreases aces,
    {
        total -= 10;
        aces -= 1;
    }
    total
}

pub fn is_soft(cards: &[Card]) -> (b: bool)
    requires
        raw_total(cards@) <= 255,
    ensures
        b == soft_hand(cards@),
{
    let mut aces: u8 = 0;
    let mut total: u8 = 0;
    let mut i: usize = 0;
    while i < cards.len()
        invariant
            0 <= i <= cards@.len(),
            raw_total(cards@) <= 255,
            total == raw_total(cards@.take(i as int)),
            aces == ace_count(cards@.take(i as int)),
        decreases cards@.len() - i,
    {
        proof {
            assert(cards@.take(i + 1).drop_last() =~= cards@.take(i as int));
            lemma_raw_total_prefix(cards@, i + 1);
        }
        let c = cards[i];
        match c.rank {
            1 => {
                aces += 1;
                total += 11;
            },
            11..=13 => total += 10,
            n => total += n,
        }
        i += 1;
    }
    proof {
        assert(cards@.take(i as int) =~= cards@);
        lemma_raw_total_prefix(cards@, i as int);
    }
    while total > 21 && aces > 0
        invariant
            soften(total as int, aces as nat) == soften(raw_total(cards@), ace_count(cards@)),
            aces * 11 <= total,
        decreases aces,
    {
        total -= 10;
        aces -= 1;
    }
    aces > 0 && total <= 21
}


#[derive(Debug, Clone, PartialEq, Eq, Structural)]
pub enum PlayState {
    Idle,
    Dealing { phase: u8 },
    PlayerTurn,
    SplitTurn { hand_idx: usize },
    DealerTurn,
    RoundOver,
}

#[derive(Debug, Clone, Copy, PartialEq, Eq, Structural)]
pub enum Outcome {
    Win,
    Lose,
    Push,
    Blackjack,
}

#[derive(Debug, Clone)]
pub struct Hand {
    pub cards: Vec<Card>,
    pub bet: i64,
    pub done: bool,
    pub doubled: bool,
    pub outcome: Option<Outcome>,
}

/// What a hand is, as a value: its cards, its bet and where it stands.
pub struct HandView {
    pub cards: Seq<Card>,
    pub bet: i64,
    pub done: bool,
    pub doubled: bool,
    pub outcome: Option<Outcome>,
}

impl View for Hand {
    type V = HandView;

    open spec fn view(&self) -> HandView {
        HandView {
            cards: self.cards@,
            bet: self.bet,
            done: self.done,
            doubled: self.doubled,
            outcome: self.outcome,
        }
    }
}

/// A hand may double on its two opening cards, once, when the chips cover
/// twice its bet.
pub open spec fn may_double(h: HandView, chips: i64) -> bool {
    h.cards.len() == 2 && chips >= h.bet * 2 && !h.doubled
}

/// A hand may split when its two cards have the same rank and the chips cover
/// twice its bet.
pub open spec fn may_split(h: HandView, chips: i64) -> bool {
    h.cards.len() == 2 && h.cards[0].rank == h.cards[1].rank && chips >= h.bet * 2
}

/// Two cards worth 21.
pub open spec fn natural(cards: Seq<Card>) -> bool {
    cards.len() == 2 && hand_total(cards) == 21
}

impl Hand {
    pub fn new(bet: i64) -> (h: Self)
        ensures
            h@ == (HandView {
                cards: Seq::<Card>::empty(),
                bet,
                done: false,
                doubled: false,
                outcome: None,
            }),
    {
        Self { cards: Vec::new(), bet, done: false, doubled: false, outcome: None }
    }

    pub fn value(&self) -> (v: u8)
        requires
            raw_total(self.cards@) <= 255,
        ensures
            v == hand_total(self.cards@),
    {
        hand_value(self.cards.as_slice())
    }

    pub fn is_blackjack(&self) -> (b: bool)
        requires
            self.cards@.len() == 2 ==> raw_total(self.cards@) <= 255,
        ensures
            b == natural(self.cards@),
    {
        self.cards.len() == 2 && self.value() == 21
    }

    pub fn is_bust(&self) -> (b: bool)
        requires
            raw_total(self.cards@) <= 255,
        ensures
            b == (hand_total(self.cards@) > 21),
    {
        self.value() > 21
    }

    pub fn can_double(&self, chips: i64) -> (b: bool)
        requires
            self.cards@.len() == 2 ==> i64::MIN <= self.bet * 2 <= i64::MAX,
        ensures
            b == may_double(self@, chips),
    {
        self.cards.len() == 2 && chips >= self.bet * 2 && !self.doubled
    }

    pub fn can_split(&self, chips: i64) -> (b: bool)
        requires
            self.cards@.len() == 2 && self.cards@[0].rank == self.cards@[1].rank
                ==> i64::MIN <= self.bet * 2 <= i64::MAX,
        ensures
            b == may_split(self@, chips),
    {
        self.cards.len() == 2 && self.cards[0].rank == self.cards[1].rank && chips >= self.bet * 2
    }
}

#[derive(Debug, Clone)]
pub struct AnimState {
    pub flash: u8,
    pub kind: Outcome,
}

#[derive(Debug, Clone)]
pub struct BlackjackEngine {
    pub state: PlayState,
    pub hands: Vec<Hand>,
    pub active: usize,
    pub dealer: Vec<Card>,
    pub bet: i64,
    pub message: String,
    pub reveal: bool,
    pub anim: Option<AnimState>,
    pub settled: bool,
    pub all_bust: bool,
    pub tick: u8,
    pub deck: Vec<Card>,
}

/// The table as a value: every field of the engine, hands, cards and text
/// taken by their views.
pub struct TableView {
    pub state: PlayState,
    pub hands: Seq<HandView>,
    pub active: usize,
    pub dealer: Seq<Card>,
    pub bet: i64,
    pub message: Seq<char>,
    pub reveal: bool,
    pub anim: Option<AnimState>,
    pub settled: bool,
    pub all_bust: bool,
    pub tick: u8,
    pub deck: Seq<Card>,
}

pub open spec fn hands_view(hands: Seq<Hand>) -> Seq<HandView> {
    hands.map_values(|h: Hand| h@)
}

impl View for BlackjackEngine {
    type V = TableView;

    open spec fn view(&self) -> TableView {
        TableView {
            state: self.state,
            hands: hands_view(self.hands@),
            active: self.active,
            dealer: self.dealer@,
            bet: self.bet,
            message: self.message@,
            reveal: self.reveal,
            anim: self.anim,
            settled: self.settled,
            all_bust: self.all_bust,
            tick: self.tick,
            deck: self.deck@,
        }
    }
}

/// A card of a standard deck.
pub open spec fn valid_card(c: Card) -> bool {
    1 <= c.rank <= 13
}

pub open spec fn valid_cards(s: Seq<Card>) -> bool {
    forall|i: int| 0 <= i < s.len() ==> valid_card(#[trigger] s[i])
}

/// Most cards a hand holds: at 11 points each they still fit the `u8` total.
pub open spec fn hand_card_limit() -> nat {
    23
}

/// A hand whose value fits the engine's arithmetic: standard cards, few
/// enough of them, and a bet that can still be doubled (once) and paid.
pub open spec fn hand_ok(h: HandView) -> bool {
    &&& valid_cards(h.cards)
    &&& h.cards.len() <= hand_card_limit()
    &&& if h.doubled {
        &&& -(i64::MAX / 2) <= h.bet <= i64::MAX / 2
        &&& h.cards.len() != 2
        &&& h.done
    } else {
        -(i64::MAX / 4) <= h.bet <= i64::MAX / 4
    }
}

/// The player is acting on a hand.
pub open spec fn in_play(s: PlayState) -> bool {
    s is PlayerTurn || s is SplitTurn
}

/// The table holds standard cards only, and hands and bets within the
/// engine's arithmetic.
pub open spec fn cards_ok(t: TableView) -> bool {
    &&& valid_cards(t.deck)
    &&& valid_cards(t.dealer)
    &&& t.dealer.len() <= hand_card_limit()
    &&& t.hands.len() <= isize::MAX
    &&& forall|i: int| 0 <= i < t.hands.len() ==> hand_ok(#[trigger] t.hands[i])
    &&& -(i64::MAX / 4) <= t.bet <= i64::MAX / 4
    &&& t.active <= t.hands.len() + 1
    &&& t.tick <= BJ_DEALER_TICK_DELAY
}

/// While the player acts no open hand is bust and the hand index is in
/// range; while the house draws its delay counter is running.
pub open spec fn play_ok(t: TableView) -> bool {
    &&& in_play(t.state) ==> t.active <= t.hands.len()
    &&& in_play(t.state) ==> forall|i: int|
        0 <= i < t.hands.len() && !(#[trigger] t.hands[i]).done ==> hand_total(t.hands[i].cards)
            <= 21
    &&& t.state is DealerTurn ==> t.tick < BJ_DEALER_TICK_DELAY
}

pub open spec fn table_ok(t: TableView) -> bool {
    cards_ok(t) && play_ok(t)
}

/// The suits in the order a fresh deck is built.
pub open spec fn suit_at(i: int) -> Suit {
    if i == 0 {
        Suit::Hearts
    } else if i == 1 {
        Suit::Diamonds
    } else if i == 2 {
        Suit::Clubs
    } else {
        Suit::Spades
    }
}

/// The 52 cards of a deck, suit by suit, ace to king.
pub open spec fn standard_deck() -> Seq<Card> {
    Seq::new(52, |i: int| Card { rank: (i % 13 + 1) as u8, suit: suit_at(i / 13) })
}

/// Some order of the 52 cards, each once.
pub open spec fn shuffled_deck(d: Seq<Card>) -> bool {
    d.to_multiset() =~= standard_deck().to_multiset()
}

/// Taking `c` off the top of `before` leaves `after`; an empty deck is first
/// replaced by a freshly shuffled one.
pub open spec fn draw_step(before: Seq<Card>, after: Seq<Card>, c: Card) -> bool {
    if before.len() > 0 {
        c == before.last() && after == before.drop_last()
    } else {
        shuffled_deck(after.push(c))
    }
}

/// The decks passed through while drawing `drawn`, one draw after another.
pub open spec fn draw_trail(decks: Seq<Seq<Card>>, drawn: Seq<Card>) -> bool {
    &&& decks.len() == drawn.len() + 1
    &&& forall|i: int| 0 <= i < drawn.len() ==> draw_step(#[trigger] decks[i], decks[i + 1], drawn[i])
}

/// Drawing the cards of `drawn`, in order, takes the deck from `before` to
/// `after`.
pub open spec fn draws(before: Seq<Card>, after: Seq<Card>, drawn: Seq<Card>) -> bool {
    exists|decks: Seq<Seq<Card>>|
        #[trigger] draw_trail(decks, drawn) && decks[0] == before && decks.last() == after
}

/// The hand the player acts on.
pub open spec fn current_index(t: TableView) -> int {
    match t.state {
        PlayState::SplitTurn { hand_idx } => hand_idx as int,
        _ => t.active as int,
    }
}

/// The player may hit or stand: a hand is in play and still open.
pub open spec fn player_may_act(t: TableView) -> bool {
    &&& in_play(t.state)
    &&& current_index(t) < t.hands.len()
    &&& !t.hands[current_index(t)].done
}

/// How a hand ends against the house.
pub open spec fn hand_outcome(cards: Seq<Card>, dealer: Seq<Card>) -> Outcome {
    let dv = hand_total(dealer);
    let v = hand_total(cards);
    if natural(cards) && natural(dealer) {
        Outcome::Push
    } else if natural(cards) {
        Outcome::Blackjack
    } else if v > 21 || natural(dealer) {
        Outcome::Lose
    } else if dv > 21 || v > dv {
        Outcome::Win
    } else if v == dv {
        Outcome::Push
    } else {
        Outcome::Lose
    }
}

/// The house stops drawing at 17 or more, except on a soft 17.
pub open spec fn dealer_done(cards: Seq<Card>) -> bool {
    let v = hand_total(cards);
    v >= 17 && !(v == 17 && soft_hand(cards))
}

/// Every hand over 21.
pub open spec fn every_hand_bust(hands: Seq<HandView>) -> bool {
    forall|i: int| 0 <= i < hands.len() ==> hand_total(#[trigger] hands[i].cards) > 21
}

/// The first open hand at or after `k`, or `k` itself once past the last hand.
pub open spec fn next_open(hands: Seq<HandView>, k: int) -> int
    decreases hands.len() - k,
{
    if k >= hands.len() || !hands[k].done {
        k
    } else {
        next_open(hands, k + 1)
    }
}

/// Every hand gets its outcome against the house.
pub open spec fn evaluated(t: TableView) -> TableView {
    TableView {
        hands: Seq::new(
            t.hands.len(),
            |i: int| HandView { outcome: Some(hand_outcome(t.hands[i].cards, t.dealer)), ..t.hands[i] },
        ),
        ..t
    }
}

/// What the house announces when the round is over.
pub open spec fn house_result(dealer: Seq<Card>) -> Seq<char> {
    if hand_total(dealer) > 21 {
        "House busts!"@
    } else {
        "House: "@ + decimal(hand_total(dealer) as nat)
    }
}

/// The round ends after the house has played.
pub open spec fn round_finished(t: TableView) -> TableView {
    evaluated(TableView { state: PlayState::RoundOver, message: house_result(t.dealer), ..t })
}

/// The round ends without the house playing.
pub open spec fn round_ended(t: TableView) -> TableView {
    evaluated(TableView { state: PlayState::RoundOver, reveal: true, ..t })
}

/// The house reveals its hidden card; it stands at once or starts drawing.
pub open spec fn dealer_entered(t: TableView) -> TableView {
    let u = TableView { state: PlayState::DealerTurn, reveal: true, tick: 0, ..t };
    if dealer_done(t.dealer) {
        round_finished(u)
    } else {
        TableView { message: "House draws..."@, ..u }
    }
}

/// The prompt for a hand the player moves on to.
pub open spec fn hand_prompt(i: int, h: HandView) -> Seq<char> {
    "Hand "@ + decimal((i + 1) as nat) + ": "@ + decimal(hand_total(h.cards) as nat)
        + "  [H] [S] [D]"@
}

/// Play moves on to the next open hand; after the last one the round ends
/// when every hand is bust, and the house plays otherwise.
pub open spec fn advanced(t: TableView) -> TableView {
    let j = next_open(t.hands, t.active + 1);
    if j < t.hands.len() {
        TableView {
            active: j as usize,
            state: PlayState::SplitTurn { hand_idx: j as usize },
            message: hand_prompt(j, t.hands[j]),
            ..t
        }
    } else if every_hand_bust(t.hands) {
        round_ended(TableView { active: j as usize, all_bust: true, message: "All bust!"@, ..t })
    } else {
        dealer_entered(TableView { active: j as usize, ..t })
    }
}

impl BlackjackEngine {
    pub open spec fn wf(&self) -> bool {
        table_ok(self@)
    }
}

/// Standard cards count at most eleven each, and each counts at least one
/// once the aces are softened.
pub proof fn lemma_valid_raw_bound(cards: Seq<Card>)
    requires
        valid_cards(cards),
    ensures
        raw_total(cards) <= 11 * cards.len(),
        raw_total(cards) - 10 * ace_count(cards) >= cards.len(),
        ace_count(cards) * 11 <= raw_total(cards),
    decreases cards.len(),
{
    if cards.len() > 0 {
        let d = cards.drop_last();
        assert(valid_cards(d)) by {
            assert forall|i: int| 0 <= i < d.len() implies valid_card(#[trigger] d[i]) by {
                assert(d[i] == cards[i]);
            }
        }
        assert(valid_card(cards[cards.len() - 1]));
        lemma_valid_raw_bound(d);
    }
}

/// A hand of standard cards is worth at least one point per card.
proof fn lemma_total_at_least_len(cards: Seq<Card>)
    requires
        valid_cards(cards),
    ensures
        hand_total(cards) >= cards.len(),
        raw_total(cards) <= 11 * cards.len(),
{
    lemma_valid_raw_bound(cards);
    lemma_soften_bounds(raw_total(cards), ace_count(cards));
}

proof fn lemma_shuffled_valid(d: Seq<Card>)
    requires
        shuffled_deck(d),
    ensures
        valid_cards(d),
        d.len() == 52,
{
    broadcast use vstd::seq_lib::group_to_multiset_ensures;

    assert forall|i: int| 0 <= i < d.len() implies valid_card(#[trigger] d[i]) by {
        assert(d.contains(d[i]));
        assert(d.to_multiset().count(d[i]) > 0);
        assert(standard_deck().to_multiset().count(d[i]) > 0);
        assert(standard_deck().contains(d[i]));
    }
    assert(d.len() == d.to_multiset().len());
    assert(standard_deck().len() == standard_deck().to_multiset().len());
}

proof fn lemma_draws_start(deck: Seq<Card>)
    ensures
        draws(deck, deck, Seq::empty()),
{
    assert(draw_trail(seq![deck], Seq::empty()));
}

proof fn lemma_draws_push(before: Seq<Card>, mid: Seq<Card>, after: Seq<Card>, drawn: Seq<Card>, c: Card)
    requires
        draws(before, mid, drawn),
        draw_step(mid, after, c),
    ensures
        draws(before, after, drawn.push(c)),
{
    let decks = choose|decks: Seq<Seq<Card>>|
        #[trigger] draw_trail(decks, drawn) && decks[0] == before && decks.last() == mid;
    let d2 = decks.push(after);
    let dr = drawn.push(c);
    assert forall|i: int| 0 <= i < dr.len() implies draw_step(#[trigger] d2[i], d2[i + 1], dr[i]) by {
        if i < drawn.len() {
            assert(draw_step(decks[i], decks[i + 1], drawn[i]));
        }
    }
    assert(draw_trail(d2, dr));
}

/// Calls `rand::seq::SliceRandom::shuffle` with the thread's generator: the
/// cards come back in some order, each as often as before. Which order is
/// left to chance and not stated.
#[verifier::external_body]
fn shuffle_cards(cards: &mut Vec<Card>)
    ensures
        final(cards)@.to_multiset() == old(cards)@.to_multiset(),
{
    cards.shuffle(&mut rand::thread_rng());
}

impl BlackjackEngine {
    fn fresh_deck() -> (d: Vec<Card>)
        ensures
            shuffled_deck(d@),
            valid_cards(d@),
            d@.len() == 52,
    {
        let mut d: Vec<Card> = Vec::with_capacity(52);
        let suits = [Suit::Hearts, Suit::Diamonds, Suit::Clubs, Suit::Spades];
        let mut si: usize = 0;
        while si < 4
            invariant
                0 <= si <= 4,
                suits@ == seq![Suit::Hearts, Suit::Diamonds, Suit::Clubs, Suit::Spades],
                d@ =~= standard_deck().take(13 * si as int),
            decreases 4 - si,
        {
            let suit = suits[si];
            let mut rank: u8 = 1;
            while rank <= 13
                invariant
                    0 <= si < 4,
                    1 <= rank <= 14,
                    suit == suit_at(si as int),
                    d@ =~= standard_deck().take(13 * si + rank - 1),
                decreases 14 - rank,
            {
                proof {
                    let k = 13 * si + rank - 1;
                    assert(k / 13 == si as int && k % 13 == rank - 1) by (nonlinear_arith)
                        requires
                            k == 13 * si + rank - 1,
                            1 <= rank <= 13,
                    ;
                    assert(standard_deck().take(k + 1) =~= standard_deck().take(k).push(
                        Card { rank, suit },
                    ));
                }
                d.push(Card { rank, suit });
                rank += 1;
            }
            si += 1;
        }
        assert(d@ =~= standard_deck());
        shuffle_cards(&mut d);
        proof {
            lemma_shuffled_valid(d@);
        }
        d
    }

    fn draw(&mut self) -> (c: Card)
        requires
            valid_cards(old(self).deck@),
        ensures
            draw_step(old(self).deck@, final(self).deck@, c),
            valid_card(c),
            valid_cards(final(self).deck@),
            final(self)@ == (TableView { deck: final(self).deck@, ..old(self)@ }),
            final(self).hands@ == old(self).hands@,
            final(self).dealer@ == old(self).dealer@,
    {
        if self.deck.is_empty() {
            self.deck = Self::fresh_deck();
        }
        let ghost full = self.deck@;
        let c = self.deck.pop().unwrap();
        proof {
            assert(full.drop_last().push(c) =~= full);
            assert(valid_card(full[full.len() - 1]));
            assert(valid_cards(self.deck@)) by {
                assert forall|i: int| 0 <= i < self.deck@.len() implies valid_card(
                    #[trigger] self.deck@[i],
                ) by {
                    assert(self.deck@[i] == full[i]);
                }
            }
        }
        c
    }
}


proof fn lemma_hand_fits(h: HandView)
    requires
        hand_ok(h),
    ensures
        raw_total(h.cards) <= 253,
        hand_total(h.cards) >= h.cards.len(),
{
    lemma_total_at_least_len(h.cards);
}

proof fn lemma_dealer_fits(t: TableView)
    requires
        cards_ok(t),
    ensures
        raw_total(t.dealer) <= 253,
        hand_total(t.dealer) >= t.dealer.len(),
{
    lemma_total_at_least_len(t.dealer);
}

/// `hands_view` of an updated vector.
proof fn lemma_hands_view_update(hs: Seq<Hand>, i: int, h: Hand)
    requires
        0 <= i < hs.len(),
    ensures
        hands_view(hs.update(i, h)) =~= hands_view(hs).update(i, h@),
{
}

proof fn lemma_hands_view_push(hs: Seq<Hand>, h: Hand)
    ensures
        hands_view(hs.push(h)) =~= hands_view(hs).push(h@),
{
}

fn house_result_text(dv: u8) -> (m: String)
    ensures
        dv > 21 ==> m@ == "House busts!"@,
        dv <= 21 ==> m@ == "House: "@ + decimal(dv as nat),
{
    if dv > 21 {
        String::from_str("House busts!")
    } else {
        let mut m = String::from_str("House: ");
        let d = decimal_string(dv as u64);
        m.append(d.as_str());
        m
    }
}

impl BlackjackEngine {
    fn cur_idx(&self) -> (i: usize)
        ensures
            i == current_index(self@),
    {
        match self.state {
            PlayState::SplitTurn { hand_idx } => hand_idx,
            _ => self.active,
        }
    }

    fn evaluate(&mut self)
        requires
            cards_ok(old(self)@),
        ensures
            final(self)@ == evaluated(old(self)@),
    {
        let ghost t = old(self)@;
        proof {
            lemma_dealer_fits(t);
        }
        let dv = hand_value(self.dealer.as_slice());
        let dealer_bj = dv == 21 && self.dealer.len() == 2;
        let n = self.hands.len();
        let mut i: usize = 0;
        while i < n
            invariant
                0 <= i <= n,
                n == self.hands@.len(),
                cards_ok(t),
                dv == hand_total(t.dealer),
                dealer_bj == natural(t.dealer),
                self@ == (TableView { hands: self@.hands, ..t }),
                self@.hands.len() == t.hands.len(),
                forall|j: int|
                    0 <= j < n ==> #[trigger] self@.hands[j] == if j < i {
                        evaluated(t).hands[j]
                    } else {
                        t.hands[j]
                    },
            decreases n - i,
        {
            proof {
                assert(self@.hands[i as int] == t.hands[i as int]);
                assert(hand_ok(t.hands[i as int]));
                lemma_hand_fits(t.hands[i as int]);
            }
            let bj = self.hands[i].is_blackjack();
            let v = self.hands[i].value();
            let o = if bj && dealer_bj {
                Outcome::Push
            } else if bj {
                Outcome::Blackjack
            } else if v > 21 || dealer_bj {
                Outcome::Lose
            } else if dv > 21 || v > dv {
                Outcome::Win
            } else if v == dv {
                Outcome::Push
            } else {
                Outcome::Lose
            };
            let ghost before = self.hands@;
            self.hands[i].outcome = Some(o);
            proof {
                assert(self.hands@ == before.update(i as int, self.hands@[i as int]));
                lemma_hands_view_update(before, i as int, self.hands@[i as int]);
            }
            i += 1;
        }
        assert(self@.hands =~= evaluated(t).hands);
    }

    fn finish_round(&mut self)
        requires
            cards_ok(old(self)@),
        ensures
            final(self)@ == round_finished(old(self)@),
    {
        proof {
            lemma_dealer_fits(old(self)@);
        }
        self.state = PlayState::RoundOver;
        let dv = hand_value(self.dealer.as_slice());
        self.message = house_result_text(dv);
        self.evaluate();
    }

    fn end_round(&mut self)
        requires
            cards_ok(old(self)@),
        ensures
            final(self)@ == round_ended(old(self)@),
    {
        self.state = PlayState::RoundOver;
        self.reveal = true;
        self.evaluate();
    }

    fn enter_dealer(&mut self)
        requires
            cards_ok(old(self)@),
        ensures
            final(self)@ == dealer_entered(old(self)@),
    {
        proof {
            lemma_dealer_fits(old(self)@);
        }
        self.state = PlayState::DealerTurn;
        self.reveal = true;
        self.tick = 0;
        let dv = hand_value(self.dealer.as_slice());
        if dv >= 17 && !(dv == 17 && is_soft(self.dealer.as_slice())) {
            self.finish_round();
            return;
        }
        self.message = String::from_str("House draws...");
    }

    fn all_hands_bust(&self) -> (b: bool)
        requires
            cards_ok(self@),
        ensures
            b == every_hand_bust(self@.hands),
    {
        let n = self.hands.len();
        let mut i: usize = 0;
        while i < n
            invariant
                0 <= i <= n,
                n == self@.hands.len(),
                cards_ok(self@),
                forall|j: int| 0 <= j < i ==> hand_total(#[trigger] self@.hands[j].cards) > 21,
            decreases n - i,
        {
            proof {
                assert(hand_ok(self@.hands[i as int]));
                lemma_hand_fits(self@.hands[i as int]);
            }
            if !self.hands[i].is_bust() {
                return false;
            }
            i += 1;
        }
        true
    }

    fn advance(&mut self)
        requires
            table_ok(old(self)@),
            in_play(old(self)@.state),
        ensures
            final(self)@ == advanced(old(self)@),
    {
        let ghost t = old(self)@;
        let n = self.hands.len();
        loop
            invariant
                t == old(self)@,
                n == t.hands.len(),
                table_ok(t),
                in_play(t.state),
                t.active <= self.active <= n,
                next_open(t.hands, self.active + 1) == next_open(t.hands, t.active + 1),
                self@ == (TableView { active: self.active, ..t }),
            decreases n - self.active,
        {
            self.active += 1;
            if self.active >= n {
                assert(next_open(t.hands, self.active as int) == self.active);
                if self.all_hands_bust() {
                    self.all_bust = true;
                    self.message = String::from_str("All bust!");
                    assert(self@ == (TableView {
                        active: self.active,
                        all_bust: true,
                        message: "All bust!"@,
                        ..t
                    }));
                    self.end_round();
                    assert(self@ == advanced(t));
                    return;
                }
                self.enter_dealer();
                assert(self@ == advanced(t));
                return;
            }
            if !self.hands[self.active].done {
                let i = self.active;
                self.state = PlayState::SplitTurn { hand_idx: i };
                proof {
                    lemma_hand_fits(t.hands[i as int]);
                }
                let v = self.hands[i].value();
                let mut m = String::from_str("Hand ");
                let a = decimal_string((i + 1) as u64);
                m.append(a.as_str());
                m.append(": ");
                let b = decimal_string(v as u64);
                m.append(b.as_str());
                m.append("  [H] [S] [D]");
                self.message = m;
                proof {
                    assert(self@.hands[i as int] == t.hands[i as int]);
                    assert(!t.hands[i as int].done);
                    assert(next_open(t.hands, i as int) == i);
                    assert(self@.message == hand_prompt(i as int, t.hands[i as int]));
                    assert(next_open(t.hands, t.active + 1) == i);
                    assert(self@ == advanced(t));
                }
                return;
            }
        }
    }
}


/// `x` kept within `lo..=hi`.
pub open spec fn clamped(x: int, lo: int, hi: int) -> int {
    if x < lo {
        lo
    } else if x > hi {
        hi
    } else {
        x
    }
}

/// The highest blackjack bet: the chips, capped at ten million, and never
/// below the minimum bet.
pub open spec fn bet_ceiling(chips: i64) -> int {
    let m = if chips < 10_000_000 { chips as int } else { 10_000_000 };
    if m < 1_000 {
        1_000
    } else {
        m
    }
}

/// The prompt after the opening deal: the hand's value and the moves on offer.
pub open spec fn opening_prompt(h: HandView, chips: i64) -> Seq<char> {
    decimal(hand_total(h.cards) as nat) + "  [H] [S]"@ + (if may_double(h, chips) {
        " [D]"@
    } else {
        Seq::empty()
    }) + (if may_split(h, chips) {
        " [P]"@
    } else {
        Seq::empty()
    })
}

/// A new round: two cards each to the player and the house, drawn player,
/// house, player, house. A natural ends the round at once.
pub open spec fn dealt(t: TableView, n: TableView, chips: i64) -> bool {
    let p = n.hands[0].cards;
    let d = n.dealer;
    let h = HandView { cards: p, bet: t.bet, done: false, doubled: false, outcome: None };
    let base = TableView {
        hands: seq![h],
        dealer: d,
        active: 0,
        reveal: false,
        anim: None,
        settled: false,
        all_bust: false,
        tick: 0,
        deck: n.deck,
        ..t
    };
    &&& n.hands.len() == 1
    &&& p.len() == 2
    &&& d.len() == 2
    &&& draws(t.deck, n.deck, seq![p[0], d[0], p[1], d[1]])
    &&& n == if hand_total(p) == 21 {
        evaluated(
            TableView {
                reveal: true,
                state: PlayState::RoundOver,
                message: if hand_total(d) == 21 {
                    "Both Blackjack — Push"@
                } else {
                    "BLACKJACK!"@
                },
                ..base
            },
        )
    } else {
        TableView { message: opening_prompt(h, chips), state: PlayState::PlayerTurn, ..base }
    }
}

/// A hit: the current hand takes the top card; a bust closes it and play
/// moves on.
pub open spec fn hit_done(t: TableView, n: TableView) -> bool {
    let idx = current_index(t);
    let h = t.hands[idx];
    let c = n.hands[idx].cards.last();
    let cards = h.cards.push(c);
    &&& n.hands.len() == t.hands.len()
    &&& draw_step(t.deck, n.deck, c)
    &&& n == if hand_total(cards) > 21 {
        advanced(
            TableView {
                hands: t.hands.update(idx, HandView { cards, done: true, ..h }),
                deck: n.deck,
                message: "Hand "@ + decimal((idx + 1) as nat) + " bust!"@,
                ..t
            },
        )
    } else {
        TableView {
            hands: t.hands.update(idx, HandView { cards, ..h }),
            deck: n.deck,
            message: "Hand "@ + decimal((idx + 1) as nat) + ": "@ + decimal(
                hand_total(cards) as nat,
            ) + "  [H] [S]"@,
            ..t
        }
    }
}

/// A stand: the current hand closes and play moves on.
pub open spec fn stood(t: TableView) -> TableView {
    let idx = current_index(t);
    let h = t.hands[idx];
    advanced(
        TableView {
            hands: t.hands.update(idx, HandView { done: true, ..h }),
            message: "Hand "@ + decimal((idx + 1) as nat) + " stand at "@ + decimal(
                hand_total(h.cards) as nat,
            ),
            ..t
        },
    )
}

/// The player may double the current hand.
pub open spec fn double_allowed(t: TableView, chips: i64) -> bool {
    &&& in_play(t.state)
    &&& current_index(t) < t.hands.len()
    &&& may_double(t.hands[current_index(t)], chips)
}

/// A double: the bet doubles, the hand takes exactly one card and closes.
pub open spec fn doubled_down(t: TableView, n: TableView) -> bool {
    let idx = current_index(t);
    let h = t.hands[idx];
    let c = n.hands[idx].cards.last();
    let cards = h.cards.push(c);
    &&& n.hands.len() == t.hands.len()
    &&& draw_step(t.deck, n.deck, c)
    &&& n == advanced(
        TableView {
            hands: t.hands.update(
                idx,
                HandView { cards, bet: (h.bet * 2) as i64, doubled: true, done: true, ..h },
            ),
            deck: n.deck,
            message: if hand_total(cards) > 21 {
                "Double bust!"@
            } else {
                "Double stand at "@ + decimal(hand_total(cards) as nat)
            },
            ..t
        },
    )
}

/// The player may split the hand in play before any split.
pub open spec fn split_allowed(t: TableView, chips: i64) -> bool {
    &&& t.state is PlayerTurn
    &&& t.active < t.hands.len()
    &&& may_split(t.hands[t.active as int], chips)
}

/// A split: the pair becomes two hands with the same bet, each completed by
/// one new card, and play starts on the first hand.
pub open spec fn split_done(t: TableView, n: TableView) -> bool {
    let a = t.active as int;
    let h = t.hands[a];
    let c1 = n.hands[a].cards[1];
    let c2 = n.hands[t.hands.len() as int].cards[1];
    let first = HandView { cards: seq![h.cards[0], c1], ..h };
    let second = HandView {
        cards: seq![h.cards[1], c2],
        bet: h.bet,
        done: false,
        doubled: false,
        outcome: None,
    };
    let hands = t.hands.update(a, first).push(second);
    &&& n.hands.len() == t.hands.len() + 1
    &&& n.hands[a].cards.len() == 2
    &&& n.hands[t.hands.len() as int].cards.len() == 2
    &&& draws(t.deck, n.deck, seq![c1, c2])
    &&& n == TableView {
        hands,
        deck: n.deck,
        state: PlayState::SplitTurn { hand_idx: 0 },
        message: "Hand 1: "@ + decimal(hand_total(hands[0].cards) as nat) + "  [H] [S] [D]"@,
        ..t
    }
}

/// The outcome a hand is settled at; a hand never evaluated counts as lost.
pub open spec fn settled_outcome(h: HandView) -> Outcome {
    match h.outcome {
        Some(o) => o,
        None => Outcome::Lose,
    }
}

/// Half of `x`, rounded toward zero.
pub open spec fn half_toward_zero(x: int) -> int {
    if x >= 0 {
        x / 2
    } else {
        -((-x) / 2)
    }
}

/// Chips won or lost on a hand: the bet on a win, one and a half times the bet
/// on a blackjack, nothing on a push, the bet on a loss.
pub open spec fn payout(h: HandView) -> int {
    match settled_outcome(h) {
        Outcome::Win => h.bet as int,
        Outcome::Lose => -h.bet,
        Outcome::Push => 0,
        Outcome::Blackjack => h.bet + half_toward_zero(h.bet as int),
    }
}

/// A hand whose payout fits in `i64`: any win or push, a loss on a bet
/// above `i64::MIN`, a blackjack whose bet and half of it add up within
/// `i64`.
pub open spec fn settles_within(h: HandView) -> bool {
    i64::MIN <= payout(h) <= i64::MAX
}

/// The result flash after one frame.
pub open spec fn faded(a: Option<AnimState>) -> Option<AnimState> {
    match a {
        Some(x) => if x.flash == 1 {
            None
        } else if x.flash > 1 {
            Some(AnimState { flash: (x.flash - 1) as u8, ..x })
        } else {
            a
        },
        None => None,
    }
}

/// One frame of the table: the house waits, then stands or draws; a finished
/// round fades its result flash.
pub open spec fn ticked(t: TableView, n: TableView) -> bool {
    match t.state {
        PlayState::DealerTurn => {
            let t1 = TableView { tick: (t.tick + 1) as u8, ..t };
            if t.tick + 1 >= BJ_DEALER_TICK_DELAY {
                if dealer_done(t.dealer) {
                    n == round_finished(t1)
                } else {
                    let c = n.dealer.last();
                    let d = t.dealer.push(c);
                    &&& n.dealer.len() == t.dealer.len() + 1
                    &&& draw_step(t.deck, n.deck, c)
                    &&& n == TableView {
                        dealer: d,
                        deck: n.deck,
                        message: "House draws... "@ + decimal(hand_total(d) as nat),
                        tick: 0,
                        ..t
                    }
                }
            } else {
                n == t1
            }
        },
        PlayState::RoundOver => n == TableView { anim: faded(t.anim), ..t },
        _ => n == t,
    }
}

proof fn lemma_evaluated_ok(t: TableView)
    requires
        cards_ok(t),
    ensures
        cards_ok(evaluated(t)),
        play_ok(t) ==> play_ok(evaluated(t)),
        evaluated(t).hands.len() == t.hands.len(),
{
    let e = evaluated(t);
    assert forall|i: int| 0 <= i < e.hands.len() implies hand_ok(#[trigger] e.hands[i]) by {
        assert(hand_ok(t.hands[i]));
    }
    if play_ok(t) && in_play(e.state) {
        assert forall|i: int|
            0 <= i < e.hands.len() && !(#[trigger] e.hands[i]).done implies hand_total(
            e.hands[i].cards,
        ) <= 21 by {
            assert(!t.hands[i].done);
        }
    }
}

proof fn lemma_dealer_entered_ok(t: TableView)
    requires
        cards_ok(t),
    ensures
        table_ok(dealer_entered(t)),
{
    let u = TableView { state: PlayState::DealerTurn, reveal: true, tick: 0, ..t };
    let r = TableView { state: PlayState::RoundOver, message: house_result(u.dealer), ..u };
    lemma_evaluated_ok(r);
}

proof fn lemma_advanced_ok(t: TableView)
    requires
        table_ok(t),
        in_play(t.state),
    ensures
        table_ok(advanced(t)),
        advanced(t).hands.len() == t.hands.len(),
        forall|i: int| 0 <= i < t.hands.len() ==> (#[trigger] advanced(t).hands[i]).cards == t.hands[i].cards,
{
    let j = next_open(t.hands, t.active + 1);
    lemma_next_open_range(t.hands, t.active + 1);
    if j < t.hands.len() {
    } else if every_hand_bust(t.hands) {
        let u = TableView { active: j as usize, all_bust: true, message: "All bust!"@, ..t };
        lemma_evaluated_ok(TableView { state: PlayState::RoundOver, reveal: true, ..u });
    } else {
        let u = TableView { active: j as usize, ..t };
        lemma_dealer_entered_ok(u);
        let w = TableView { state: PlayState::DealerTurn, reveal: true, tick: 0, ..u };
        lemma_evaluated_ok(TableView { state: PlayState::RoundOver, message: house_result(w.dealer), ..w });
    }
}

proof fn lemma_next_open_range(hands: Seq<HandView>, k: int)
    ensures
        next_open(hands, k) >= k,
        k <= hands.len() ==> next_open(hands, k) <= hands.len(),
        next_open(hands, k) < hands.len() ==> !hands[next_open(hands, k)].done,
    decreases hands.len() - k,
{
    if k < hands.len() && hands[k].done {
        lemma_next_open_range(hands, k + 1);
    }
}

/// Two standard cards are never bust.
proof fn lemma_two_cards_open(cards: Seq<Card>)
    requires
        valid_cards(cards),
        cards.len() == 2,
    ensures
        hand_total(cards) <= 21,
{
    reveal_with_fuel(raw_total, 3);
    reveal_with_fuel(ace_count, 3);
    reveal_with_fuel(soften, 3);
    assert(valid_card(cards[0]) && valid_card(cards[1]));
    assert(cards.drop_last().drop_last() =~= Seq::<Card>::empty());
    assert(cards.drop_last().last() == cards[0]);
}


fn text_with_number(prefix: &str, n: u64) -> (m: String)
    ensures
        m@ == prefix@ + decimal(n as nat),
{
    let mut m = String::from_str(prefix);
    let a = decimal_string(n);
    m.append(a.as_str());
    m
}

fn hand_line(prefix: &str, n: u64, middle: &str, v: u8) -> (m: String)
    ensures
        m@ == prefix@ + decimal(n as nat) + middle@ + decimal(v as nat),
{
    let mut m = text_with_number(prefix, n);
    m.append(middle);
    let b = decimal_string(v as u64);
    m.append(b.as_str());
    m
}

impl BlackjackEngine {
    pub fn new() -> (e: Self)
        ensures
            e.wf(),
            shuffled_deck(e@.deck),
            e@ == (TableView {
                state: PlayState::Idle,
                hands: Seq::empty(),
                active: 0,
                dealer: Seq::empty(),
                bet: 10_000,
                message: "Ready — [Space] Deal"@,
                reveal: false,
                anim: None,
                settled: false,
                all_bust: false,
                tick: 0,
                deck: e@.deck,
            }),
    {
        let e = Self {
            state: PlayState::Idle,
            hands: Vec::new(),
            active: 0,
            dealer: Vec::new(),
            bet: 10_000,
            message: String::from_str("Ready — [Space] Deal"),
            reveal: false,
            anim: None,
            settled: false,
            all_bust: false,
            tick: 0,
            deck: Self::fresh_deck(),
        };
        assert(e@.hands =~= Seq::<HandView>::empty());
        e
    }

    pub fn adjust_bet(&mut self, delta: i64, chips: i64)
        requires
            i64::MIN <= old(self).bet + delta <= i64::MAX,
        ensures
            final(self)@ == (TableView {
                bet: clamped(old(self).bet + delta, 1_000, bet_ceiling(chips)) as i64,
                ..old(self)@
            }),
            old(self).wf() ==> final(self).wf(),
    {
        let min: i64 = 1_000;
        let capped = if chips < 10_000_000 { chips } else { 10_000_000 };
        let max = if capped < min { min } else { capped };
        let b = self.bet + delta;
        self.bet = if b < min { min } else if b > max { max } else { b };
    }

    pub fn deal(&mut self, chips: i64) -> (ok: bool)
        requires
            old(self).wf(),
        ensures
            final(self).wf(),
            ok == ((old(self)@.state is Idle || old(self)@.state is RoundOver) && old(self).bet
                <= chips),
            !(old(self)@.state is Idle || old(self)@.state is RoundOver) ==> final(self)@ == old(
                self,
            )@,
            (old(self)@.state is Idle || old(self)@.state is RoundOver) && old(self).bet > chips
                ==> final(self)@ == (TableView { message: "Not enough chips!"@, ..old(self)@ }),
            ok ==> dealt(old(self)@, final(self)@, chips),
    {
        let ghost t = old(self)@;
        if !(matches!(self.state, PlayState::Idle) || matches!(self.state, PlayState::RoundOver)) {
            return false;
        }
        if self.bet > chips {
            self.message = String::from_str("Not enough chips!");
            return false;
        }
        proof {
            lemma_draws_start(t.deck);
        }
        let ghost d0 = self.deck@;
        let p1 = self.draw();
        let ghost d1 = self.deck@;
        proof {
            lemma_draws_push(t.deck, d0, d1, Seq::empty(), p1);
            assert(Seq::<Card>::empty().push(p1) =~= seq![p1]);
        }
        let c1 = self.draw();
        let ghost d2 = self.deck@;
        proof {
            lemma_draws_push(t.deck, d1, d2, seq![p1], c1);
            assert(seq![p1].push(c1) =~= seq![p1, c1]);
        }
        let p2 = self.draw();
        let ghost d3 = self.deck@;
        proof {
            lemma_draws_push(t.deck, d2, d3, seq![p1, c1], p2);
            assert(seq![p1, c1].push(p2) =~= seq![p1, c1, p2]);
        }
        let c2 = self.draw();
        proof {
            lemma_draws_push(t.deck, d3, self.deck@, seq![p1, c1, p2], c2);
            assert(seq![p1, c1, p2].push(c2) =~= seq![p1, c1, p2, c2]);
        }
        self.hands = vec![Hand { cards: vec![p1, p2], bet: self.bet, done: false, doubled: false, outcome: None }];
        self.dealer = vec![c1, c2];
        self.active = 0;
        self.reveal = false;
        self.anim = None;
        self.settled = false;
        self.all_bust = false;
        self.tick = 0;
        let ghost cards = seq![p1, p2];
        proof {
            assert(valid_cards(cards));
            assert(valid_cards(self.dealer@));
            lemma_two_cards_open(cards);
            lemma_two_cards_open(self.dealer@);
            lemma_valid_raw_bound(cards);
            lemma_valid_raw_bound(self.dealer@);
            assert(hand_ok(self@.hands[0]));
            assert(self@.hands[0].cards =~= cards);
        }
        let pv = self.hands[0].value();
        if pv == 21 {
            self.reveal = true;
            let dv = hand_value(self.dealer.as_slice());
            self.message = if dv == 21 {
                String::from_str("Both Blackjack — Push")
            } else {
                String::from_str("BLACKJACK!")
            };
            self.state = PlayState::RoundOver;
            let ghost pre = self@;
            self.evaluate();
            proof {
                lemma_evaluated_ok(pre);
                let h = HandView { cards, bet: t.bet, done: false, doubled: false, outcome: None };
                assert(pre.hands =~= seq![h]);
                assert(self@.hands[0].cards == cards);
            }
        } else {
            let mut msg = decimal_string(pv as u64);
            msg.append("  [H] [S]");
            if self.hands[0].can_double(chips) {
                msg.append(" [D]");
            }
            if self.hands[0].can_split(chips) {
                msg.append(" [P]");
            }
            self.message = msg;
            self.state = PlayState::PlayerTurn;
            proof {
                let h = HandView { cards, bet: t.bet, done: false, doubled: false, outcome: None };
                assert(self@.hands =~= seq![h]);
                assert(decimal(pv as nat) + "  [H] [S]"@ + Seq::<char>::empty() =~= decimal(pv as nat) + "  [H] [S]"@);
                let m0 = decimal(pv as nat) + "  [H] [S]"@;
                let md = if may_double(self@.hands[0], chips) { " [D]"@ } else { Seq::<char>::empty() };
                assert(m0 + md + Seq::<char>::empty() =~= m0 + md);
            }
        }
        true
    }

    pub fn hit(&mut self)
        requires
            old(self).wf(),
        ensures
            final(self).wf(),
            !player_may_act(old(self)@) ==> final(self)@ == old(self)@,
            player_may_act(old(self)@) ==> hit_done(old(self)@, final(self)@),
    {
        let ghost t = old(self)@;
        if !(matches!(self.state, PlayState::PlayerTurn) || matches!(self.state, PlayState::SplitTurn { .. })) {
            return;
        }
        let idx = self.cur_idx();
        if idx >= self.hands.len() || self.hands[idx].done {
            return;
        }
        proof {
            assert(hand_ok(t.hands[idx as int]));
            lemma_hand_fits(t.hands[idx as int]);
        }
        let c = self.draw();
        let ghost before = self.hands@;
        self.hands[idx].cards.push(c);
        proof {
            lemma_hands_view_update(before, idx as int, self.hands@[idx as int]);
            let old_cards = t.hands[idx as int].cards;
            assert(self@.hands[idx as int].cards =~= old_cards.push(c));
            assert(valid_cards(self@.hands[idx as int].cards)) by {
                assert forall|i: int| 0 <= i < old_cards.len() + 1 implies valid_card(
                    #[trigger] old_cards.push(c)[i],
                ) by {
                    if i < old_cards.len() {
                        assert(old_cards.push(c)[i] == old_cards[i]);
                    }
                }
            }
            assert(hand_total(old_cards) <= 21);
            assert(self@.hands[idx as int].cards.len() <= 22);
            assert(hand_ok(self@.hands[idx as int]));
            lemma_valid_raw_bound(self@.hands[idx as int].cards);
        }
        if self.hands[idx].is_bust() {
            self.hands[idx].done = true;
            let mut msg = String::from_str("Hand ");
            let a = decimal_string((idx + 1) as u64);
            msg.append(a.as_str());
            msg.append(" bust!");
            self.message = msg;
            proof {
                let h = t.hands[idx as int];
                let cards = h.cards.push(c);
                let pre = TableView {
                    hands: t.hands.update(idx as int, HandView { cards, done: true, ..h }),
                    deck: self@.deck,
                    message: "Hand "@ + decimal((idx + 1) as nat) + " bust!"@,
                    ..t
                };
                assert(self@.hands =~= pre.hands);
                assert(self@ == pre);
                assert forall|i: int| 0 <= i < pre.hands.len() implies hand_ok(#[trigger] pre.hands[i]) by {
                    if i != idx {
                        assert(pre.hands[i] == t.hands[i]);
                    }
                }
                assert(table_ok(pre));
                lemma_advanced_ok(pre);
            }
            self.advance();
        } else {
            let v = self.hands[idx].value();
            let mut msg = hand_line("Hand ", (idx + 1) as u64, ": ", v);
            msg.append("  [H] [S]");
            self.message = msg;
            proof {
                let h = t.hands[idx as int];
                let cards = h.cards.push(c);
                assert(self@.hands =~= t.hands.update(idx as int, HandView { cards, ..h }));
                assert forall|i: int| 0 <= i < self@.hands.len() implies hand_ok(#[trigger] self@.hands[i]) by {
                    if i != idx {
                        assert(self@.hands[i] == t.hands[i]);
                    }
                }
            }
        }
    }
}


/// Every hand but `idx` is unchanged, so every hand is still sound.
proof fn lemma_update_ok(t: TableView, idx: int, h: HandView)
    requires
        table_ok(t),
        0 <= idx < t.hands.len(),
        hand_ok(h),
        in_play(t.state) && !h.done ==> hand_total(h.cards) <= 21,
    ensures
        table_ok(TableView { hands: t.hands.update(idx, h), ..t }),
{
    let u = TableView { hands: t.hands.update(idx, h), ..t };
    assert forall|i: int| 0 <= i < u.hands.len() implies hand_ok(#[trigger] u.hands[i]) by {
        if i != idx {
            assert(u.hands[i] == t.hands[i]);
        }
    }
    if in_play(u.state) {
        assert forall|i: int|
            0 <= i < u.hands.len() && !(#[trigger] u.hands[i]).done implies hand_total(
            u.hands[i].cards,
        ) <= 21 by {
            if i != idx {
                assert(u.hands[i] == t.hands[i]);
            }
        }
    }
}

proof fn lemma_push_valid(cards: Seq<Card>, c: Card)
    requires
        valid_cards(cards),
        valid_card(c),
    ensures
        valid_cards(cards.push(c)),
{
    assert forall|i: int| 0 <= i < cards.len() + 1 implies valid_card(#[trigger] cards.push(c)[i]) by {
        if i < cards.len() {
            assert(cards.push(c)[i] == cards[i]);
        }
    }
}

impl BlackjackEngine {
    pub fn stand(&mut self)
        requires
            old(self).wf(),
        ensures
            final(self).wf(),
            !player_may_act(old(self)@) ==> final(self)@ == old(self)@,
            player_may_act(old(self)@) ==> final(self)@ == stood(old(self)@),
    {
        let ghost t = old(self)@;
        if !(matches!(self.state, PlayState::PlayerTurn) || matches!(self.state, PlayState::SplitTurn { .. })) {
            return;
        }
        let idx = self.cur_idx();
        if idx >= self.hands.len() || self.hands[idx].done {
            return;
        }
        proof {
            assert(hand_ok(t.hands[idx as int]));
            lemma_hand_fits(t.hands[idx as int]);
        }
        let ghost before = self.hands@;
        self.hands[idx].done = true;
        let v = self.hands[idx].value();
        self.message = hand_line("Hand ", (idx + 1) as u64, " stand at ", v);
        proof {
            lemma_hands_view_update(before, idx as int, self.hands@[idx as int]);
            let h = t.hands[idx as int];
            let nh = HandView { done: true, ..h };
            assert(self@.hands =~= t.hands.update(idx as int, nh));
            assert(self@.message =~= "Hand "@ + decimal((idx + 1) as nat) + " stand at "@ + decimal(
                hand_total(h.cards) as nat,
            ));
            lemma_update_ok(t, idx as int, nh);
            let pre = TableView {
                hands: t.hands.update(idx as int, nh),
                message: self@.message,
                ..t
            };
            assert(self@ == pre);
            lemma_advanced_ok(pre);
        }
        self.advance();
    }

    pub fn double_down(&mut self, chips: i64) -> (extra: i64)
        requires
            old(self).wf(),
        ensures
            final(self).wf(),
            !double_allowed(old(self)@, chips) ==> extra == 0 && final(self)@ == old(self)@,
            double_allowed(old(self)@, chips) ==> extra == old(self)@.hands[current_index(
                old(self)@,
            )].bet && doubled_down(old(self)@, final(self)@),
    {
        let ghost t = old(self)@;
        if !(matches!(self.state, PlayState::PlayerTurn) || matches!(self.state, PlayState::SplitTurn { .. })) {
            return 0;
        }
        let idx = self.cur_idx();
        if idx >= self.hands.len() {
            return 0;
        }
        proof {
            assert(hand_ok(t.hands[idx as int]));
        }
        if !self.hands[idx].can_double(chips) {
            return 0;
        }
        let c = self.draw();
        let ghost before = self.hands@;
        let extra = self.hands[idx].bet;
        self.hands[idx].bet = extra * 2;
        self.hands[idx].doubled = true;
        self.hands[idx].cards.push(c);
        self.hands[idx].done = true;
        let ghost h = t.hands[idx as int];
        let ghost cards = h.cards.push(c);
        proof {
            lemma_hands_view_update(before, idx as int, self.hands@[idx as int]);
            assert(self@.hands[idx as int].cards =~= cards);
            lemma_push_valid(h.cards, c);
            lemma_valid_raw_bound(cards);
        }
        if self.hands[idx].is_bust() {
            self.message = String::from_str("Double bust!");
        } else {
            let v = self.hands[idx].value();
            self.message = text_with_number("Double stand at ", v as u64);
        }
        proof {
            let nh = HandView { cards, bet: (h.bet * 2) as i64, doubled: true, done: true, ..h };
            assert(self@.hands =~= t.hands.update(idx as int, nh));
            let t2 = TableView { deck: self@.deck, message: self@.message, ..t };
            lemma_update_ok(t2, idx as int, nh);
            assert(self@ == (TableView { hands: t2.hands.update(idx as int, nh), ..t2 }));
            lemma_advanced_ok(self@);
        }
        self.advance();
        extra
    }
}


impl BlackjackEngine {
    pub fn split(&mut self, chips: i64) -> (extra: i64)
        requires
            old(self).wf(),
            old(self).hands@.len() < isize::MAX,
        ensures
            final(self).wf(),
            !split_allowed(old(self)@, chips) ==> extra == 0 && final(self)@ == old(self)@,
            split_allowed(old(self)@, chips) ==> extra == old(self)@.hands[old(self).active as int].bet
                && split_done(old(self)@, final(self)@),
    {
        let ghost t = old(self)@;
        if self.state != PlayState::PlayerTurn {
            return 0;
        }
        if self.active >= self.hands.len() {
            return 0;
        }
        let a = self.active;
        proof {
            assert(hand_ok(t.hands[a as int]));
        }
        if !self.hands[a].can_split(chips) {
            return 0;
        }
        let ghost h = t.hands[a as int];
        let card = self.hands[a].cards[1];
        let bet = self.hands[a].bet;
        let ghost before = self.hands@;
        self.hands[a].cards.truncate(1);
        proof {
            lemma_draws_start(self.deck@);
        }
        let ghost d0 = self.deck@;
        let c1 = self.draw();
        let ghost d1 = self.deck@;
        proof {
            lemma_draws_push(d0, d0, d1, Seq::empty(), c1);
            assert(Seq::<Card>::empty().push(c1) =~= seq![c1]);
        }
        self.hands[a].cards.push(c1);
        let mut nh = Hand::new(bet);
        nh.cards.push(card);
        let c2 = self.draw();
        proof {
            lemma_draws_push(d0, d1, self.deck@, seq![c1], c2);
            assert(seq![c1].push(c2) =~= seq![c1, c2]);
        }
        nh.cards.push(c2);
        let ghost mid = self.hands@;
        self.hands.push(nh);
        self.state = PlayState::SplitTurn { hand_idx: 0 };
        let ghost first = HandView { cards: seq![h.cards[0], c1], ..h };
        let ghost second = HandView {
            cards: seq![h.cards[1], c2],
            bet: h.bet,
            done: false,
            doubled: false,
            outcome: None,
        };
        proof {
            assert(self.hands@[a as int].cards@ =~= seq![h.cards[0], c1]);
            assert(nh.cards@ =~= seq![h.cards[1], c2]);
            assert(self@.hands =~= t.hands.update(a as int, first).push(second)) by {
                assert(mid =~= before.update(a as int, mid[a as int]));
                lemma_hands_view_update(before, a as int, mid[a as int]);
                lemma_hands_view_push(mid, nh);
            }
            assert(valid_card(h.cards[0]) && valid_card(h.cards[1]));
            assert(valid_cards(first.cards));
            assert(valid_cards(second.cards));
            lemma_two_cards_open(first.cards);
            lemma_two_cards_open(second.cards);
            lemma_valid_raw_bound(first.cards);
            assert(hand_ok(first));
            assert(hand_ok(second));
        }
        proof {
            if a != 0 {
                assert(self@.hands[0] == t.hands[0]);
            }
            lemma_hand_fits(self@.hands[0]);
        }
        let v = self.hands[0].value();
        let mut m = text_with_number("Hand 1: ", v as u64);
        m.append("  [H] [S] [D]");
        self.message = m;
        proof {
            let n = self@;
            assert forall|i: int| 0 <= i < n.hands.len() implies hand_ok(#[trigger] n.hands[i]) by {
                if i != a && i != t.hands.len() {
                    assert(n.hands[i] == t.hands[i]);
                }
            }
            assert forall|i: int|
                0 <= i < n.hands.len() && !(#[trigger] n.hands[i]).done implies hand_total(
                n.hands[i].cards,
            ) <= 21 by {
                if i != a && i != t.hands.len() {
                    assert(n.hands[i] == t.hands[i]);
                }
            }
            assert(n.hands[a as int].cards[1] == c1);
            assert(n.hands[t.hands.len() as int].cards[1] == c2);
        }
        bet
    }

    pub fn settle(&self) -> (out: Vec<(Outcome, i64)>)
        requires
            forall|i: int| 0 <= i < self@.hands.len() ==> settles_within(#[trigger] self@.hands[i]),
        ensures
            out@.len() == self@.hands.len(),
            forall|i: int|
                0 <= i < out@.len() ==> #[trigger] out@[i] == (
                    settled_outcome(self@.hands[i]),
                    payout(self@.hands[i]) as i64,
                ),
    {
        let mut out: Vec<(Outcome, i64)> = Vec::new();
        let n = self.hands.len();
        let mut i: usize = 0;
        while i < n
            invariant
                0 <= i <= n,
                n == self@.hands.len(),
                out@.len() == i,
                forall|j: int| 0 <= j < self@.hands.len() ==> settles_within(#[trigger] self@.hands[j]),
                forall|j: int|
                    0 <= j < i ==> #[trigger] out@[j] == (
                        settled_outcome(self@.hands[j]),
                        payout(self@.hands[j]) as i64,
                    ),
            decreases n - i,
        {
            let h = &self.hands[i];
            assert(self@.hands[i as int] == h@);
            assert(settles_within(h@));
            let o = match h.outcome {
                Some(o) => o,
                None => Outcome::Lose,
            };
            let delta = match o {
                Outcome::Win => h.bet,
                Outcome::Lose => -h.bet,
                Outcome::Push => 0,
                Outcome::Blackjack => h.bet + h.bet / 2,
            };
            out.push((o, delta));
            i += 1;
        }
        out
    }

    pub fn tick(&mut self)
        requires
            old(self).wf(),
        ensures
            final(self).wf(),
            ticked(old(self)@, final(self)@),
    {
        let ghost t = old(self)@;
        match self.state {
            PlayState::DealerTurn => {
                self.tick += 1;
                if self.tick >= BJ_DEALER_TICK_DELAY {
                    proof {
                        lemma_total_at_least_len(t.dealer);
                    }
                    let dv = hand_value(self.dealer.as_slice());
                    if dv > 21 {
                        self.finish_round();
                        proof {
                            lemma_evaluated_ok(TableView { state: PlayState::RoundOver, message: house_result(t.dealer), tick: (t.tick + 1) as u8, ..t });
                        }
                        return;
                    }
                    if dv >= 17 && !(dv == 17 && is_soft(self.dealer.as_slice())) {
                        self.finish_round();
                        proof {
                            lemma_evaluated_ok(TableView { state: PlayState::RoundOver, message: house_result(t.dealer), tick: (t.tick + 1) as u8, ..t });
                        }
                        return;
                    }
                    let c = self.draw();
                    self.dealer.push(c);
                    proof {
                        lemma_push_valid(t.dealer, c);
                        lemma_valid_raw_bound(self.dealer@);
                    }
                    let v = hand_value(self.dealer.as_slice());
                    self.message = text_with_number("House draws... ", v as u64);
                    self.tick = 0;
                }
            },
            PlayState::RoundOver => {
                if let Some(anim) = &self.anim {
                    if anim.flash > 0 {
                        let f = anim.flash - 1;
                        let k = anim.kind;
                        if f == 0 {
                            self.anim = None;
                        } else {
                            self.anim = Some(AnimState { flash: f, kind: k });
                        }
                    }
                }
            },
            _ => {},
        }
    }
}

/// A total with `j` of its aces counted as 1 instead of 11.
pub open spec fn low_aces(raw: int, j: int) -> int {
    raw - 10 * j
}

proof fn lemma_soften_best(t: int, a: nat)
    ensures
        (t - soften(t, a).0) % 10 == 0,
        0 <= t - soften(t, a).0 <= 10 * a,
        forall|j: int| 0 <= j <= a && #[trigger] low_aces(t, j) <= 21 ==> low_aces(t, j) <= soften(t, a).0,
        soften(t, a).0 > 21 ==> soften(t, a).0 == t - 10 * a,
    decreases a,
{
    if t > 21 && a > 0 {
        lemma_soften_best(t - 10, (a - 1) as nat);
        let r = soften(t - 10, (a - 1) as nat).0;
        assert(t - r == (t - 10 - r) + 10);
        assert forall|j: int| 0 <= j <= a && #[trigger] low_aces(t, j) <= 21 implies low_aces(t, j) <= soften(t, a).0 by {
            assert(j >= 1);
            assert(low_aces(t, j) == low_aces(t - 10, j - 1));
        }
    }
}

/// Aces count 1 or 11, whichever suits the hand: its value counts some of
/// its aces as 1 and the others as 11, it is the highest such count of at
/// most 21, and a hand over 21 counts every ace as 1. Court cards count 10.
pub proof fn law_aces_count_best(cards: Seq<Card>)
    ensures
        ({
            let raw = raw_total(cards);
            let v = hand_total(cards);
            let aces = ace_count(cards) as int;
            &&& (raw - v) % 10 == 0
            &&& 0 <= raw - v <= 10 * aces
            &&& forall|j: int| 0 <= j <= aces && #[trigger] low_aces(raw, j) <= 21 ==> low_aces(raw, j) <= v
            &&& v > 21 ==> v == raw - 10 * aces
        }),
        forall|r: u8| 11 <= r <= 13 ==> #[trigger] card_points(r) == 10,
{
    lemma_soften_best(raw_total(cards), ace_count(cards));
}

/// The house plays to seventeen: a frame of its turn that ends the round
/// finds its hand at 17 or more and not a soft 17, and a frame in which it
/// draws finds its hand short of that.
pub proof fn law_house_plays_to_seventeen(t: TableView, n: TableView)
    requires
        ticked(t, n),
        t.state is DealerTurn,
    ensures
        n.state is RoundOver ==> dealer_done(t.dealer) && n.dealer == t.dealer,
        n.dealer.len() > t.dealer.len() ==> !dealer_done(t.dealer) && n.dealer.len() == t.dealer.len() + 1,
        !(n.state is RoundOver) ==> n.state is DealerTurn,
{
}

/// Payouts: a win pays the bet, a blackjack one and a half times the bet,
/// a push nothing, and a loss costs the bet.
pub proof fn law_payouts(h: HandView)
    ensures
        settled_outcome(h) is Win ==> payout(h) == h.bet,
        settled_outcome(h) is Blackjack ==> payout(h) == h.bet + half_toward_zero(h.bet as int),
        settled_outcome(h) is Push ==> payout(h) == 0,
        settled_outcome(h) is Lose ==> payout(h) == -h.bet,
        h.bet >= 0 && settled_outcome(h) is Blackjack ==> payout(h) == h.bet + h.bet / 2,
{
}

/// A card drawn leaves the deck: the deck afterwards and the card make up
/// the deck before, and an empty deck is replaced by a full one.
pub proof fn law_draw_keeps_cards(before: Seq<Card>, after: Seq<Card>, c: Card)
    requires
        draw_step(before, after, c),
    ensures
        before.len() > 0 ==> after.to_multiset().insert(c) =~= before.to_multiset(),
        before.len() == 0 ==> after.push(c).to_multiset() =~= standard_deck().to_multiset(),
{
    if before.len() > 0 {
        before.drop_last().to_multiset_ensures();
        assert(before =~= before.drop_last().push(before.last()));
        vstd::seq_lib::lemma_multiset_commutative(before.drop_last(), seq![before.last()]);
        assert(before.drop_last() + seq![before.last()] =~= before);
    }
}

/// The bet stays between the minimum of a thousand and the ceiling, which
/// is the chips capped at ten million, and never below the minimum.
pub proof fn law_bet_in_range(x: int, chips: i64)
    ensures
        1_000 <= clamped(x, 1_000, bet_ceiling(chips)) <= bet_ceiling(chips),
        1_000 <= bet_ceiling(chips) <= 10_000_000,
        chips >= 1_000 ==> bet_ceiling(chips) <= chips,
{
}

/// The house shows one card and hides the other: a deal that is not a
/// natural leaves two cards with the house, the second face down.
pub proof fn law_hole_card_hidden(t: TableView, n: TableView, chips: i64)
    requires
        dealt(t, n, chips),
        hand_total(n.hands[0].cards) != 21,
    ensures
        !n.reveal,
        n.dealer.len() == 2,
        n.state is PlayerTurn,
        n.hands.len() == 1 && n.hands[0].cards.len() == 2,
{
}

proof fn lemma_advanced_keeps_hands(u: TableView)
    ensures
        advanced(u).hands.len() == u.hands.len(),
        forall|i: int|
            0 <= i < u.hands.len() ==> {
                &&& (#[trigger] advanced(u).hands[i]).cards == u.hands[i].cards
                &&& advanced(u).hands[i].bet == u.hands[i].bet
                &&& advanced(u).hands[i].done == u.hands[i].done
                &&& advanced(u).hands[i].doubled == u.hands[i].doubled
            },
{
}

/// A double doubles the bet, takes exactly one card and closes the hand.
pub proof fn law_double_takes_one_card(t: TableView, n: TableView)
    requires
        doubled_down(t, n),
        current_index(t) < t.hands.len(),
        -(i64::MAX / 2) <= t.hands[current_index(t)].bet <= i64::MAX / 2,
    ensures
        ({
            let i = current_index(t);
            &&& n.hands[i].cards == t.hands[i].cards.push(n.hands[i].cards.last())
            &&& n.hands[i].bet == t.hands[i].bet * 2
            &&& n.hands[i].doubled
            &&& n.hands[i].done
        }),
{
    let i = current_index(t);
    let h = t.hands[i];
    let c = n.hands[i].cards.last();
    let cards = h.cards.push(c);
    let u = TableView {
        hands: t.hands.update(i, HandView { cards, bet: (h.bet * 2) as i64, doubled: true, done: true, ..h }),
        deck: n.deck,
        message: if hand_total(cards) > 21 {
            "Double bust!"@
        } else {
            "Double stand at "@ + decimal(hand_total(cards) as nat)
        },
        ..t
    };
    lemma_advanced_keeps_hands(u);
    assert(n == advanced(u));
    assert(advanced(u).hands[i].cards == u.hands[i].cards);
}

/// A split makes two hands of the pair, one card of it each, the second
/// hand with the same bet; each takes one more card.
pub proof fn law_split_makes_two_hands(t: TableView, n: TableView)
    requires
        split_done(t, n),
        t.active < t.hands.len(),
    ensures
        ({
            let a = t.active as int;
            let k = t.hands.len() as int;
            &&& n.hands.len() == t.hands.len() + 1
            &&& n.hands[a].cards.len() == 2 && n.hands[k].cards.len() == 2
            &&& n.hands[a].cards[0] == t.hands[a].cards[0]
            &&& n.hands[k].cards[0] == t.hands[a].cards[1]
            &&& n.hands[k].bet == t.hands[a].bet
            &&& n.hands[a].bet == t.hands[a].bet
        }),
{
}


proof fn lemma_soften_count(t: int, a: nat)
    ensures
        soften(t, a).1 <= a,
        t - soften(t, a).0 == 10 * (a - soften(t, a).1),
    decreases a,
{
    if t > 21 && a > 0 {
        lemma_soften_count(t - 10, (a - 1) as nat);
    }
}

/// A soft hand is one not over 21 in which some ace still counts as 11:
/// its value falls short of the total with every ace at 11 by less than
/// ten for each ace.
pub proof fn law_soft_means_an_ace_at_eleven(cards: Seq<Card>)
    ensures
        soft_hand(cards) <==> (hand_total(cards) <= 21 && raw_total(cards) - hand_total(cards) < 10
            * ace_count(cards)),
{
    lemma_soften_count(raw_total(cards), ace_count(cards));
}

/// When the house stands: on every total of 18 or more, soft or hard; on a
/// hard 17; never below 17; and it draws to a soft 17.
pub proof fn law_house_stands(d: Seq<Card>)
    ensures
        hand_total(d) >= 18 ==> dealer_done(d),
        hand_total(d) < 17 ==> !dealer_done(d),
        hand_total(d) == 17 && !soft_hand(d) ==> dealer_done(d),
        hand_total(d) == 17 && soft_hand(d) ==> !dealer_done(d),
{
}

/// A double needs a hand of exactly its two first cards, not doubled yet,
/// and chips covering twice its bet; any such hand may double.
pub proof fn law_double_needs_twice_the_bet(h: HandView, chips: i64)
    ensures
        may_double(h, chips) ==> chips >= 2 * h.bet,
        may_double(h, chips) ==> h.cards.len() == 2 && !h.doubled,
        h.cards.len() == 2 && !h.doubled && chips >= 2 * h.bet ==> may_double(h, chips),
        chips < 2 * h.bet ==> !may_double(h, chips),
{
}

/// A split needs a pair: two cards of the same rank, and chips covering
/// twice the bet; any such hand may split.
pub proof fn law_split_needs_a_pair(h: HandView, chips: i64)
    ensures
        may_split(h, chips) ==> h.cards.len() == 2 && h.cards[0].rank == h.cards[1].rank,
        may_split(h, chips) ==> chips >= 2 * h.bet,
        h.cards.len() == 2 && h.cards[0].rank == h.cards[1].rank && chips >= 2 * h.bet ==> may_split(h, chips),
        h.cards.len() == 2 && h.cards[0].rank != h.cards[1].rank ==> !may_split(h, chips),
{
}

/// How a hand fares against the house: two naturals push and pay nothing;
/// a natural alone is a blackjack; otherwise a bust hand or a house natural
/// loses, a house bust wins, and else the higher total wins and equal
/// totals push.
pub proof fn law_hand_against_house(cards: Seq<Card>, dealer: Seq<Card>, bet: i64)
    ensures
        natural(cards) && natural(dealer) ==> hand_outcome(cards, dealer) == Outcome::Push,
        natural(cards) && natural(dealer) ==> payout(
            HandView { cards, bet, done: true, doubled: false, outcome: Some(hand_outcome(cards, dealer)) },
        ) == 0,
        natural(cards) && !natural(dealer) ==> hand_outcome(cards, dealer) == Outcome::Blackjack,
        !natural(cards) && (hand_total(cards) > 21 || natural(dealer)) ==> hand_outcome(cards, dealer)
            == Outcome::Lose,
        !natural(cards) && !natural(dealer) && hand_total(cards) <= 21 && hand_total(dealer) > 21
            ==> hand_outcome(cards, dealer) == Outcome::Win,
        !natural(cards) && !natural(dealer) && hand_total(cards) <= 21 && hand_total(dealer) <= 21 ==> (
        hand_outcome(cards, dealer) == if hand_total(cards) > hand_total(dealer) {
            Outcome::Win
        } else if hand_total(cards) == hand_total(dealer) {
            Outcome::Push
        } else {
            Outcome::Lose
        }),
        hand_outcome(cards, dealer) == Outcome::Blackjack ==> natural(cards) && !natural(dealer),
{
}


/// A natural is an ace and a ten-card: two cards of ranks 1 to 13 are worth
/// 21 exactly when one is an ace and the other a ten, jack, queen or king.
pub proof fn law_natural_is_ace_and_ten(cards: Seq<Card>)
    requires
        cards.len() == 2,
        1 <= cards[0].rank <= 13,
        1 <= cards[1].rank <= 13,
    ensures
        natural(cards) <==> (cards[0].rank == 1 && cards[1].rank >= 10) || (cards[1].rank == 1
            && cards[0].rank >= 10),
{
    let c1 = cards.drop_last();
    assert(c1.drop_last().len() == 0);
    assert(c1.last() == cards[0]);
    assert(cards.last() == cards[1]);
    let r0 = cards[0].rank;
    let r1 = cards[1].rank;
    assert(raw_total(c1.drop_last()) == 0 && ace_count(c1.drop_last()) == 0);
    assert(raw_total(c1) == card_points(r0));
    assert(raw_total(cards) == card_points(r0) + card_points(r1));
    assert(ace_count(c1) == if r0 == 1 { 1nat } else { 0nat });
    assert(ace_count(cards) == ace_count(c1) + if r1 == 1 { 1nat } else { 0nat });
    reveal_with_fuel(soften, 3);
    let t = raw_total(cards);
    let a = ace_count(cards);
    assert(hand_total(cards) == soften(t, a).0);
    if r0 == 1 && r1 == 1 {
        assert(soften(t, a).0 == 12);
    } else if r0 == 1 || r1 == 1 {
        assert(soften(t, a).0 == t);
    } else {
        assert(soften(t, a).0 == t);
    }
}

} // verus!

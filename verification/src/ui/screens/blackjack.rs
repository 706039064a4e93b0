use vstd::prelude::*;
use vstd::string::*;

use crate::games::blackjack::{
    hand_total, hand_value, rank_label, raw_total, AnimState, Card, Hand, Outcome, PlayState,
    Suit,
};
use crate::utils::numtext::{decimal, decimal_string};

verus! {

/// The label printed on a card: its rank label.
pub fn card_value_single(c: &Card) -> (s: String)
    ensures
        s@ == rank_label(c.rank),
{
    proof {
        reveal_strlit("A");
        reveal_strlit("J");
        reveal_strlit("Q");
        reveal_strlit("K");
        reveal_strlit("10");
        assert(decimal(10) == seq!['1', '0']) by {
            assert(decimal(1) == seq!['1']);
        }
    }
    match c.rank {
        1 => String::from_str("A"),
        11 => String::from_str("J"),
        12 => String::from_str("Q"),
        13 => String::from_str("K"),
        10 => String::from_str("10"),
        n => decimal_string(n as u64),
    }
}

/// The house line: once revealed its value, flagged when bust or a
/// blackjack; before that the value of the up card.
pub open spec fn house_line(dealer: Seq<Card>, reveal: bool) -> Seq<char> {
    if reveal {
        let v = hand_total(dealer);
        if v > 21 {
            "  HOUSE: "@ + decimal(v as nat) + "  BUST"@
        } else if v == 21 && dealer.len() == 2 {
            "  HOUSE: "@ + decimal(v as nat) + "  BLACKJACK"@
        } else {
            "  HOUSE: "@ + decimal(v as nat)
        }
    } else {
        "  SHOWING: "@ + rank_label(dealer[0].rank)
    }
}

pub fn dealer_value_display(dealer: &[Card], reveal: bool) -> (s: String)
    requires
        reveal ==> raw_total(dealer@) <= 255,
        !reveal ==> dealer@.len() > 0,
    ensures
        s@ == house_line(dealer@, reveal),
{
    if reveal {
        let v = hand_value(dealer);
        let mut s = String::from_str("  HOUSE: ");
        let d = decimal_string(v as u64);
        s.append(d.as_str());
        if v > 21 {
            s.append("  BUST");
        } else if v == 21 && dealer.len() == 2 {
            s.append("  BLACKJACK");
        }
        s
    } else {
        let v = card_value_single(&dealer[0]);
        let mut s = String::from_str("  SHOWING: ");
        s.append(v.as_str());
        s
    }
}

/// Some hand ended with `outcome`.
pub open spec fn has_outcome(hands: Seq<Hand>, outcome: Outcome) -> bool {
    exists|i: int| 0 <= i < hands.len() && #[trigger] hands[i].outcome == Some(outcome)
}

pub fn any_outcome(hands: &[Hand], outcome: Outcome) -> (b: bool)
    ensures
        b == has_outcome(hands@, outcome),
{
    let mut i: usize = 0;
    while i < hands.len()
        invariant
            0 <= i <= hands@.len(),
            forall|j: int| 0 <= j < i ==> hands@[j].outcome != Some(outcome),
        decreases hands@.len() - i,
    {
        if hands[i].outcome == Some(outcome) {
            return true;
        }
        i += 1;
    }
    false
}

/// The banner over a finished round: a blackjack first, then a mixed round,
/// a win, a loss, a push, in that order of precedence.
pub open spec fn round_title(hands: Seq<Hand>) -> &'static str {
    if has_outcome(hands, Outcome::Blackjack) {
        "BLACKJACK"
    } else if has_outcome(hands, Outcome::Win) && has_outcome(hands, Outcome::Lose) {
        "MIXED ROUND"
    } else if has_outcome(hands, Outcome::Win) {
        "YOU WIN"
    } else if has_outcome(hands, Outcome::Lose) {
        "HOUSE WINS"
    } else if has_outcome(hands, Outcome::Push) {
        "PUSH"
    } else {
        "ROUND OVER"
    }
}

/// The title of the round banner; its colour is picked by the screen.
pub fn round_banner_title(hands: &[Hand]) -> (t: &'static str)
    ensures
        t == round_title(hands@),
{
    let has_bj = any_outcome(hands, Outcome::Blackjack);
    let has_win = any_outcome(hands, Outcome::Win);
    let has_lose = any_outcome(hands, Outcome::Lose);
    let has_push = any_outcome(hands, Outcome::Push);
    if has_bj {
        "BLACKJACK"
    } else if has_win && has_lose {
        "MIXED ROUND"
    } else if has_win {
        "YOU WIN"
    } else if has_lose {
        "HOUSE WINS"
    } else if has_push {
        "PUSH"
    } else {
        "ROUND OVER"
    }
}

/// The outcome whose colour the cards flash in, if any: the flash blinks,
/// lit for four frames out of every eight.
pub open spec fn flash_of(anim: Option<AnimState>) -> Option<Outcome> {
    match anim {
        Some(a) => if a.flash == 0 || a.flash % 8 < 4 {
            None
        } else {
            Some(a.kind)
        },
        None => None,
    }
}

/// Which outcome the cards flash for; its colour is picked by the screen.
pub fn flash_outcome(anim: &Option<AnimState>) -> (o: Option<Outcome>)
    ensures
        o == flash_of(*anim),
{
    match anim {
        Some(a) => if a.flash == 0 || a.flash % 8 < 4 {
            None
        } else {
            Some(a.kind)
        },
        None => None,
    }
}

fn str_equal(a: &str, b: &str) -> (r: bool)
    ensures
        r == (a@ == b@),
{
    let n = a.unicode_len();
    if n != b.unicode_len() {
        return false;
    }
    let mut i: usize = 0;
    while i < n
        invariant
            0 <= i <= n,
            n == a@.len(),
            n == b@.len(),
            forall|j: int| 0 <= j < i ==> a@[j] == b@[j],
        decreases n - i,
    {
        if a.get_char(i) != b.get_char(i) {
            return false;
        }
        i += 1;
    }
    assert(a@ =~= b@);
    true
}

/// Block letters for a round title.
pub open spec fn banner_lines(title: Seq<char>) -> Seq<&'static str> {
    if title == "BLACKJACK"@ {
        seq![
            r"  ____  _        _    ____ _  __    _   _    ____ _  __ ",
            r" | __ )| |      / \  / ___| |/ /   | | / \  / ___| |/ / ",
            r" |  _ \| |     / _ \| |   | ' / _  | |/ _ \| |   | ' /  ",
            r" | |_) | |___ / ___ \ |___| . \| |_| / ___ \ |___| . \  ",
            r" |____/|_____/_/   \_\____|_|\_\\___/_/   \_\____|_|\_\ ",
        ]
    } else if title == "YOU WIN"@ {
        seq![
            r" __   __  ___  _   _  __        __ ___  _   _  ",
            r" \ \ / / / _ \| | | | \ \      / /|_ _|| \ | | ",
            r"  \ V / | | | | | | |  \ \ /\ / /  | | |  \| | ",
            r"   | |  | |_| | |_| |   \ V  V /   | | | |\  | ",
            r"   |_|   \___/ \___/     \_/\_/   |___||_| \_| ",
        ]
    } else if title == "HOUSE WINS"@ {
        seq![
            r" _   _  ___  _   _ ____  _____  __        __ ___  _   _  ____  ",
            r"| | | |/ _ \| | | / ___|| ____| \ \      / /|_ _|| \ | |/ ___| ",
            r"| |_| | | | | | | \___ \|  _|    \ \ /\ / /  | | |  \| |\___ \ ",
            r"|  _  | |_| | |_| |___) | |___    \ V  V /   | | | |\  | ___) |",
            r"|_| |_|\___/ \___/|____/|_____|    \_/\_/   |___||_| \_||____/ ",
        ]
    } else if title == "PUSH"@ {
        seq![
            r"  ____  _   _  ____  _   _  ",
            r" |  _ \| | | |/ ___|| | | | ",
            r" | |_) | | | |\___ \| |_| | ",
            r" |  __/| |_| | ___) |  _  | ",
            r" |_|    \___/ |____/|_| |_| ",
        ]
    } else {
        seq![
            r"  ____   ___  _   _ _   _ ____   ",
            r" |  _ \ / _ \| | | | \ | |  _ \  ",
            r" | |_) | | | | | | |  \| | | | | ",
            r" |  _ <| |_| | |_| | |\  | |_| | ",
            r" |_| \_\\___/ \___/|_| \_|____/  ",
        ]
    }
}

pub fn banner_art(title: &str) -> (art: &'static [&'static str])
    ensures
        art@ == banner_lines(title@),
{
    if str_equal(title, "BLACKJACK") {
        &[
            r"  ____  _        _    ____ _  __    _   _    ____ _  __ ",
            r" | __ )| |      / \  / ___| |/ /   | | / \  / ___| |/ / ",
            r" |  _ \| |     / _ \| |   | ' / _  | |/ _ \| |   | ' /  ",
            r" | |_) | |___ / ___ \ |___| . \| |_| / ___ \ |___| . \  ",
            r" |____/|_____/_/   \_\____|_|\_\\___/_/   \_\____|_|\_\ ",
        ]
    } else if str_equal(title, "YOU WIN") {
        &[
            r" __   __  ___  _   _  __        __ ___  _   _  ",
            r" \ \ / / / _ \| | | | \ \      / /|_ _|| \ | | ",
            r"  \ V / | | | | | | |  \ \ /\ / /  | | |  \| | ",
            r"   | |  | |_| | |_| |   \ V  V /   | | | |\  | ",
            r"   |_|   \___/ \___/     \_/\_/   |___||_| \_| ",
        ]
    } else if str_equal(title, "HOUSE WINS") {
        &[
            r" _   _  ___  _   _ ____  _____  __        __ ___  _   _  ____  ",
            r"| | | |/ _ \| | | / ___|| ____| \ \      / /|_ _|| \ | |/ ___| ",
            r"| |_| | | | | | | \___ \|  _|    \ \ /\ / /  | | |  \| |\___ \ ",
            r"|  _  | |_| | |_| |___) | |___    \ V  V /   | | | |\  | ___) |",
            r"|_| |_|\___/ \___/|____/|_____|    \_/\_/   |___||_| \_||____/ ",
        ]
    } else if str_equal(title, "PUSH") {
        &[
            r"  ____  _   _  ____  _   _  ",
            r" |  _ \| | | |/ ___|| | | | ",
            r" | |_) | | | |\___ \| |_| | ",
            r" |  __/| |_| | ___) |  _  | ",
            r" |_|    \___/ |____/|_| |_| ",
        ]
    } else {
        &[
            r"  ____   ___  _   _ _   _ ____   ",
            r" |  _ \ / _ \| | | | \ | |  _ \  ",
            r" | |_) | | | | | | |  \| | | | | ",
            r" |  _ <| |_| | |_| | |\  | |_| | ",
            r" |_| \_\\___/ \___/|_| \_|____/  ",
        ]
    }
}

/// The tag over the table for each state of play.
pub open spec fn state_label(s: PlayState) -> &'static str {
    match s {
        PlayState::Idle | PlayState::RoundOver => "IDLE",
        PlayState::Dealing { .. } => "DEAL",
        PlayState::PlayerTurn => "PLAY",
        PlayState::SplitTurn { .. } => "SPLIT",
        PlayState::DealerTurn => "HOUSE",
    }
}

pub fn state_tag(s: &PlayState) -> (t: &'static str)
    ensures
        t == state_label(*s),
{
    match s {
        PlayState::Idle | PlayState::RoundOver => "IDLE",
        PlayState::Dealing { .. } => "DEAL",
        PlayState::PlayerTurn => "PLAY",
        PlayState::SplitTurn { .. } => "SPLIT",
        PlayState::DealerTurn => "HOUSE",
    }
}

/// The keys on offer in each state of play.
pub open spec fn command_line(s: PlayState) -> &'static str {
    match s {
        PlayState::Idle | PlayState::RoundOver => " [←/→] Bet  [↑/↓] +10K  [Space] Deal  [R] Rules  [Esc] Dashboard ",
        PlayState::Dealing { .. } => " Dealing... ",
        PlayState::PlayerTurn => " [H] Hit  [S] Stand  [D] Double  [P] Split  [R] Rules  [Esc] Dashboard ",
        PlayState::SplitTurn { .. } => " [H] Hit  [S] Stand  [D] Double  [R] Rules  [Esc] Dashboard ",
        PlayState::DealerTurn => " House drawing... ",
    }
}

pub fn command_hint(s: &PlayState) -> (t: &'static str)
    ensures
        t == command_line(*s),
{
    match s {
        PlayState::Idle | PlayState::RoundOver => " [←/→] Bet  [↑/↓] +10K  [Space] Deal  [R] Rules  [Esc] Dashboard ",
        PlayState::Dealing { .. } => " Dealing... ",
        PlayState::PlayerTurn => " [H] Hit  [S] Stand  [D] Double  [P] Split  [R] Rules  [Esc] Dashboard ",
        PlayState::SplitTurn { .. } => " [H] Hit  [S] Stand  [D] Double  [R] Rules  [Esc] Dashboard ",
        PlayState::DealerTurn => " House drawing... ",
    }
}

/// How a hand is named: "You" while it is the only one, "Hand n" after a
/// split.
pub open spec fn hand_name(i: int, count: int) -> Seq<char> {
    if count > 1 {
        "Hand "@ + decimal((i + 1) as nat)
    } else {
        "You"@
    }
}

pub fn hand_label(i: usize, count: usize) -> (t: String)
    requires
        i < usize::MAX,
    ensures
        t@ == hand_name(i as int, count as int),
{
    if count > 1 {
        let mut t = String::from_str("Hand ");
        let n = decimal_string((i + 1) as u64);
        t.append(n.as_str());
        t
    } else {
        String::from_str("You")
    }
}

/// The large suit drawn in the middle of a card face.
pub open spec fn suit_picture(s: Suit) -> Seq<&'static str> {
    match s {
        Suit::Spades => seq!["   ◢◤◥◣   ", "  ◢████◣  ", " ◢██████◣ ", " ◥██████◤ ", "    ██    "],
        Suit::Hearts => seq!["  ◢████◣  ", " ◢██████◣ ", " ◥██████◤ ", "  ◥████◤  ", "   ◥◤◥◤   "],
        Suit::Diamonds => seq!["    ◢◣    ", "   ◢██◣   ", "  ◢████◣  ", "   ◥██◤   ", "    ◥◤    "],
        Suit::Clubs => seq!["    ◢◣    ", "  ◢████◣  ", " ◢██████◣ ", " ◥██████◤ ", "    ██    "],
    }
}

pub fn suit_art(s: Suit) -> (art: [&'static str; 5])
    ensures
        art@ == suit_picture(s),
{
    let art = match s {
        Suit::Spades => ["   ◢◤◥◣   ", "  ◢████◣  ", " ◢██████◣ ", " ◥██████◤ ", "    ██    "],
        Suit::Hearts => ["  ◢████◣  ", " ◢██████◣ ", " ◥██████◤ ", "  ◥████◤  ", "   ◥◤◥◤   "],
        Suit::Diamonds => ["    ◢◣    ", "   ◢██◣   ", "  ◢████◣  ", "   ◥██◤   ", "    ◥◤    "],
        Suit::Clubs => ["    ◢◣    ", "  ◢████◣  ", " ◢██████◣ ", " ◥██████◤ ", "    ██    "],
    };
    assert(art@ =~= suit_picture(s));
    art
}

/// Hearts and diamonds are printed red.
pub fn red_suit(s: Suit) -> (b: bool)
    ensures
        b == (s is Hearts || s is Diamonds),
{
    matches!(s, Suit::Hearts | Suit::Diamonds)
}

} // verus!

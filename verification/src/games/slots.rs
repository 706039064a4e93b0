use rand::Rng;
use vstd::prelude::*;
use vstd::string::*;

use crate::config::{SLOTS_REEL_STAGGER, SLOTS_SPIN_FRAMES};
use crate::games::blackjack::clamped;
use crate::utils::numtext::{decimal, decimal_string};

verus! {

#[derive(Debug, Clone, Copy, PartialEq, Eq, Hash, Structural)]
pub enum SlotSymbol {
    Cherry,
    Lemon,
    Bell,
    Seven,
    Diamond,
    Wild,
    Scatter,
    Crown,
    Flame,
    Cyber,
    Bar,
    DoubleBar,
    TripleBar,
    Horseshoe,
    Coin,
    Heart,
    Star,
    GoldBar,
}

#[derive(Debug, Clone, Copy, PartialEq, Eq, PartialOrd, Ord, Structural)]
pub enum Rarity {
    Common,
    Rare,
    Epic,
    Legendary,
}

/// How rare a symbol is.
pub open spec fn symbol_rarity(s: SlotSymbol) -> Rarity {
    match s {
        SlotSymbol::Cherry | SlotSymbol::Lemon | SlotSymbol::Bell | SlotSymbol::Heart
        | SlotSymbol::Coin => Rarity::Common,
        SlotSymbol::Flame | SlotSymbol::Cyber | SlotSymbol::Star | SlotSymbol::Bar => Rarity::Rare,
        SlotSymbol::Seven | SlotSymbol::DoubleBar | SlotSymbol::Horseshoe | SlotSymbol::Crown => Rarity::Epic,
        SlotSymbol::Diamond | SlotSymbol::TripleBar | SlotSymbol::GoldBar | SlotSymbol::Wild
        | SlotSymbol::Scatter => Rarity::Legendary,
    }
}

/// The five rows of block art drawn for a symbol on a reel.
pub open spec fn symbol_art(s: SlotSymbol) -> Seq<&'static str> {
    match s {
        SlotSymbol::Cherry => seq![
            "  ▄▄ ▄▄ ",
            " ██████ ",
            " ▀████▀ ",
            "   ▀▀   ",
            "   🍒   ",
        ],
        SlotSymbol::Lemon => seq![
            "   ▄██▄ ",
            "  ██████",
            "  ▀████▀",
            "   ▀██▀ ",
            "   🍋   ",
        ],
        SlotSymbol::Bell => seq![
            "   ▄▄   ",
            "  ████  ",
            " ██████ ",
            " ▀████▀ ",
            "   🔔   ",
        ],
        SlotSymbol::Seven => seq![
            " ▀▀▀▀▀██",
            "     ██ ",
            "    ██  ",
            "   ██   ",
            "  ██    ",
        ],
        SlotSymbol::Diamond => seq![
            "   ▄▄   ",
            " ▄████▄ ",
            " ██████ ",
            " ▀████▀ ",
            "   💎   ",
        ],
        SlotSymbol::Wild => seq![
            "   ⭐   ",
            "  ⭐⭐  ",
            " ⭐⭐⭐ ",
            "  ⭐⭐  ",
            "   ⭐   ",
        ],
        SlotSymbol::Scatter => seq![
            "  🎰🎰  ",
            " 🎰🎰🎰 ",
            " 🎰🎰🎰 ",
            "  🎰🎰  ",
            "   🎰   ",
        ],
        SlotSymbol::Crown => seq![
            " 👑👑👑 ",
            " ██████ ",
            " ██████ ",
            "  ▀▀▀▀  ",
            "   👑   ",
        ],
        SlotSymbol::Flame => seq![
            "   🔥   ",
            "  🔥🔥  ",
            " 🔥🔥🔥 ",
            "  🔥🔥  ",
            "   🔥   ",
        ],
        SlotSymbol::Cyber => seq![
            "  💠💠  ",
            " 💠💠💠 ",
            " 💠💠💠 ",
            "  💠💠  ",
            "   💠   ",
        ],
        SlotSymbol::Bar => seq![
            " ▄████▄ ",
            " ██████ ",
            " ██████ ",
            " ▀████▀ ",
            "  BAR   ",
        ],
        SlotSymbol::DoubleBar => seq![
            " ██████ ",
            "  BAR   ",
            "        ",
            " ██████ ",
            "  BAR   ",
        ],
        SlotSymbol::TripleBar => seq![
            " ██████ ",
            "  BAR   ",
            " ██████ ",
            "  BAR   ",
            " ██████ ",
        ],
        SlotSymbol::Horseshoe => seq![
            "  ▄██▄  ",
            " ██  ██ ",
            " ██  ██ ",
            " ▀█  █▀ ",
            "   🧲   ",
        ],
        SlotSymbol::Coin => seq![
            "   ▄▄   ",
            "  ████  ",
            "  ████  ",
            "   ▀▀   ",
            "   🪙   ",
        ],
        SlotSymbol::Heart => seq![
            "  ▄▄ ▄▄ ",
            " ██████ ",
            "  ████  ",
            "   ██   ",
            "   ❤️   ",
        ],
        SlotSymbol::Star => seq![
            "   ██   ",
            " ██████ ",
            "  ████  ",
            " ██  ██ ",
            "   ⭐   ",
        ],
        SlotSymbol::GoldBar => seq![
            "        ",
            " ▄████▄ ",
            " ██████ ",
            " ▀████▀ ",
            "  GOLD  ",
        ],
    }
}

impl SlotSymbol {
    pub fn is_wild(self) -> (b: bool)
        ensures
            b == (self == SlotSymbol::Wild),
    {
        matches!(self, SlotSymbol::Wild)
    }

    pub fn is_scatter(self) -> (b: bool)
        ensures
            b == (self == SlotSymbol::Scatter),
    {
        matches!(self, SlotSymbol::Scatter)
    }

    pub fn rarity(self) -> (r: Rarity)
        ensures
            r == symbol_rarity(self),
    {
        match self {
            SlotSymbol::Cherry | SlotSymbol::Lemon | SlotSymbol::Bell | SlotSymbol::Heart
            | SlotSymbol::Coin => Rarity::Common,
            SlotSymbol::Flame | SlotSymbol::Cyber | SlotSymbol::Star | SlotSymbol::Bar => Rarity::Rare,
            SlotSymbol::Seven | SlotSymbol::DoubleBar | SlotSymbol::Horseshoe | SlotSymbol::Crown => Rarity::Epic,
            SlotSymbol::Diamond | SlotSymbol::TripleBar | SlotSymbol::GoldBar | SlotSymbol::Wild
            | SlotSymbol::Scatter => Rarity::Legendary,
        }
    }

    pub fn big_symbol(self) -> (art: [&'static str; 5])
        ensures
            art@ == symbol_art(self),
    {
        match self {
            SlotSymbol::Cherry => [
                "  ▄▄ ▄▄ ",
                " ██████ ",
                " ▀████▀ ",
                "   ▀▀   ",
                "   🍒   ",
            ],
            SlotSymbol::Lemon => [
                "   ▄██▄ ",
                "  ██████",
                "  ▀████▀",
                "   ▀██▀ ",
                "   🍋   ",
            ],
            SlotSymbol::Bell => [
                "   ▄▄   ",
                "  ████  ",
                " ██████ ",
                " ▀████▀ ",
                "   🔔   ",
            ],
            SlotSymbol::Seven => [
                " ▀▀▀▀▀██",
                "     ██ ",
                "    ██  ",
                "   ██   ",
                "  ██    ",
            ],
            SlotSymbol::Diamond => [
                "   ▄▄   ",
                " ▄████▄ ",
                " ██████ ",
                " ▀████▀ ",
                "   💎   ",
            ],
            SlotSymbol::Wild => [
                "   ⭐   ",
                "  ⭐⭐  ",
                " ⭐⭐⭐ ",
                "  ⭐⭐  ",
                "   ⭐   ",
            ],
            SlotSymbol::Scatter => [
                "  🎰🎰  ",
                " 🎰🎰🎰 ",
                " 🎰🎰🎰 ",
                "  🎰🎰  ",
                "   🎰   ",
            ],
            SlotSymbol::Crown => [
                " 👑👑👑 ",
                " ██████ ",
                " ██████ ",
                "  ▀▀▀▀  ",
                "   👑   ",
            ],
            SlotSymbol::Flame => [
                "   🔥   ",
                "  🔥🔥  ",
                " 🔥🔥🔥 ",
                "  🔥🔥  ",
                "   🔥   ",
            ],
            SlotSymbol::Cyber => [
                "  💠💠  ",
                " 💠💠💠 ",
                " 💠💠💠 ",
                "  💠💠  ",
                "   💠   ",
            ],
            SlotSymbol::Bar => [
                " ▄████▄ ",
                " ██████ ",
                " ██████ ",
                " ▀████▀ ",
                "  BAR   ",
            ],
            SlotSymbol::DoubleBar => [
                " ██████ ",
                "  BAR   ",
                "        ",
                " ██████ ",
                "  BAR   ",
            ],
            SlotSymbol::TripleBar => [
                " ██████ ",
                "  BAR   ",
                " ██████ ",
                "  BAR   ",
                " ██████ ",
            ],
            SlotSymbol::Horseshoe => [
                "  ▄██▄  ",
                " ██  ██ ",
                " ██  ██ ",
                " ▀█  █▀ ",
                "   🧲   ",
            ],
            SlotSymbol::Coin => [
                "   ▄▄   ",
                "  ████  ",
                "  ████  ",
                "   ▀▀   ",
                "   🪙   ",
            ],
            SlotSymbol::Heart => [
                "  ▄▄ ▄▄ ",
                " ██████ ",
                "  ████  ",
                "   ██   ",
                "   ❤️   ",
            ],
            SlotSymbol::Star => [
                "   ██   ",
                " ██████ ",
                "  ████  ",
                " ██  ██ ",
                "   ⭐   ",
            ],
            SlotSymbol::GoldBar => [
                "        ",
                " ▄████▄ ",
                " ██████ ",
                " ▀████▀ ",
                "  GOLD  ",
            ],
        }
    }
}

#[derive(Debug, Clone, Copy, PartialEq, Eq, Structural)]
pub enum MachineType {
    Classic,
    Cyber,
    Retro,
    Neon,
    Hacker,
    Elite,
    Midnight,
    DiamondRush,
    Lucky7,
    Inferno,
    Monochrome,
}

/// The name a machine is shown under.
pub open spec fn machine_name(m: MachineType) -> &'static str {
    match m {
        MachineType::Classic => "Classic Vegas",
        MachineType::Cyber => "Cyber Slots",
        MachineType::Retro => "Retro Casino",
        MachineType::Neon => "Neon Jackpot",
        MachineType::Hacker => "Hacker Machine",
        MachineType::Elite => "Elite VIP",
        MachineType::Midnight => "Midnight Machine",
        MachineType::DiamondRush => "Diamond Rush",
        MachineType::Lucky7 => "Lucky 7 Machine",
        MachineType::Inferno => "Inferno Slots",
        MachineType::Monochrome => "Monochrome",
    }
}

/// The reel strip of a machine: each symbol with its draw weight and its
/// line payout.
pub open spec fn machine_pool(m: MachineType) -> Seq<(SlotSymbol, u32, i64)> {
    match m {
        MachineType::Classic => seq![
            (SlotSymbol::Cherry, 40u32, 3i64),
            (SlotSymbol::Lemon, 30u32, 4i64),
            (SlotSymbol::Bell, 18u32, 7i64),
            (SlotSymbol::Seven, 8u32, 12i64),
            (SlotSymbol::Diamond, 4u32, 25i64),
        ],
        MachineType::Cyber => seq![
            (SlotSymbol::Cherry, 30u32, 2i64),
            (SlotSymbol::Lemon, 25u32, 3i64),
            (SlotSymbol::Cyber, 20u32, 5i64),
            (SlotSymbol::Seven, 10u32, 10i64),
            (SlotSymbol::Wild, 8u32, 0i64),
            (SlotSymbol::Diamond, 5u32, 30i64),
            (SlotSymbol::Scatter, 2u32, 0i64),
        ],
        MachineType::Retro => seq![
            (SlotSymbol::Cherry, 35u32, 3i64),
            (SlotSymbol::Lemon, 25u32, 5i64),
            (SlotSymbol::Bell, 15u32, 8i64),
            (SlotSymbol::Crown, 10u32, 15i64),
            (SlotSymbol::Seven, 8u32, 20i64),
            (SlotSymbol::Diamond, 5u32, 50i64),
            (SlotSymbol::Wild, 2u32, 0i64),
        ],
        MachineType::Neon => seq![
            (SlotSymbol::Cherry, 35u32, 2i64),
            (SlotSymbol::Flame, 25u32, 4i64),
            (SlotSymbol::Bell, 15u32, 6i64),
            (SlotSymbol::Seven, 10u32, 10i64),
            (SlotSymbol::Diamond, 8u32, 20i64),
            (SlotSymbol::Wild, 5u32, 0i64),
            (SlotSymbol::Scatter, 2u32, 0i64),
        ],
        MachineType::Hacker => seq![
            (SlotSymbol::Cyber, 30u32, 3i64),
            (SlotSymbol::Flame, 20u32, 5i64),
            (SlotSymbol::Seven, 15u32, 8i64),
            (SlotSymbol::Crown, 10u32, 12i64),
            (SlotSymbol::Diamond, 8u32, 25i64),
            (SlotSymbol::Wild, 7u32, 0i64),
            (SlotSymbol::Scatter, 10u32, 0i64),
        ],
        MachineType::Elite => seq![
            (SlotSymbol::Diamond, 35u32, 15i64),
            (SlotSymbol::Crown, 25u32, 20i64),
            (SlotSymbol::Seven, 15u32, 30i64),
            (SlotSymbol::Wild, 15u32, 0i64),
            (SlotSymbol::Scatter, 10u32, 0i64),
        ],
        MachineType::Midnight => seq![
            (SlotSymbol::Star, 35u32, 4i64),
            (SlotSymbol::Cyber, 25u32, 6i64),
            (SlotSymbol::DoubleBar, 15u32, 10i64),
            (SlotSymbol::TripleBar, 10u32, 20i64),
            (SlotSymbol::Wild, 10u32, 0i64),
            (SlotSymbol::Scatter, 5u32, 0i64),
        ],
        MachineType::DiamondRush => seq![
            (SlotSymbol::Diamond, 50u32, 10i64),
            (SlotSymbol::GoldBar, 20u32, 15i64),
            (SlotSymbol::Crown, 15u32, 20i64),
            (SlotSymbol::Wild, 10u32, 0i64),
            (SlotSymbol::Scatter, 5u32, 0i64),
        ],
        MachineType::Lucky7 => seq![
            (SlotSymbol::Seven, 40u32, 15i64),
            (SlotSymbol::Cherry, 30u32, 2i64),
            (SlotSymbol::Horseshoe, 15u32, 10i64),
            (SlotSymbol::Wild, 10u32, 0i64),
            (SlotSymbol::Scatter, 5u32, 0i64),
        ],
        MachineType::Inferno => seq![
            (SlotSymbol::Flame, 40u32, 5i64),
            (SlotSymbol::Seven, 20u32, 15i64),
            (SlotSymbol::TripleBar, 15u32, 20i64),
            (SlotSymbol::Heart, 10u32, 10i64),
            (SlotSymbol::Wild, 10u32, 0i64),
            (SlotSymbol::Scatter, 5u32, 0i64),
        ],
        MachineType::Monochrome => seq![
            (SlotSymbol::Bar, 40u32, 3i64),
            (SlotSymbol::DoubleBar, 30u32, 6i64),
            (SlotSymbol::TripleBar, 15u32, 12i64),
            (SlotSymbol::Diamond, 10u32, 25i64),
            (SlotSymbol::Scatter, 5u32, 0i64),
        ],
    }
}

impl MachineType {
    pub fn name(&self) -> (n: &str)
        ensures
            n == machine_name(*self),
    {
        match self {
            MachineType::Classic => "Classic Vegas",
            MachineType::Cyber => "Cyber Slots",
            MachineType::Retro => "Retro Casino",
            MachineType::Neon => "Neon Jackpot",
            MachineType::Hacker => "Hacker Machine",
            MachineType::Elite => "Elite VIP",
            MachineType::Midnight => "Midnight Machine",
            MachineType::DiamondRush => "Diamond Rush",
            MachineType::Lucky7 => "Lucky 7 Machine",
            MachineType::Inferno => "Inferno Slots",
            MachineType::Monochrome => "Monochrome",
        }
    }

    pub fn symbol_pool(self) -> (pool: &'static [(SlotSymbol, u32, i64)])
        ensures
            pool@ == machine_pool(self),
    {
        match self {
            MachineType::Classic => &[
                (SlotSymbol::Cherry, 40, 3),
                (SlotSymbol::Lemon, 30, 4),
                (SlotSymbol::Bell, 18, 7),
                (SlotSymbol::Seven, 8, 12),
                (SlotSymbol::Diamond, 4, 25),
            ],
            MachineType::Cyber => &[
                (SlotSymbol::Cherry, 30, 2),
                (SlotSymbol::Lemon, 25, 3),
                (SlotSymbol::Cyber, 20, 5),
                (SlotSymbol::Seven, 10, 10),
                (SlotSymbol::Wild, 8, 0),
                (SlotSymbol::Diamond, 5, 30),
                (SlotSymbol::Scatter, 2, 0),
            ],
            MachineType::Retro => &[
                (SlotSymbol::Cherry, 35, 3),
                (SlotSymbol::Lemon, 25, 5),
                (SlotSymbol::Bell, 15, 8),
                (SlotSymbol::Crown, 10, 15),
                (SlotSymbol::Seven, 8, 20),
                (SlotSymbol::Diamond, 5, 50),
                (SlotSymbol::Wild, 2, 0),
            ],
            MachineType::Neon => &[
                (SlotSymbol::Cherry, 35, 2),
                (SlotSymbol::Flame, 25, 4),
                (SlotSymbol::Bell, 15, 6),
                (SlotSymbol::Seven, 10, 10),
                (SlotSymbol::Diamond, 8, 20),
                (SlotSymbol::Wild, 5, 0),
                (SlotSymbol::Scatter, 2, 0),
            ],
            MachineType::Hacker => &[
                (SlotSymbol::Cyber, 30, 3),
                (SlotSymbol::Flame, 20, 5),
                (SlotSymbol::Seven, 15, 8),
                (SlotSymbol::Crown, 10, 12),
                (SlotSymbol::Diamond, 8, 25),
                (SlotSymbol::Wild, 7, 0),
                (SlotSymbol::Scatter, 10, 0),
            ],
            MachineType::Elite => &[
                (SlotSymbol::Diamond, 35, 15),
                (SlotSymbol::Crown, 25, 20),
                (SlotSymbol::Seven, 15, 30),
                (SlotSymbol::Wild, 15, 0),
                (SlotSymbol::Scatter, 10, 0),
            ],
            MachineType::Midnight => &[
                (SlotSymbol::Star, 35, 4),
                (SlotSymbol::Cyber, 25, 6),
                (SlotSymbol::DoubleBar, 15, 10),
                (SlotSymbol::TripleBar, 10, 20),
                (SlotSymbol::Wild, 10, 0),
                (SlotSymbol::Scatter, 5, 0),
            ],
            MachineType::DiamondRush => &[
                (SlotSymbol::Diamond, 50, 10),
                (SlotSymbol::GoldBar, 20, 15),
                (SlotSymbol::Crown, 15, 20),
                (SlotSymbol::Wild, 10, 0),
                (SlotSymbol::Scatter, 5, 0),
            ],
            MachineType::Lucky7 => &[
                (SlotSymbol::Seven, 40, 15),
                (SlotSymbol::Cherry, 30, 2),
                (SlotSymbol::Horseshoe, 15, 10),
                (SlotSymbol::Wild, 10, 0),
                (SlotSymbol::Scatter, 5, 0),
            ],
            MachineType::Inferno => &[
                (SlotSymbol::Flame, 40, 5),
                (SlotSymbol::Seven, 20, 15),
                (SlotSymbol::TripleBar, 15, 20),
                (SlotSymbol::Heart, 10, 10),
                (SlotSymbol::Wild, 10, 0),
                (SlotSymbol::Scatter, 5, 0),
            ],
            MachineType::Monochrome => &[
                (SlotSymbol::Bar, 40, 3),
                (SlotSymbol::DoubleBar, 30, 6),
                (SlotSymbol::TripleBar, 15, 12),
                (SlotSymbol::Diamond, 10, 25),
                (SlotSymbol::Scatter, 5, 0),
            ],
        }
    }
}


/// How often `s` appears in `line`.
pub open spec fn occurrences(line: Seq<SlotSymbol>, s: SlotSymbol) -> nat
    decreases line.len(),
{
    if line.len() == 0 {
        0
    } else {
        occurrences(line.drop_last(), s) + if line.last() == s { 1nat } else { 0nat }
    }
}

/// Position `i` holds a non-wild symbol that occurs at least as often as
/// every other non-wild symbol of the line.
pub open spec fn most_frequent_at(line: Seq<SlotSymbol>, i: int) -> bool {
    &&& 0 <= i < line.len()
    &&& line[i] != SlotSymbol::Wild
    &&& forall|j: int|
        0 <= j < line.len() && line[j] != SlotSymbol::Wild ==> occurrences(line, #[trigger] line[j])
            <= occurrences(line, line[i])
}

/// The leftmost position of a most frequent non-wild symbol.
pub open spec fn leader_at(line: Seq<SlotSymbol>, i: int) -> bool {
    most_frequent_at(line, i) && forall|j: int| 0 <= j < i ==> !most_frequent_at(line, j)
}

pub open spec fn leader_index(line: Seq<SlotSymbol>) -> int {
    choose|i: int| leader_at(line, i)
}

/// The payout the pool lists first for `s`, if any.
pub open spec fn pool_payout(pool: Seq<(SlotSymbol, u32, i64)>, s: SlotSymbol) -> Option<i64>
    decreases pool.len(),
{
    if pool.len() == 0 {
        None
    } else if pool[0].0 == s {
        Some(pool[0].2)
    } else {
        pool_payout(pool.drop_first(), s)
    }
}

/// What a full line of a symbol with payout `p` pays on `n` reels: the
/// payout, doubled below five reels, and from four reels on never less
/// than the 4 that a line one short pays at least, so that a full match
/// always pays best.
pub open spec fn full_pay(p: int, n: int) -> int {
    let base = if n >= 5 { p } else { 2 * p };
    if n >= 4 && base < 4 {
        4
    } else {
        base
    }
}

/// The multiplier one payline pays. Only wilds: 60 on five reels, 30
/// otherwise. Else the most frequent symbol, counted with the wilds, must fill
/// the line (`full_pay` of its payout), or, from four reels on, all but one
/// place (half its payout, at least 4).
pub open spec fn line_value(line: Seq<SlotSymbol>, pool: Seq<(SlotSymbol, u32, i64)>) -> int {
    let n = line.len() as int;
    let w = occurrences(line, SlotSymbol::Wild) as int;
    if w == n {
        if n >= 5 { 60 } else { 30 }
    } else {
        let top = line[leader_index(line)];
        let eff = occurrences(line, top) + w;
        if eff >= n {
            match pool_payout(pool, top) {
                Some(p) => full_pay(p as int, n),
                None => if n >= 5 { 12 } else { 8 },
            }
        } else if eff + 1 >= n && n >= 4 {
            match pool_payout(pool, top) {
                Some(p) => if p / 2 > 4 { p / 2 } else { 4 },
                None => 4,
            }
        } else if n == 3 && eff >= 3 {
            3
        } else {
            0
        }
    }
}

/// Every payout of the pool lies between 0 and 50.
pub open spec fn modest_pool(pool: Seq<(SlotSymbol, u32, i64)>) -> bool {
    forall|i: int| 0 <= i < pool.len() ==> 0 <= (#[trigger] pool[i]).2 <= 50
}

/// Every column holds at least as many rows as the first one.
pub open spec fn rectangular(reels: Seq<Seq<SlotSymbol>>) -> bool {
    reels.len() > 0 ==> forall|c: int| 0 <= c < reels.len() ==> (#[trigger] reels[c]).len() >= reels[0].len()
}

/// The symbols of row `r`, reel by reel.
pub open spec fn row_line(reels: Seq<Seq<SlotSymbol>>, r: int) -> Seq<SlotSymbol> {
    Seq::new(reels.len(), |c: int| reels[c][r])
}

/// The zigzag from the top left, wrapping after the last row.
pub open spec fn falling_line(reels: Seq<Seq<SlotSymbol>>) -> Seq<SlotSymbol> {
    let rows = reels[0].len() as int;
    Seq::new(reels.len(), |c: int| reels[c][c % rows])
}

/// The zigzag from the bottom left, wrapping after the first row.
pub open spec fn rising_line(reels: Seq<Seq<SlotSymbol>>) -> Seq<SlotSymbol> {
    let rows = reels[0].len() as int;
    Seq::new(reels.len(), |c: int| reels[c][(rows - 1) - c % rows])
}

/// The paylines of a grid: each row, then the two zigzags once there are at
/// least three rows.
pub open spec fn paylines(reels: Seq<Seq<SlotSymbol>>) -> Seq<Seq<SlotSymbol>> {
    let rows = reels[0].len() as int;
    Seq::new(rows as nat, |r: int| row_line(reels, r)) + if rows >= 3 {
        seq![falling_line(reels), rising_line(reels)]
    } else {
        Seq::empty()
    }
}

pub open spec fn lines_value(lines: Seq<Seq<SlotSymbol>>, pool: Seq<(SlotSymbol, u32, i64)>) -> int
    decreases lines.len(),
{
    if lines.len() == 0 {
        0
    } else {
        lines_value(lines.drop_last(), pool) + line_value(lines.last(), pool)
    }
}

/// The multiplier a grid pays: the sum over its paylines.
pub open spec fn spin_multiplier(reels: Seq<Seq<SlotSymbol>>, pool: Seq<(SlotSymbol, u32, i64)>) -> int {
    if reels.len() == 0 {
        0
    } else {
        lines_value(paylines(reels), pool)
    }
}

proof fn lemma_occurrences_prefix(line: Seq<SlotSymbol>, s: SlotSymbol, i: int)
    requires
        0 <= i < line.len(),
    ensures
        occurrences(line.take(i + 1), s) == occurrences(line.take(i), s) + if line[i] == s { 1nat } else { 0nat },
{
    assert(line.take(i + 1).drop_last() =~= line.take(i));
}

proof fn lemma_occurrences_bound(line: Seq<SlotSymbol>, s: SlotSymbol)
    ensures
        occurrences(line, s) <= line.len(),
        line.contains(s) ==> occurrences(line, s) >= 1,
    decreases line.len(),
{
    if line.len() > 0 {
        lemma_occurrences_bound(line.drop_last(), s);
        if line.contains(s) && line.last() != s {
            let k = choose|k: int| 0 <= k < line.len() && line[k] == s;
            assert(line.drop_last()[k] == s);
        }
    }
}

proof fn lemma_pool_payout_modest(pool: Seq<(SlotSymbol, u32, i64)>, s: SlotSymbol)
    requires
        modest_pool(pool),
    ensures
        pool_payout(pool, s) matches Some(p) ==> 0 <= p <= 50,
    decreases pool.len(),
{
    if pool.len() > 0 && pool[0].0 != s {
        assert(modest_pool(pool.drop_first())) by {
            assert forall|i: int| 0 <= i < pool.drop_first().len() implies 0 <= (#[trigger] pool.drop_first()[i]).2 <= 50 by {
                assert(pool.drop_first()[i] == pool[i + 1]);
            }
        }
        lemma_pool_payout_modest(pool.drop_first(), s);
    } else if pool.len() > 0 {
        assert(0 <= pool[0].2 <= 50);
    }
}

proof fn lemma_line_value_range(line: Seq<SlotSymbol>, pool: Seq<(SlotSymbol, u32, i64)>)
    requires
        modest_pool(pool),
    ensures
        0 <= line_value(line, pool) <= 100,
{
    let n = line.len() as int;
    let w = occurrences(line, SlotSymbol::Wild) as int;
    if w != n {
        lemma_pool_payout_modest(pool, line[leader_index(line)]);
    }
}

fn count_in(line: &[SlotSymbol], s: SlotSymbol) -> (c: usize)
    ensures
        c == occurrences(line@, s),
        c <= line@.len(),
{
    let mut c: usize = 0;
    let mut i: usize = 0;
    while i < line.len()
        invariant
            0 <= i <= line@.len(),
            c == occurrences(line@.take(i as int), s),
            c <= i,
        decreases line@.len() - i,
    {
        proof {
            lemma_occurrences_prefix(line@, s, i as int);
        }
        if line[i] == s {
            c += 1;
        }
        i += 1;
    }
    assert(line@.take(i as int) =~= line@);
    c
}

#[verifier::loop_isolation(false)]
fn evaluate_line(line: &[SlotSymbol], pool: &[(SlotSymbol, u32, i64)]) -> (v: i64)
    requires
        modest_pool(pool@),
    ensures
        v == line_value(line@, pool@),
{
    let n = line.len();
    let wild_count = count_in(line, SlotSymbol::Wild);
    if wild_count == n {
        return if n >= 5 { 60 } else { 30 };
    }
    let mut best: usize = n;
    let mut best_count: usize = 0;
    let mut i: usize = 0;
    while i < n
        invariant
            0 <= i <= n,
            n == line@.len(),
            best == n ==> forall|j: int| 0 <= j < i ==> line@[j] == SlotSymbol::Wild,
            best < n ==> {
                &&& best < i
                &&& line@[best as int] != SlotSymbol::Wild
                &&& best_count == occurrences(line@, line@[best as int])
                &&& forall|j: int|
                    0 <= j < i && line@[j] != SlotSymbol::Wild ==> occurrences(line@, #[trigger] line@[j])
                        <= best_count
                &&& forall|j: int|
                    0 <= j < best && line@[j] != SlotSymbol::Wild ==> occurrences(line@, #[trigger] line@[j])
                        < best_count
            },
            best <= n,
        decreases n - i,
    {
        if !line[i].is_wild() {
            let c = count_in(line, line[i]);
            if best == n || c > best_count {
                best = i;
                best_count = c;
            }
        }
        i += 1;
    }
    proof {
        if best == n {
            assert forall|j: int| 0 <= j < n implies line@[j] == SlotSymbol::Wild by {}
            assert(false) by {
                lemma_all_wild(line@);
            }
        }
        assert(most_frequent_at(line@, best as int));
        assert(leader_at(line@, best as int)) by {
            assert forall|j: int| 0 <= j < best implies !most_frequent_at(line@, j) by {
                if line@[j] != SlotSymbol::Wild {
                    assert(occurrences(line@, line@[j]) < best_count);
                }
            }
        }
        let k = leader_index(line@);
        assert(leader_at(line@, k));
        if k < best {
            assert(!most_frequent_at(line@, k));
        } else if k > best {
            assert(!most_frequent_at(line@, best as int));
        }
        assert(k == best);
    }
    let sym = line[best];
    proof {
        lemma_occurrences_two(line@, sym, SlotSymbol::Wild);
    }
    let effective = best_count + wild_count;
    if effective >= n {
        let mut p: usize = 0;
        assert(pool@.skip(0) =~= pool@);
        while p < pool.len()
            invariant
                0 <= p <= pool@.len(),
                modest_pool(pool@),
                pool_payout(pool@.skip(p as int), sym) == pool_payout(pool@, sym),
            decreases pool@.len() - p,
        {
            proof {
                assert(pool@.skip(p as int).drop_first() =~= pool@.skip(p + 1));
                assert(pool@.skip(p as int)[0] == pool@[p as int]);
                assert(0 <= pool@[p as int].2 <= 50);
            }
            if pool[p].0 == sym {
                let pay = pool[p].2;
                let base = if n >= 5 { pay } else { pay * 2 };
                return if n >= 4 && base < 4 { 4 } else { base };
            }
            p += 1;
        }
        assert(pool@.skip(p as int) =~= Seq::<(SlotSymbol, u32, i64)>::empty());
        return if n >= 5 { 12 } else { 8 };
    }
    if effective >= n - 1 && n >= 4 {
        let mut p: usize = 0;
        assert(pool@.skip(0) =~= pool@);
        while p < pool.len()
            invariant
                0 <= p <= pool@.len(),
                modest_pool(pool@),
                pool_payout(pool@.skip(p as int), sym) == pool_payout(pool@, sym),
            decreases pool@.len() - p,
        {
            proof {
                assert(pool@.skip(p as int).drop_first() =~= pool@.skip(p + 1));
                assert(pool@.skip(p as int)[0] == pool@[p as int]);
                assert(0 <= pool@[p as int].2 <= 50);
            }
            if pool[p].0 == sym {
                let half = pool[p].2 / 2;
                return if half > 4 { half } else { 4 };
            }
            p += 1;
        }
        assert(pool@.skip(p as int) =~= Seq::<(SlotSymbol, u32, i64)>::empty());
        return 4;
    }
    if n == 3 && effective >= 3 {
        return 3;
    }
    0
}

proof fn lemma_occurrences_two(line: Seq<SlotSymbol>, a: SlotSymbol, b: SlotSymbol)
    requires
        a != b,
    ensures
        occurrences(line, a) + occurrences(line, b) <= line.len(),
    decreases line.len(),
{
    if line.len() > 0 {
        lemma_occurrences_two(line.drop_last(), a, b);
    }
}

proof fn lemma_all_wild(line: Seq<SlotSymbol>)
    requires
        forall|j: int| 0 <= j < line.len() ==> line[j] == SlotSymbol::Wild,
    ensures
        occurrences(line, SlotSymbol::Wild) == line.len(),
    decreases line.len(),
{
    if line.len() > 0 {
        lemma_all_wild(line.drop_last());
    }
}


/// The grid of a machine, reel by reel, each reel top to bottom.
pub open spec fn grid_view(reels: Seq<Vec<SlotSymbol>>) -> Seq<Seq<SlotSymbol>> {
    reels.map_values(|c: Vec<SlotSymbol>| c@)
}

proof fn lemma_lines_value_range(lines: Seq<Seq<SlotSymbol>>, pool: Seq<(SlotSymbol, u32, i64)>)
    requires
        modest_pool(pool),
    ensures
        0 <= lines_value(lines, pool) <= 100 * lines.len(),
    decreases lines.len(),
{
    if lines.len() > 0 {
        lemma_lines_value_range(lines.drop_last(), pool);
        lemma_line_value_range(lines.last(), pool);
    }
}

#[verifier::loop_isolation(false)]
fn calculate_multiplier(reels: &[Vec<SlotSymbol>], pool: &[(SlotSymbol, u32, i64)]) -> (m: i64)
    requires
        modest_pool(pool@),
        rectangular(grid_view(reels@)),
        reels@.len() > 0 ==> reels@[0]@.len() <= 1000,
    ensures
        m == spin_multiplier(grid_view(reels@), pool@),
        0 <= m,
        reels@.len() > 0 ==> m <= 100 * (reels@[0]@.len() + 2),
{
    let ghost g = grid_view(reels@);
    let mut total_mult: i64 = 0;
    let reel_count = reels.len();
    if reel_count == 0 {
        return 0;
    }
    let visible_rows = reels[0].len();
    assert(forall|c: int| 0 <= c < reel_count ==> #[trigger] g[c] == reels@[c]@);
    let mut paylines_v: Vec<Vec<SlotSymbol>> = Vec::new();
    let mut r: usize = 0;
    while r < visible_rows
        invariant
            0 <= r <= visible_rows,
            paylines_v@.len() == r,
            forall|k: int| 0 <= k < r ==> (#[trigger] paylines_v@[k])@ == row_line(g, k),
        decreases visible_rows - r,
    {
        let mut line: Vec<SlotSymbol> = Vec::new();
        let mut col: usize = 0;
        while col < reel_count
            invariant
                0 <= col <= reel_count,
                0 <= r < visible_rows,
                line@.len() == col,
                forall|c: int| 0 <= c < col ==> #[trigger] line@[c] == g[c][r as int],
            decreases reel_count - col,
        {
            assert(g[col as int].len() >= g[0].len());
            line.push(reels[col][r]);
            col += 1;
        }
        assert(line@ =~= row_line(g, r as int));
        paylines_v.push(line);
        r += 1;
    }
    if visible_rows >= 3 {
        let mut d1: Vec<SlotSymbol> = Vec::new();
        let mut col: usize = 0;
        while col < reel_count
            invariant
                0 <= col <= reel_count,
                d1@.len() == col,
                forall|c: int| 0 <= c < col ==> #[trigger] d1@[c] == g[c][c % (visible_rows as int)],
            decreases reel_count - col,
        {
            let rr = col % visible_rows;
            assert(g[col as int].len() >= g[0].len());
            d1.push(reels[col][rr]);
            col += 1;
        }
        assert(d1@ =~= falling_line(g));
        paylines_v.push(d1);
        let mut d2: Vec<SlotSymbol> = Vec::new();
        let mut col: usize = 0;
        while col < reel_count
            invariant
                0 <= col <= reel_count,
                d2@.len() == col,
                forall|c: int|
                    0 <= c < col ==> #[trigger] d2@[c] == g[c][(visible_rows - 1) - c % (visible_rows as int)],
            decreases reel_count - col,
        {
            let rr = (visible_rows - 1) - (col % visible_rows);
            assert(g[col as int].len() >= g[0].len());
            d2.push(reels[col][rr]);
            col += 1;
        }
        assert(d2@ =~= rising_line(g));
        paylines_v.push(d2);
    }
    let ghost lines = paylines(g);
    assert(paylines_v@.len() == lines.len());
    assert forall|k: int| 0 <= k < lines.len() implies (#[trigger] paylines_v@[k])@ == lines[k] by {
        if k >= visible_rows {
            assert(visible_rows >= 3);
        }
    }
    let mut k: usize = 0;
    while k < paylines_v.len()
        invariant
            0 <= k <= paylines_v@.len(),
            paylines_v@.len() == lines.len(),
            lines.len() <= visible_rows + 2,
            forall|j: int| 0 <= j < lines.len() ==> (#[trigger] paylines_v@[j])@ == lines[j],
            total_mult == lines_value(lines.take(k as int), pool@),
            0 <= total_mult <= 100 * k,
        decreases paylines_v@.len() - k,
    {
        proof {
            assert(lines.take(k + 1).drop_last() =~= lines.take(k as int));
            lemma_line_value_range(lines[k as int], pool@);
        }
        let v = evaluate_line(paylines_v[k].as_slice(), pool);
        total_mult = total_mult + v;
        k += 1;
    }
    assert(lines.take(k as int) =~= lines);
    total_mult
}


/// Sum of the draw weights of a pool.
pub open spec fn total_weight(pool: Seq<(SlotSymbol, u32, i64)>) -> int
    decreases pool.len(),
{
    if pool.len() == 0 {
        0
    } else {
        total_weight(pool.drop_last()) + pool.last().1
    }
}

/// Walking the pool from entry `i`, the symbol whose weight covers what is
/// `left` of the pick; the first symbol once past the end.
pub open spec fn weighted_pick(pool: Seq<(SlotSymbol, u32, i64)>, i: int, left: int) -> SlotSymbol
    decreases pool.len() - i,
{
    if i < 0 || i >= pool.len() {
        pool[0].0
    } else if left < pool[i].1 {
        pool[i].0
    } else {
        weighted_pick(pool, i + 1, left - pool[i].1)
    }
}

/// The symbol a weighted pick lands on: the first entry whose cumulative
/// weight exceeds `pick`.
pub open spec fn symbol_at_weight(pool: Seq<(SlotSymbol, u32, i64)>, pick: int) -> SlotSymbol {
    weighted_pick(pool, 0, pick)
}

/// A symbol some pick below the total weight lands on.
pub open spec fn drawable(pool: Seq<(SlotSymbol, u32, i64)>, s: SlotSymbol) -> bool {
    exists|pick: int| 0 <= pick < total_weight(pool) && s == symbol_at_weight(pool, pick)
}

/// A pool a weighted draw can run on.
pub open spec fn drawable_pool(pool: Seq<(SlotSymbol, u32, i64)>) -> bool {
    0 < total_weight(pool) <= u32::MAX && pool.len() > 0
}

proof fn lemma_total_weight_prefix(pool: Seq<(SlotSymbol, u32, i64)>, i: int)
    requires
        0 <= i < pool.len(),
    ensures
        total_weight(pool.take(i + 1)) == total_weight(pool.take(i)) + pool[i].1,
{
    assert(pool.take(i + 1).drop_last() =~= pool.take(i));
}

pub fn symbol_for_pick(pool: &[(SlotSymbol, u32, i64)], pick: u32) -> (s: SlotSymbol)
    requires
        pool@.len() > 0,
    ensures
        s == symbol_at_weight(pool@, pick as int),
{
    let mut left = pick;
    let mut i: usize = 0;
    while i < pool.len()
        invariant
            0 <= i <= pool@.len(),
            pool@.len() > 0,
            weighted_pick(pool@, i as int, left as int) == symbol_at_weight(pool@, pick as int),
        decreases pool@.len() - i,
    {
        let (symbol, weight, _) = pool[i];
        if left < weight {
            return symbol;
        }
        left -= weight;
        i += 1;
    }
    pool[0].0
}

fn pool_weight(pool: &[(SlotSymbol, u32, i64)]) -> (w: u32)
    requires
        total_weight(pool@) <= u32::MAX,
    ensures
        w == total_weight(pool@),
{
    let mut w: u32 = 0;
    let mut i: usize = 0;
    while i < pool.len()
        invariant
            0 <= i <= pool@.len(),
            total_weight(pool@) <= u32::MAX,
            w == total_weight(pool@.take(i as int)),
        decreases pool@.len() - i,
    {
        proof {
            lemma_total_weight_prefix(pool@, i as int);
            lemma_total_weight_mono(pool@, i + 1);
        }
        w = w + pool[i].1;
        i += 1;
    }
    assert(pool@.take(i as int) =~= pool@);
    w
}

proof fn lemma_total_weight_mono(pool: Seq<(SlotSymbol, u32, i64)>, i: int)
    requires
        0 <= i <= pool.len(),
    ensures
        total_weight(pool.take(i)) <= total_weight(pool),
    decreases pool.len(),
{
    if i < pool.len() {
        assert(pool.take(i) =~= pool.drop_last().take(i));
        lemma_total_weight_mono(pool.drop_last(), i);
    } else {
        assert(pool.take(i) =~= pool);
    }
}

fn draw_symbol_weighted(pool: &[(SlotSymbol, u32, i64)]) -> (s: SlotSymbol)
    requires
        drawable_pool(pool@),
    ensures
        drawable(pool@, s),
{
    let total = pool_weight(pool);
    let pick = random_below(total);
    let s = symbol_for_pick(pool, pick);
    assert(0 <= pick < total_weight(pool@) && s == symbol_at_weight(pool@, pick as int));
    s
}

/// Calls `rand::Rng::gen_range(0..bound)` on the thread's generator, which
/// panics on an empty range and otherwise returns a number below `bound`.
/// Which number is left to chance and not stated.
#[verifier::external_body]
fn random_below(bound: u32) -> (r: u32)
    requires
        bound > 0,
    ensures
        r < bound,
{
    rand::thread_rng().gen_range(0..bound)
}


/// Every machine's strip can be drawn from and pays between 0 and 50 a line.
pub proof fn lemma_machine_pool(m: MachineType)
    ensures
        drawable_pool(machine_pool(m)),
        modest_pool(machine_pool(m)),
        machine_pool(m).len() >= 5,
        total_weight(machine_pool(m)) == 100,
{
    reveal_with_fuel(total_weight, 8);
    let p = machine_pool(m);
    assert(total_weight(p) == 100);
}

#[derive(Debug, Clone)]
pub struct JackpotPool {
    pub mini: i64,
    pub mega: i64,
    pub ultra: i64,
}

/// `x / d` rounded toward zero, as integer division does.
pub open spec fn quotient(x: int, d: int) -> int {
    if x >= 0 {
        x / d
    } else {
        -((-x) / d)
    }
}

/// The pots after a bet has fed them: a twentieth of the bet to the mini
/// pot, half that to the mega pot, a quarter of it to the ultra pot.
pub open spec fn fed(j: JackpotPool, bet: i64) -> JackpotPool {
    let c = quotient(bet as int, 20);
    JackpotPool {
        mini: (j.mini + c) as i64,
        mega: (j.mega + quotient(c, 2)) as i64,
        ultra: (j.ultra + quotient(c, 4)) as i64,
    }
}

/// Feeding the pots with `bet` stays within `i64`.
pub open spec fn can_feed(j: JackpotPool, bet: i64) -> bool {
    let c = quotient(bet as int, 20);
    &&& i64::MIN <= j.mini + c <= i64::MAX
    &&& i64::MIN <= j.mega + quotient(c, 2) <= i64::MAX
    &&& i64::MIN <= j.ultra + quotient(c, 4) <= i64::MAX
}

impl JackpotPool {
    pub fn new() -> (j: Self)
        ensures
            j == (JackpotPool { mini: 50_000, mega: 500_000, ultra: 5_000_000 }),
    {
        Self { mini: 50_000, mega: 500_000, ultra: 5_000_000 }
    }

    pub fn contribute(&mut self, bet: i64)
        requires
            can_feed(*old(self), bet),
        ensures
            *final(self) == fed(*old(self), bet),
    {
        let share = bet / 20;
        self.mini += share;
        self.mega += share / 2;
        self.ultra += share / 4;
    }
}


#[derive(Debug, Clone)]
pub struct SlotsState {
    pub bet: i64,
    pub reels: Vec<Vec<SlotSymbol>>,
    pub reel_count: usize,
    pub visible_rows: usize,
    pub machine: MachineType,
    pub spinning: bool,
    pub spin_frames_left: u8,
    pub reel_spin_frames: Vec<u8>,
    pub message: String,
    pub last_payout: i64,
    pub last_mult: i64,
    pub flash_counter: u8,
    pub jackpots: JackpotPool,
    pub auto_spin_remaining: u32,
    pub auto_spin_total: u32,
    pub display_chips: i64,
}

/// The machine as a value: every field, the grid, frames and text by their
/// views.
pub struct SlotsView {
    pub bet: i64,
    pub reels: Seq<Seq<SlotSymbol>>,
    pub reel_count: usize,
    pub visible_rows: usize,
    pub machine: MachineType,
    pub spinning: bool,
    pub spin_frames_left: u8,
    pub reel_spin_frames: Seq<u8>,
    pub message: Seq<char>,
    pub last_payout: i64,
    pub last_mult: i64,
    pub flash_counter: u8,
    pub jackpots: JackpotPool,
    pub auto_spin_remaining: u32,
    pub auto_spin_total: u32,
    pub display_chips: i64,
}

impl View for SlotsState {
    type V = SlotsView;

    open spec fn view(&self) -> SlotsView {
        SlotsView {
            bet: self.bet,
            reels: grid_view(self.reels@),
            reel_count: self.reel_count,
            visible_rows: self.visible_rows,
            machine: self.machine,
            spinning: self.spinning,
            spin_frames_left: self.spin_frames_left,
            reel_spin_frames: self.reel_spin_frames@,
            message: self.message@,
            last_payout: self.last_payout,
            last_mult: self.last_mult,
            flash_counter: self.flash_counter,
            jackpots: self.jackpots,
            auto_spin_remaining: self.auto_spin_remaining,
            auto_spin_total: self.auto_spin_total,
            display_chips: self.display_chips,
        }
    }
}

/// A fresh machine: the classic three reels, a 5,000 bet, the display at
/// 100,000 chips.
pub open spec fn initial_slots() -> SlotsView {
    SlotsView {
        bet: 5_000,
        reels: seq![
            seq![SlotSymbol::Cherry, SlotSymbol::Cherry, SlotSymbol::Cherry],
            seq![SlotSymbol::Lemon, SlotSymbol::Lemon, SlotSymbol::Lemon],
            seq![SlotSymbol::Bell, SlotSymbol::Bell, SlotSymbol::Bell],
        ],
        reel_count: 3,
        visible_rows: 3,
        machine: MachineType::Classic,
        spinning: false,
        spin_frames_left: 0,
        reel_spin_frames: seq![0u8, 0u8, 0u8],
        message: "Adjust bet and press [Space] to spin"@,
        last_payout: 0,
        last_mult: 0,
        flash_counter: 0,
        jackpots: JackpotPool { mini: 50_000, mega: 500_000, ultra: 5_000_000 },
        auto_spin_remaining: 0,
        auto_spin_total: 0,
        display_chips: 100_000,
    }
}

/// The machine's arithmetic stays within `i64` and `u8`: a bounded grid,
/// at most 39 staggered reels, one frame counter per reel, a bounded bet.
pub open spec fn slots_ok(v: SlotsView) -> bool {
    &&& v.visible_rows <= 1000
    &&& v.reel_count <= 39
    &&& v.reel_spin_frames.len() == v.reel_count
    &&& -1_000_000_000_000 <= v.bet <= 1_000_000_000_000
}

impl Default for SlotsState {
    fn default() -> (s: Self)
        ensures
            s@ == initial_slots(),
            slots_ok(s@),
    {
        let s = Self {
            bet: 5_000,
            reels: vec![
                vec![SlotSymbol::Cherry, SlotSymbol::Cherry, SlotSymbol::Cherry],
                vec![SlotSymbol::Lemon, SlotSymbol::Lemon, SlotSymbol::Lemon],
                vec![SlotSymbol::Bell, SlotSymbol::Bell, SlotSymbol::Bell],
            ],
            reel_count: 3,
            visible_rows: 3,
            machine: MachineType::Classic,
            spinning: false,
            spin_frames_left: 0,
            reel_spin_frames: vec![0, 0, 0],
            message: String::from_str("Adjust bet and press [Space] to spin"),
            last_payout: 0,
            last_mult: 0,
            flash_counter: 0,
            jackpots: JackpotPool::new(),
            auto_spin_remaining: 0,
            auto_spin_total: 0,
            display_chips: 100_000,
        };
        assert(s@.reels =~= initial_slots().reels);
        assert(s@.reel_spin_frames =~= initial_slots().reel_spin_frames);
        s
    }
}

pub struct SlotsGame {
    pub state: SlotsState,
}

impl Default for SlotsGame {
    fn default() -> (g: Self)
        ensures
            g.state@ == initial_slots(),
            slots_ok(g.state@),
    {
        SlotsGame { state: SlotsState::default() }
    }
}

/// Reels a machine runs: five on Cyber, Hacker and Elite, three elsewhere.
pub open spec fn reels_of(m: MachineType) -> usize {
    if m is Cyber || m is Hacker || m is Elite {
        5
    } else {
        3
    }
}

/// The bet and the machine cannot change while a spin or auto-spins run.
pub open spec fn locked(v: SlotsView) -> bool {
    v.spinning || v.auto_spin_remaining > 0
}

/// One frame of the chip counter: a tenth of the distance to the target,
/// at least one chip.
pub open spec fn approach(display: int, target: int) -> int {
    if display < target {
        display + if (target - display) / 10 > 1 { (target - display) / 10 } else { 1 }
    } else if display > target {
        display - if (display - target) / 10 > 1 { (display - target) / 10 } else { 1 }
    } else {
        display
    }
}

/// A column just rolled: `rows` symbols, each drawn from the pool.
pub open spec fn rolled_column(col: Seq<SlotSymbol>, rows: int, pool: Seq<(SlotSymbol, u32, i64)>) -> bool {
    col.len() == rows && forall|k: int| 0 <= k < rows ==> drawable(pool, #[trigger] col[k])
}

/// A grid just rolled: `cols` rolled columns.
pub open spec fn rolled_grid(
    g: Seq<Seq<SlotSymbol>>,
    cols: int,
    rows: int,
    pool: Seq<(SlotSymbol, u32, i64)>,
) -> bool {
    g.len() == cols && forall|c: int| 0 <= c < cols ==> rolled_column(#[trigger] g[c], rows, pool)
}

/// The grid mid-spin: a reel that has stopped keeps its column, the others
/// show freshly rolled symbols.
pub open spec fn spinning_grid(
    before: Seq<Seq<SlotSymbol>>,
    g: Seq<Seq<SlotSymbol>>,
    frames: Seq<u8>,
    cols: int,
    rows: int,
    pool: Seq<(SlotSymbol, u32, i64)>,
) -> bool {
    &&& g.len() == cols
    &&& forall|c: int|
        0 <= c < cols ==> if frames[c] == 0 && c < before.len() {
            #[trigger] g[c] == before[c]
        } else {
            rolled_column(g[c], rows, pool)
        }
}

/// How often `s` shows on the grid.
pub open spec fn grid_count(g: Seq<Seq<SlotSymbol>>, s: SlotSymbol) -> nat
    decreases g.len(),
{
    if g.len() == 0 {
        0
    } else {
        grid_count(g.drop_last(), s) + occurrences(g.last(), s)
    }
}

/// What the paylines pay: the bet times the multiplier, plus half the
/// multiplier when a wild shows on a winning grid.
pub open spec fn line_payout(v: SlotsView, g: Seq<Seq<SlotSymbol>>) -> int {
    let mult = spin_multiplier(g, machine_pool(v.machine));
    v.bet * mult + if grid_count(g, SlotSymbol::Wild) > 0 && mult > 0 { mult / 2 } else { 0 }
}

/// What a spin pays out: the line payout, or three times the bet when no
/// line pays and three or more scatters show.
pub open spec fn spin_payout(v: SlotsView, g: Seq<Seq<SlotSymbol>>) -> int {
    let mult = spin_multiplier(g, machine_pool(v.machine));
    if mult == 0 && grid_count(g, SlotSymbol::Scatter) >= 3 {
        v.bet * 3
    } else {
        line_payout(v, g)
    }
}

/// The result a spin hands back: payout, multiplier, scatter bonus.
pub open spec fn spin_result(v: SlotsView, g: Seq<Seq<SlotSymbol>>) -> (i64, i64, bool) {
    (
        spin_payout(v, g) as i64,
        spin_multiplier(g, machine_pool(v.machine)) as i64,
        grid_count(g, SlotSymbol::Scatter) >= 3,
    )
}

/// The banner a spin ends with.
pub open spec fn spin_message(mult: int, scatter: bool) -> Seq<char> {
    if mult >= 100 {
        "★★★★★ ULTRA JACKPOT x"@ + decimal(mult as nat) + "! ★★★★★"@
    } else if mult >= 50 {
        "★★★★ MEGA JACKPOT x"@ + decimal(mult as nat) + "! ★★★★"@
    } else if mult >= 20 {
        "★★★ JACKPOT x"@ + decimal(mult as nat) + "! ★★★"@
    } else if mult >= 10 {
        "★ BIG WIN x"@ + decimal(mult as nat) + " ★"@
    } else if mult > 0 {
        "Win x"@ + decimal(mult as nat) + "!"@
    } else if scatter {
        "SCATTER BONUS! +3x payout!"@
    } else {
        "No match. Better luck next spin."@
    }
}

/// The gap between neighbouring 64-bit floats at `m`, for `0 <= m <= 2^63`:
/// one below 2^53, doubling at each further power of two.
pub open spec fn float_gap(m: int) -> int {
    if m < 0x20_0000_0000_0000 {
        1
    } else if m < 0x40_0000_0000_0000 {
        2
    } else if m < 0x80_0000_0000_0000 {
        4
    } else if m < 0x100_0000_0000_0000 {
        8
    } else if m < 0x200_0000_0000_0000 {
        16
    } else if m < 0x400_0000_0000_0000 {
        32
    } else if m < 0x800_0000_0000_0000 {
        64
    } else if m < 0x1000_0000_0000_0000 {
        128
    } else if m < 0x2000_0000_0000_0000 {
        256
    } else if m < 0x4000_0000_0000_0000 {
        512
    } else if m < 0x8000_0000_0000_0000 {
        1024
    } else {
        2048
    }
}

/// `m` rounded to the nearest 64-bit float, a tie going to the neighbour
/// with the even significand.
pub open spec fn float_nearest(m: int) -> int {
    let u = float_gap(m);
    let q = m / u;
    let r = m % u;
    if r * 2 > u || (r * 2 == u && q % 2 == 1) {
        (q + 1) * u
    } else {
        q * u
    }
}

/// Half of `x` taken through a 64-bit float: `x` rounded to the nearest
/// float, halved, and cut toward zero. Below 2^53 in size this is half of
/// `x` cut toward zero; above, the rounding to 53 significant bits shows.
pub open spec fn float_half(x: int) -> int {
    if x >= 0 {
        float_nearest(x) / 2
    } else {
        -(float_nearest(-x) / 2)
    }
}

/// An ultra win halves the ultra pot (through a 64-bit float) and reseeds
/// it with five million, a mega win does the same to the mega pot with half
/// a million.
pub open spec fn pots_after(j: JackpotPool, mult: int) -> JackpotPool {
    if mult >= 100 {
        JackpotPool { ultra: (float_half(j.ultra as int) + 5_000_000) as i64, ..j }
    } else if mult >= 50 {
        JackpotPool { mega: (float_half(j.mega as int) + 500_000) as i64, ..j }
    } else {
        j
    }
}

/// Half of an `i64` taken through a float stays within 2^62 and a little.
pub proof fn lemma_float_half_bounds(x: i64)
    ensures
        -0x4000_0000_0000_0400 <= float_half(x as int) <= 0x4000_0000_0000_0400,
{
    let m: int = if x < 0 { -(x as int) } else { x as int };
    let u = float_gap(m);
    assert(1 <= u <= 2048);
    vstd::arithmetic::div_mod::lemma_fundamental_div_mod(m, u);
    let q = m / u;
    let r = m % u;
    assert(0 <= r < u);
    assert(q * u <= m && (q + 1) * u <= m + u && q * u >= 0) by (nonlinear_arith)
        requires
            m == u * q + r,
            0 <= r < u,
            m >= 0,
    ;
    assert(0 <= float_nearest(m) <= 0x8000_0000_0000_0800);
}

/// Half of a pot as `float_half` takes it.
fn half_through_float(x: i64) -> (h: i64)
    ensures
        h == float_half(x as int),
        -0x4000_0000_0000_0400 <= h <= 0x4000_0000_0000_0400,
{
    let neg = x < 0;
    let wide: i128 = x as i128;
    let m: u64 = if neg { (-wide) as u64 } else { wide as u64 };
    let u: u64 = if m < 0x20_0000_0000_0000 {
        1
    } else if m < 0x40_0000_0000_0000 {
        2
    } else if m < 0x80_0000_0000_0000 {
        4
    } else if m < 0x100_0000_0000_0000 {
        8
    } else if m < 0x200_0000_0000_0000 {
        16
    } else if m < 0x400_0000_0000_0000 {
        32
    } else if m < 0x800_0000_0000_0000 {
        64
    } else if m < 0x1000_0000_0000_0000 {
        128
    } else if m < 0x2000_0000_0000_0000 {
        256
    } else if m < 0x4000_0000_0000_0000 {
        512
    } else if m < 0x8000_0000_0000_0000 {
        1024
    } else {
        2048
    };
    assert(u == float_gap(m as int));
    let q = m / u;
    let r = m % u;
    proof {
        vstd::arithmetic::div_mod::lemma_fundamental_div_mod(m as int, u as int);
        assert(q * u <= m) by (nonlinear_arith)
            requires
                m == u * q + r,
                r >= 0,
        ;
    }
    let near: u64 = if r * 2 > u || (r * 2 == u && q % 2 == 1) {
        assert((q + 1) * u == q * u + u) by (nonlinear_arith);
        (q + 1) * u
    } else {
        q * u
    };
    assert(near == float_nearest(m as int));
    let half: i64 = (near / 2) as i64;
    if neg {
        -half
    } else {
        half
    }
}

/// The machine once the grid `g` has come to rest.
pub open spec fn spin_settled(v: SlotsView, g: Seq<Seq<SlotSymbol>>) -> SlotsView {
    let mult = spin_multiplier(g, machine_pool(v.machine));
    SlotsView {
        spinning: false,
        reels: g,
        last_payout: line_payout(v, g) as i64,
        last_mult: mult as i64,
        flash_counter: if mult >= 50 {
            40
        } else if mult >= 20 {
            28
        } else {
            16
        },
        jackpots: pots_after(v.jackpots, mult),
        message: spin_message(mult, grid_count(g, SlotSymbol::Scatter) >= 3),
        ..v
    }
}

/// A grid a spin can settle on: rectangular, at most a thousand reels of at
/// most a thousand rows.
pub open spec fn settleable(g: Seq<Seq<SlotSymbol>>) -> bool {
    &&& rectangular(g)
    &&& g.len() <= 1000
    &&& forall|c: int| 0 <= c < g.len() ==> (#[trigger] g[c]).len() <= 1000
}


proof fn lemma_grid_count_prefix(g: Seq<Seq<SlotSymbol>>, s: SlotSymbol, i: int)
    requires
        0 <= i < g.len(),
    ensures
        grid_count(g.take(i + 1), s) == grid_count(g.take(i), s) + occurrences(g[i], s),
{
    assert(g.take(i + 1).drop_last() =~= g.take(i));
}

proof fn lemma_grid_count_bound(g: Seq<Seq<SlotSymbol>>, s: SlotSymbol, rows: int)
    requires
        forall|c: int| 0 <= c < g.len() ==> (#[trigger] g[c]).len() <= rows,
    ensures
        grid_count(g, s) <= g.len() * rows,
    decreases g.len(),
{
    if g.len() > 0 {
        lemma_grid_count_bound(g.drop_last(), s, rows);
        lemma_occurrences_bound(g.last(), s);
        assert(g.len() * rows == (g.len() - 1) * rows + rows) by (nonlinear_arith);
    }
}

fn roll_column(pool: &[(SlotSymbol, u32, i64)], rows: usize) -> (col: Vec<SlotSymbol>)
    requires
        drawable_pool(pool@),
    ensures
        rolled_column(col@, rows as int, pool@),
{
    let mut column: Vec<SlotSymbol> = Vec::with_capacity(rows);
    let mut k: usize = 0;
    while k < rows
        invariant
            0 <= k <= rows,
            drawable_pool(pool@),
            column@.len() == k,
            forall|j: int| 0 <= j < k ==> drawable(pool@, #[trigger] column@[j]),
        decreases rows - k,
    {
        column.push(draw_symbol_weighted(pool));
        k += 1;
    }
    column
}

fn spin_banner(mult: i64, scatter: bool) -> (m: String)
    requires
        mult >= 0,
    ensures
        m@ == spin_message(mult as int, scatter),
{
    if mult >= 100 {
        let mut m = String::from_str("★★★★★ ULTRA JACKPOT x");
        let d = decimal_string(mult as u64);
        m.append(d.as_str());
        m.append("! ★★★★★");
        m
    } else if mult >= 50 {
        let mut m = String::from_str("★★★★ MEGA JACKPOT x");
        let d = decimal_string(mult as u64);
        m.append(d.as_str());
        m.append("! ★★★★");
        m
    } else if mult >= 20 {
        let mut m = String::from_str("★★★ JACKPOT x");
        let d = decimal_string(mult as u64);
        m.append(d.as_str());
        m.append("! ★★★");
        m
    } else if mult >= 10 {
        let mut m = String::from_str("★ BIG WIN x");
        let d = decimal_string(mult as u64);
        m.append(d.as_str());
        m.append(" ★");
        m
    } else if mult > 0 {
        let mut m = String::from_str("Win x");
        let d = decimal_string(mult as u64);
        m.append(d.as_str());
        m.append("!");
        m
    } else if scatter {
        String::from_str("SCATTER BONUS! +3x payout!")
    } else {
        String::from_str("No match. Better luck next spin.")
    }
}

/// The machine as a spin starts: the countdowns run, the banner reads
/// "Spinning...", the last result is cleared and the bet feeds the pots.
pub open spec fn spin_begun(v: SlotsView) -> SlotsView {
    SlotsView {
        spinning: true,
        spin_frames_left: SLOTS_SPIN_FRAMES,
        reel_spin_frames: Seq::new(
            v.reel_count as nat,
            |i: int| (SLOTS_SPIN_FRAMES + i * SLOTS_REEL_STAGGER) as u8,
        ),
        message: "Spinning..."@,
        flash_counter: 0,
        last_mult: 0,
        last_payout: 0,
        jackpots: fed(v.jackpots, v.bet),
        ..v
    }
}

/// The machine switched to `m`: its reel count, every reel showing the
/// first symbol of its pool, the countdowns at rest.
pub open spec fn machine_set(v: SlotsView, m: MachineType) -> SlotsView {
    SlotsView {
        machine: m,
        reel_count: reels_of(m),
        reels: Seq::new(
            reels_of(m) as nat,
            |c: int| Seq::new(v.visible_rows as nat, |r: int| machine_pool(m)[0].0),
        ),
        reel_spin_frames: Seq::new(reels_of(m) as nat, |c: int| 0u8),
        ..v
    }
}

/// The machine after `m` in the lobby's order, back to Classic after
/// Monochrome.
pub open spec fn machine_after(m: MachineType) -> MachineType {
    match m {
        MachineType::Classic => MachineType::Cyber,
        MachineType::Cyber => MachineType::Retro,
        MachineType::Retro => MachineType::Neon,
        MachineType::Neon => MachineType::Hacker,
        MachineType::Hacker => MachineType::Elite,
        MachineType::Elite => MachineType::Midnight,
        MachineType::Midnight => MachineType::DiamondRush,
        MachineType::DiamondRush => MachineType::Lucky7,
        MachineType::Lucky7 => MachineType::Inferno,
        MachineType::Inferno => MachineType::Monochrome,
        MachineType::Monochrome => MachineType::Classic,
    }
}

impl MachineType {
    /// The machine after this one in the lobby's order.
    pub fn next(self) -> (m: MachineType)
        ensures
            m == machine_after(self),
    {
        match self {
            MachineType::Classic => MachineType::Cyber,
            MachineType::Cyber => MachineType::Retro,
            MachineType::Retro => MachineType::Neon,
            MachineType::Neon => MachineType::Hacker,
            MachineType::Hacker => MachineType::Elite,
            MachineType::Elite => MachineType::Midnight,
            MachineType::Midnight => MachineType::DiamondRush,
            MachineType::DiamondRush => MachineType::Lucky7,
            MachineType::Lucky7 => MachineType::Inferno,
            MachineType::Inferno => MachineType::Monochrome,
            MachineType::Monochrome => MachineType::Classic,
        }
    }
}

/// How often `s` shows on the reels.
pub fn tally(reels: &Vec<Vec<SlotSymbol>>, s: SlotSymbol) -> (n: u64)
    requires
        settleable(grid_view(reels@)),
    ensures
        n == grid_count(grid_view(reels@), s),
{
    let ghost g = grid_view(reels@);
    let mut n: u64 = 0;
    let mut c: usize = 0;
    while c < reels.len()
        invariant
            0 <= c <= reels@.len(),
            g == grid_view(reels@),
            settleable(g),
            n == grid_count(g.take(c as int), s),
            n <= c * 1000,
        decreases reels@.len() - c,
    {
        proof {
            lemma_grid_count_prefix(g, s, c as int);
        }
        assert(g[c as int] == reels@[c as int]@);
        let k = count_in(reels[c].as_slice(), s);
        n = n + k as u64;
        c += 1;
    }
    assert(g.take(c as int) =~= g);
    n
}

impl SlotsGame {
    pub fn adjust_bet(&mut self, delta: i64, max_chips: i64)
        requires
            !locked(old(self).state@) ==> i64::MIN <= old(self).state.bet + delta <= i64::MAX,
        ensures
            locked(old(self).state@) ==> final(self).state@ == old(self).state@,
            !locked(old(self).state@) ==> final(self).state@ == (SlotsView {
                bet: clamped(
                    old(self).state.bet + delta,
                    1_000,
                    clamped(max_chips as int, 1_000, 10_000_000),
                ) as i64,
                ..old(self).state@
            }),
            slots_ok(old(self).state@) ==> slots_ok(final(self).state@),
    {
        if self.state.spinning || self.state.auto_spin_remaining > 0 {
            return;
        }
        let max = if max_chips < 1_000 {
            1_000
        } else if max_chips > 10_000_000 {
            10_000_000
        } else {
            max_chips
        };
        let b = self.state.bet + delta;
        self.state.bet = if b < 1_000 { 1_000 } else if b > max { max } else { b };
    }

    pub fn set_machine(&mut self, machine: MachineType)
        ensures
            locked(old(self).state@) ==> final(self).state@ == old(self).state@,
            !locked(old(self).state@) ==> final(self).state@ == machine_set(old(self).state@, machine),
            slots_ok(old(self).state@) ==> slots_ok(final(self).state@),
    {
        if self.state.spinning || self.state.auto_spin_remaining > 0 {
            return;
        }
        self.state.machine = machine;
        self.state.reel_count = if matches!(machine, MachineType::Cyber) || matches!(machine, MachineType::Hacker)
            || matches!(machine, MachineType::Elite) {
            5
        } else {
            3
        };
        proof {
            lemma_machine_pool(machine);
        }
        let first = self.state.machine.symbol_pool()[0].0;
        let rows = self.state.visible_rows;
        let count = self.state.reel_count;
        let ghost col_spec = Seq::new(rows as nat, |r: int| machine_pool(machine)[0].0);
        let mut reels: Vec<Vec<SlotSymbol>> = Vec::new();
        let mut frames: Vec<u8> = Vec::new();
        let mut c: usize = 0;
        while c < count
            invariant
                0 <= c <= count,
                first == machine_pool(machine)[0].0,
                col_spec == Seq::new(rows as nat, |r: int| machine_pool(machine)[0].0),
                reels@.len() == c,
                frames@.len() == c,
                forall|j: int| 0 <= j < c ==> (#[trigger] reels@[j])@ == col_spec,
                forall|j: int| 0 <= j < c ==> #[trigger] frames@[j] == 0u8,
            decreases count - c,
        {
            let mut col: Vec<SlotSymbol> = Vec::new();
            let mut r: usize = 0;
            while r < rows
                invariant
                    0 <= r <= rows,
                    first == machine_pool(machine)[0].0,
                    col@.len() == r,
                    forall|k: int| 0 <= k < r ==> #[trigger] col@[k] == first,
                decreases rows - r,
            {
                col.push(first);
                r += 1;
            }
            assert(col@ =~= col_spec);
            reels.push(col);
            frames.push(0);
            c += 1;
        }
        self.state.reels = reels;
        self.state.reel_spin_frames = frames;
        assert(self.state@.reels =~= Seq::new(count as nat, |j: int| col_spec));
        assert(self.state@.reel_spin_frames =~= Seq::new(count as nat, |j: int| 0u8));
    }

    pub fn begin_spin(&mut self, chips: i64) -> (started: bool)
        requires
            slots_ok(old(self).state@),
            !old(self).state.spinning && old(self).state.bet <= chips ==> can_feed(
                old(self).state.jackpots,
                old(self).state.bet,
            ),
        ensures
            slots_ok(final(self).state@),
            started == (!old(self).state.spinning && old(self).state.bet <= chips),
            old(self).state.spinning ==> final(self).state@ == old(self).state@,
            !old(self).state.spinning && old(self).state.bet > chips ==> final(self).state@ == (
            SlotsView { message: "Insufficient chips for bet"@, ..old(self).state@ }),
            started ==> final(self).state@ == spin_begun(old(self).state@),
    {
        if self.state.spinning {
            return false;
        }
        if self.state.bet > chips {
            self.state.message = String::from_str("Insufficient chips for bet");
            return false;
        }
        self.state.spinning = true;
        self.state.spin_frames_left = SLOTS_SPIN_FRAMES;
        let n = self.state.reel_count;
        let mut frames: Vec<u8> = Vec::new();
        let mut i: usize = 0;
        while i < n
            invariant
                0 <= i <= n,
                n <= 39,
                frames@.len() == i,
                forall|j: int| 0 <= j < i ==> #[trigger] frames@[j] == (SLOTS_SPIN_FRAMES + j * SLOTS_REEL_STAGGER) as u8,
            decreases n - i,
        {
            frames.push(SLOTS_SPIN_FRAMES + (i as u8) * SLOTS_REEL_STAGGER);
            i += 1;
        }
        self.state.reel_spin_frames = frames;
        self.state.message = String::from_str("Spinning...");
        self.state.flash_counter = 0;
        self.state.last_mult = 0;
        self.state.last_payout = 0;
        let bet = self.state.bet;
        self.state.jackpots.contribute(bet);
        assert(self.state@.reel_spin_frames =~= Seq::new(
            n as nat,
            |i: int| (SLOTS_SPIN_FRAMES + i * SLOTS_REEL_STAGGER) as u8,
        ));
        true
    }

    pub fn tick_animation(&mut self, target_chips: i64)
        requires
            i64::MIN < target_chips - old(self).state.display_chips,
            target_chips - old(self).state.display_chips <= i64::MAX,
        ensures
            final(self).state@ == (SlotsView {
                flash_counter: if old(self).state.flash_counter > 0 {
                    (old(self).state.flash_counter - 1) as u8
                } else {
                    0
                },
                display_chips: approach(old(self).state.display_chips as int, target_chips as int) as i64,
                ..old(self).state@
            }),
            slots_ok(old(self).state@) ==> slots_ok(final(self).state@),
    {
        if self.state.flash_counter > 0 {
            self.state.flash_counter -= 1;
        }
        if self.state.display_chips < target_chips {
            let diff = target_chips - self.state.display_chips;
            let step = if diff / 10 > 1 { diff / 10 } else { 1 };
            self.state.display_chips += step;
        } else if self.state.display_chips > target_chips {
            let diff = self.state.display_chips - target_chips;
            let step = if diff / 10 > 1 { diff / 10 } else { 1 };
            self.state.display_chips -= step;
        }
    }
}


/// One frame of a spin's countdown: each running counter drops by one.
pub open spec fn counted_down(v: SlotsView) -> SlotsView {
    SlotsView {
        spin_frames_left: if v.spin_frames_left > 0 {
            (v.spin_frames_left - 1) as u8
        } else {
            0
        },
        reel_spin_frames: Seq::new(
            v.reel_spin_frames.len(),
            |i: int| if v.reel_spin_frames[i] > 0 { (v.reel_spin_frames[i] - 1) as u8 } else { 0 },
        ),
        ..v
    }
}

/// Every reel counter had already reached zero.
pub open spec fn all_reels_stopped(v: SlotsView) -> bool {
    forall|i: int| 0 <= i < v.reel_spin_frames.len() ==> #[trigger] v.reel_spin_frames[i] == 0
}

/// One frame of a running spin. While some reel still turns, the countdown
/// runs and the turning reels show new symbols; once all have stopped, a
/// new grid is rolled and the spin settles on it.
pub open spec fn spin_ticked(v: SlotsView, n: SlotsView, r: Option<(i64, i64, bool)>) -> bool {
    let pool = machine_pool(v.machine);
    let d = counted_down(v);
    if !v.spinning {
        n == v && r is None
    } else if all_reels_stopped(v) {
        &&& rolled_grid(n.reels, v.reel_count as int, v.visible_rows as int, pool)
        &&& n == spin_settled(d, n.reels)
        &&& r == Some(spin_result(d, n.reels))
    } else {
        &&& spinning_grid(
            v.reels,
            n.reels,
            d.reel_spin_frames,
            v.reel_count as int,
            v.visible_rows as int,
            pool,
        )
        &&& n == (SlotsView { reels: n.reels, ..d })
        &&& r is None
    }
}

impl SlotsGame {
    pub fn finish_spin(&mut self, reels: Vec<Vec<SlotSymbol>>) -> (res: (i64, i64, bool))
        requires
            slots_ok(old(self).state@),
            settleable(grid_view(reels@)),
        ensures
            final(self).state@ == spin_settled(old(self).state@, grid_view(reels@)),
            res == spin_result(old(self).state@, grid_view(reels@)),
            slots_ok(final(self).state@),
    {
        let ghost v = old(self).state@;
        let ghost g = grid_view(reels@);
        self.state.spinning = false;
        proof {
            lemma_machine_pool(v.machine);
        }
        let pool = self.state.machine.symbol_pool();
        let rows: usize = if reels.len() > 0 { reels[0].len() } else { 0 };
        let mut has_wild = false;
        let mut wilds: usize = 0;
        let mut scatter_count: usize = 0;
        let mut c: usize = 0;
        assert(forall|j: int| 0 <= j < reels@.len() ==> #[trigger] g[j] == reels@[j]@);
        while c < reels.len()
            invariant
                0 <= c <= reels@.len(),
                g == grid_view(reels@),
                settleable(g),
                reels@.len() > 0 ==> rows == g[0].len(),
                wilds == grid_count(g.take(c as int), SlotSymbol::Wild),
                scatter_count == grid_count(g.take(c as int), SlotSymbol::Scatter),
                has_wild == (wilds > 0),
                wilds <= c * 1000,
                scatter_count <= c * 1000,
                c <= reels@.len(),
            decreases reels@.len() - c,
        {
            proof {
                lemma_grid_count_prefix(g, SlotSymbol::Wild, c as int);
                lemma_grid_count_prefix(g, SlotSymbol::Scatter, c as int);
            }
            let col = &reels[c];
            assert(g[c as int] == col@);
            let w = count_in(col.as_slice(), SlotSymbol::Wild);
            let sc = count_in(col.as_slice(), SlotSymbol::Scatter);
            wilds = wilds + w;
            scatter_count = scatter_count + sc;
            if w > 0 {
                has_wild = true;
            }
            c += 1;
        }
        assert(g.take(c as int) =~= g);
        self.state.reels = reels;
        let mult = calculate_multiplier(self.state.reels.as_slice(), pool);
        proof {
            if self.state.reels@.len() > 0 {
                assert(g[0] == self.state.reels@[0]@);
                assert(mult <= 100_200);
            }
            let b = self.state.bet;
            assert(-100_200_000_000_000_000 <= b * mult <= 100_200_000_000_000_000) by (nonlinear_arith)
                requires
                    -1_000_000_000_000 <= b <= 1_000_000_000_000,
                    0 <= mult <= 100_200,
            ;
        }
        let mut payout = self.state.bet * mult;
        if has_wild && mult > 0 {
            payout += mult / 2;
        }
        self.state.last_payout = payout;
        self.state.last_mult = mult;
        self.state.flash_counter = if mult >= 50 {
            40
        } else if mult >= 20 {
            28
        } else {
            16
        };
        if mult >= 100 {
            self.state.jackpots.ultra = half_through_float(self.state.jackpots.ultra) + 5_000_000;
        } else if mult >= 50 {
            self.state.jackpots.mega = half_through_float(self.state.jackpots.mega) + 500_000;
        }
        let scatter = scatter_count >= 3;
        self.state.message = spin_banner(mult, scatter);
        if mult == 0 && scatter {
            payout = self.state.bet * 3;
        }
        (payout, mult, scatter)
    }
}


impl SlotsGame {
    pub fn tick_spin(&mut self) -> (r: Option<(i64, i64, bool)>)
        requires
            slots_ok(old(self).state@),
        ensures
            slots_ok(final(self).state@),
            spin_ticked(old(self).state@, final(self).state@, r),
    {
        let ghost v = old(self).state@;
        if !self.state.spinning {
            return None;
        }
        if self.state.spin_frames_left > 0 {
            self.state.spin_frames_left = self.state.spin_frames_left.saturating_sub(1);
        }
        let mut all_done = true;
        let n = self.state.reel_spin_frames.len();
        let mut i: usize = 0;
        while i < n
            invariant
                0 <= i <= n,
                n == v.reel_spin_frames.len(),
                self.state.reel_spin_frames@.len() == n,
                self.state@ == (SlotsView {
                    reel_spin_frames: self.state.reel_spin_frames@,
                    ..counted_down(v)
                }),
                forall|j: int|
                    0 <= j < n ==> #[trigger] self.state.reel_spin_frames@[j] == if j < i {
                        counted_down(v).reel_spin_frames[j]
                    } else {
                        v.reel_spin_frames[j]
                    },
                all_done == forall|j: int| 0 <= j < i ==> #[trigger] v.reel_spin_frames[j] == 0,
            decreases n - i,
        {
            if self.state.reel_spin_frames[i] > 0 {
                self.state.reel_spin_frames.set(i, self.state.reel_spin_frames[i] - 1);
                all_done = false;
            }
            i += 1;
        }
        assert(self.state.reel_spin_frames@ =~= counted_down(v).reel_spin_frames);
        proof {
            lemma_machine_pool(v.machine);
        }
        let pool = self.state.machine.symbol_pool();
        let count = self.state.reel_count;
        let rows = self.state.visible_rows;
        if all_done {
            self.state.spinning = false;
            let mut reels: Vec<Vec<SlotSymbol>> = Vec::with_capacity(count);
            let mut c: usize = 0;
            while c < count
                invariant
                    0 <= c <= count,
                    drawable_pool(pool@),
                    reels@.len() == c,
                    forall|j: int| 0 <= j < c ==> rolled_column(#[trigger] reels@[j]@, rows as int, pool@),
                decreases count - c,
            {
                let column = roll_column(pool, rows);
                reels.push(column);
                c += 1;
            }
            proof {
                let g = grid_view(reels@);
                assert forall|j: int| 0 <= j < g.len() implies (#[trigger] g[j]).len() == rows by {
                    assert(rolled_column(reels@[j]@, rows as int, pool@));
                }
                assert(settleable(g));
                assert(rolled_grid(g, count as int, rows as int, pool@));
            }
            let ghost d = counted_down(v);
            assert(self.state@ == (SlotsView { spinning: false, ..d }));
            let res = self.finish_spin(reels);
            Some(res)
        } else {
            let mut reels: Vec<Vec<SlotSymbol>> = Vec::with_capacity(count);
            let mut c: usize = 0;
            while c < count
                invariant
                    0 <= c <= count,
                    count == v.reel_count,
                    drawable_pool(pool@),
                    reels@.len() == c,
                    self.state.reel_spin_frames@.len() == count,
                    self.state@.reels == v.reels,
                    forall|j: int|
                        0 <= j < c ==> if self.state.reel_spin_frames@[j] == 0 && j < v.reels.len() {
                            (#[trigger] reels@[j])@ == v.reels[j]
                        } else {
                            rolled_column(reels@[j]@, rows as int, pool@)
                        },
                decreases count - c,
            {
                if self.state.reel_spin_frames[c] > 0 {
                    let column = roll_column(pool, rows);
                    reels.push(column);
                } else {
                    if !self.state.reels.is_empty() && c < self.state.reels.len() {
                        let column = self.state.reels[c].clone();
                        assert(column@ =~= self.state.reels@[c as int]@);
                        assert(v.reels[c as int] == self.state.reels@[c as int]@);
                        reels.push(column);
                    } else {
                        let column = roll_column(pool, rows);
                        reels.push(column);
                    }
                }
                c += 1;
            }
            self.state.reels = reels;
            None
        }
    }
}

/// A rolled grid of at most a thousand reels of at most a thousand rows is
/// one a spin can settle on.
pub proof fn lemma_rolled_settleable(
    g: Seq<Seq<SlotSymbol>>,
    cols: int,
    rows: int,
    pool: Seq<(SlotSymbol, u32, i64)>,
)
    requires
        rolled_grid(g, cols, rows, pool),
        0 <= cols <= 1000,
        0 <= rows <= 1000,
    ensures
        settleable(g),
{
    assert forall|c: int| 0 <= c < g.len() implies (#[trigger] g[c]).len() == rows by {
        assert(rolled_column(g[c], rows, pool));
    }
}

/// What a settled spin hands back stays far inside `i64`: the multiplier
/// within 100,200, the payout within 2^57 of zero, and no symbol shows more
/// than a million times.
pub proof fn lemma_spin_result_bounds(v: SlotsView, g: Seq<Seq<SlotSymbol>>)
    requires
        slots_ok(v),
        settleable(g),
    ensures
        0 <= spin_multiplier(g, machine_pool(v.machine)) <= 100_200,
        -0x0200_0000_0000_0000 <= spin_payout(v, g) <= 0x0200_0000_0000_0000,
        forall|s: SlotSymbol| #[trigger] grid_count(g, s) <= 1_000_000,
{
    let pool = machine_pool(v.machine);
    lemma_machine_pool(v.machine);
    let mult = spin_multiplier(g, pool);
    if g.len() > 0 {
        lemma_lines_value_range(paylines(g), pool);
        assert(paylines(g).len() <= g[0].len() + 2);
    }
    assert(0 <= mult <= 100_200);
    let b = v.bet;
    assert(-100_200_000_000_000_000 <= b * mult <= 100_200_000_000_000_000) by (nonlinear_arith)
        requires
            -1_000_000_000_000 <= b <= 1_000_000_000_000,
            0 <= mult <= 100_200,
    ;
    assert forall|s: SlotSymbol| #[trigger] grid_count(g, s) <= 1_000_000 by {
        lemma_grid_count_bound(g, s, 1000);
        assert(g.len() * 1000 <= 1_000_000) by (nonlinear_arith)
            requires
                g.len() <= 1000,
        ;
    }
}

/// Every bet feeds all three pots: none shrinks on a bet of zero or more,
/// and each grows on a bet of 80 or more (any table bet, which is at least
/// 1,000).
pub proof fn law_bet_feeds_every_pot(j: JackpotPool, bet: i64)
    requires
        can_feed(j, bet),
    ensures
        bet >= 0 ==> fed(j, bet).mini >= j.mini && fed(j, bet).mega >= j.mega && fed(j, bet).ultra >= j.ultra,
        bet >= 80 ==> fed(j, bet).mini > j.mini && fed(j, bet).mega > j.mega && fed(j, bet).ultra > j.ultra,
{
}

/// The scatter bonus needs three or more scatters: a grid no payline pays
/// for pays three times the bet with three scatters or more, and nothing
/// with fewer.
pub proof fn law_scatter_needs_three(v: SlotsView, g: Seq<Seq<SlotSymbol>>)
    requires
        spin_multiplier(g, machine_pool(v.machine)) == 0,
    ensures
        grid_count(g, SlotSymbol::Scatter) >= 3 ==> spin_payout(v, g) == 3 * v.bet,
        grid_count(g, SlotSymbol::Scatter) < 3 ==> spin_payout(v, g) == 0,
        spin_result(v, g).2 == (grid_count(g, SlotSymbol::Scatter) >= 3),
{
}

/// The chip counter closes in on the chips: each frame it moves toward
/// them, by at least one chip, without passing them.
pub proof fn law_counter_closes_in(display: int, target: int)
    ensures
        display < target ==> display < approach(display, target) <= target,
        display > target ==> target <= approach(display, target) < display,
        display == target ==> approach(display, target) == target,
{
}

/// Classic, Retro, Neon and the other small machines run three reels;
/// Cyber, Hacker and Elite run five; a machine switched to shows that many
/// reels, each with as many rows as before.
pub proof fn law_reel_counts(v: SlotsView, m: MachineType)
    ensures
        reels_of(m) == if m is Cyber || m is Hacker || m is Elite { 5usize } else { 3usize },
        machine_set(v, m).reel_count == reels_of(m),
        machine_set(v, m).reels.len() == reels_of(m),
        forall|c: int| 0 <= c < reels_of(m) ==> (#[trigger] machine_set(v, m).reels[c]).len() == v.visible_rows,
{
}

/// `n` copies of `s`.
pub open spec fn line_of(s: SlotSymbol, n: nat) -> Seq<SlotSymbol> {
    Seq::new(n, |i: int| s)
}

proof fn lemma_occurrences_line_of(s: SlotSymbol, n: nat, a: SlotSymbol)
    ensures
        occurrences(line_of(s, n), a) == if a == s { n } else { 0 },
    decreases n,
{
    if n > 0 {
        assert(line_of(s, n).drop_last() =~= line_of(s, (n - 1) as nat));
        lemma_occurrences_line_of(s, (n - 1) as nat, a);
    }
}

proof fn lemma_occurrences_push(line: Seq<SlotSymbol>, e: SlotSymbol, a: SlotSymbol)
    ensures
        occurrences(line.push(e), a) == occurrences(line, a) + if e == a { 1nat } else { 0nat },
{
    assert(line.push(e).drop_last() =~= line);
}

/// What a line pays is a function of its symbols and the pool alone: two
/// lines with the same symbols, read against pools with the same entries,
/// pay the same, whichever line is scored first or how often.
pub proof fn law_line_pay_is_determined(
    l1: Seq<SlotSymbol>,
    l2: Seq<SlotSymbol>,
    p1: Seq<(SlotSymbol, u32, i64)>,
    p2: Seq<(SlotSymbol, u32, i64)>,
)
    requires
        l1 =~= l2,
        p1 =~= p2,
    ensures
        line_value(l1, p1) == line_value(l2, p2),
{
}

/// A full match pays best: a full line of a symbol pays at least what a
/// line one short of it pays, the last place taken by another symbol.
pub proof fn law_full_line_pays_best(
    s: SlotSymbol,
    t: SlotSymbol,
    n: nat,
    pool: Seq<(SlotSymbol, u32, i64)>,
)
    requires
        modest_pool(pool),
        s != t,
        s != SlotSymbol::Wild,
        t != SlotSymbol::Wild,
        n >= 2,
    ensures
        line_value(line_of(s, n), pool) >= line_value(line_of(s, (n - 1) as nat).push(t), pool),
{
    let full = line_of(s, n);
    let near = line_of(s, (n - 1) as nat).push(t);
    lemma_occurrences_line_of(s, n, s);
    lemma_occurrences_line_of(s, n, SlotSymbol::Wild);
    lemma_occurrences_line_of(s, (n - 1) as nat, s);
    lemma_occurrences_line_of(s, (n - 1) as nat, t);
    lemma_occurrences_line_of(s, (n - 1) as nat, SlotSymbol::Wild);
    lemma_occurrences_push(line_of(s, (n - 1) as nat), t, s);
    lemma_occurrences_push(line_of(s, (n - 1) as nat), t, t);
    lemma_occurrences_push(line_of(s, (n - 1) as nat), t, SlotSymbol::Wild);
    lemma_pool_payout_modest(pool, s);
    assert(most_frequent_at(full, 0));
    assert(leader_at(full, 0));
    let kf = leader_index(full);
    assert(leader_at(full, kf));
    assert(full[kf] == s);
    assert forall|j: int| 0 <= j < near.len() implies #[trigger] near[j] == s || near[j] == t by {
        if j < n - 1 {
            assert(near[j] == line_of(s, (n - 1) as nat)[j]);
        }
    }
    assert(most_frequent_at(near, 0)) by {
        assert(near[0] == s);
        assert forall|j: int| 0 <= j < near.len() && near[j] != SlotSymbol::Wild implies occurrences(
            near,
            #[trigger] near[j],
        ) <= occurrences(near, near[0]) by {
            assert(near[j] == s || near[j] == t);
        }
    }
    assert(leader_at(near, 0));
    let kn = leader_index(near);
    assert(leader_at(near, kn));
    if kn > 0 {
        assert(!most_frequent_at(near, 0));
    }
    assert(kn == 0);
    assert(near[kn] == s);
}

/// How many frames a spin on `n` reels counts down before it settles: the
/// first reel's frames and the stagger of each further reel.
pub open spec fn spin_length(n: int) -> int {
    SLOTS_SPIN_FRAMES + (n - 1) * SLOTS_REEL_STAGGER
}

/// The countdown of reel `i` after `k` frames of a spin.
pub open spec fn reel_frames_after(i: int, k: int) -> int {
    let f = SLOTS_SPIN_FRAMES + i * SLOTS_REEL_STAGGER;
    if f >= k {
        f - k
    } else {
        0
    }
}

proof fn lemma_spin_countdown(
    x: SlotsView,
    vs: Seq<SlotsView>,
    rs: Seq<Option<(i64, i64, bool)>>,
    k: int,
)
    requires
        slots_ok(x),
        x.reel_count >= 1,
        vs.len() == rs.len() + 1,
        vs[0] == spin_begun(x),
        forall|j: int| 0 <= j < rs.len() ==> spin_ticked(#[trigger] vs[j], vs[j + 1], rs[j]),
        0 <= k <= spin_length(x.reel_count as int),
        k <= rs.len(),
    ensures
        vs[k].spinning,
        vs[k].reel_count == x.reel_count,
        vs[k].reel_spin_frames.len() == x.reel_count,
        forall|i: int| 0 <= i < x.reel_count ==> #[trigger] vs[k].reel_spin_frames[i] == reel_frames_after(i, k),
    decreases k,
{
    let n = x.reel_count as int;
    if k == 0 {
        assert forall|i: int| 0 <= i < n implies #[trigger] vs[0].reel_spin_frames[i] == reel_frames_after(i, 0) by {
            assert(SLOTS_SPIN_FRAMES + i * SLOTS_REEL_STAGGER <= 20 + 38 * 6);
        }
    } else {
        lemma_spin_countdown(x, vs, rs, k - 1);
        let v = vs[k - 1];
        assert(spin_ticked(vs[k - 1], vs[k], rs[k - 1]));
        assert(!all_reels_stopped(v)) by {
            assert(v.reel_spin_frames[n - 1] == reel_frames_after(n - 1, k - 1));
        }
        let d = counted_down(v);
        assert(vs[k] == (SlotsView { reels: vs[k].reels, ..d }));
        assert forall|i: int| 0 <= i < n implies #[trigger] vs[k].reel_spin_frames[i] == reel_frames_after(i, k) by {
            assert(v.reel_spin_frames[i] == reel_frames_after(i, k - 1));
        }
    }
}

/// A spin settles on time: after a spin starts on `n` reels, the first
/// `spin_length(n)` frames leave it running with no result, and the frame
/// after them settles it and hands back its result.
pub proof fn law_spin_settles_on_time(
    x: SlotsView,
    vs: Seq<SlotsView>,
    rs: Seq<Option<(i64, i64, bool)>>,
)
    requires
        slots_ok(x),
        x.reel_count >= 1,
        vs.len() == rs.len() + 1,
        vs[0] == spin_begun(x),
        forall|j: int| 0 <= j < rs.len() ==> spin_ticked(#[trigger] vs[j], vs[j + 1], rs[j]),
    ensures
        forall|k: int|
            0 <= k < rs.len() && k < spin_length(x.reel_count as int) ==> #[trigger] rs[k] is None
                && vs[k + 1].spinning,
        forall|k: int|
            0 <= k < rs.len() && k == spin_length(x.reel_count as int) ==> #[trigger] rs[k] is Some
                && !vs[k + 1].spinning,
{
    let n = x.reel_count as int;
    let m = spin_length(n);
    assert forall|k: int| 0 <= k < rs.len() && k < m implies #[trigger] rs[k] is None && vs[k + 1].spinning by {
        lemma_spin_countdown(x, vs, rs, k);
        assert(spin_ticked(vs[k], vs[k + 1], rs[k]));
        assert(!all_reels_stopped(vs[k])) by {
            assert(vs[k].reel_spin_frames[n - 1] == reel_frames_after(n - 1, k));
        }
    }
    assert forall|k: int| 0 <= k < rs.len() && k == m implies #[trigger] rs[k] is Some && !vs[k + 1].spinning by {
        lemma_spin_countdown(x, vs, rs, k);
        assert(spin_ticked(vs[k], vs[k + 1], rs[k]));
        assert(all_reels_stopped(vs[k])) by {
            assert forall|i: int| 0 <= i < vs[k].reel_spin_frames.len() implies #[trigger] vs[k].reel_spin_frames[i] == 0 by {
                assert(vs[k].reel_spin_frames[i] == reel_frames_after(i, k));
            }
        }
    }
}


proof fn lemma_occurrences_only(line: Seq<SlotSymbol>, s: SlotSymbol)
    requires
        s != SlotSymbol::Wild,
        forall|j: int| 0 <= j < line.len() ==> #[trigger] line[j] == s || line[j] == SlotSymbol::Wild,
    ensures
        occurrences(line, s) + occurrences(line, SlotSymbol::Wild) == line.len(),
    decreases line.len(),
{
    if line.len() > 0 {
        let l = line.drop_last();
        assert forall|j: int| 0 <= j < l.len() implies #[trigger] l[j] == s || l[j] == SlotSymbol::Wild by {
            assert(l[j] == line[j]);
        }
        lemma_occurrences_only(l, s);
        assert(line.last() == line[line.len() - 1]);
    }
}

/// Wilds complete lines: a line whose places all hold one symbol `s` or a
/// wild, `s` at least once, pays what a full line of `s` pays; with `s` in
/// the pool at payout `p`, that is `full_pay(p, n)` on `n` reels.
pub proof fn law_wilds_complete_lines(
    line: Seq<SlotSymbol>,
    s: SlotSymbol,
    pool: Seq<(SlotSymbol, u32, i64)>,
)
    requires
        s != SlotSymbol::Wild,
        line.contains(s),
        forall|j: int| 0 <= j < line.len() ==> #[trigger] line[j] == s || line[j] == SlotSymbol::Wild,
    ensures
        line_value(line, pool) == line_value(line_of(s, line.len()), pool),
        pool_payout(pool, s) matches Some(p) ==> line_value(line, pool) == full_pay(p as int, line.len() as int),
{
    let n = line.len();
    let full = line_of(s, n);
    lemma_occurrences_only(line, s);
    lemma_occurrences_line_of(s, n, s);
    lemma_occurrences_line_of(s, n, SlotSymbol::Wild);
    let i0 = choose|i: int| 0 <= i < line.len() && line[i] == s;
    lemma_occurrences_bound(line, s);
    assert(occurrences(line, SlotSymbol::Wild) < n);
    assert(most_frequent_at(line, i0)) by {
        assert forall|j: int| 0 <= j < line.len() && line[j] != SlotSymbol::Wild implies occurrences(
            line,
            #[trigger] line[j],
        ) <= occurrences(line, line[i0]) by {
            assert(line[j] == s);
        }
    }
    lemma_first_leader(line, i0);
    let k = leader_index(line);
    assert(leader_at(line, k));
    assert(line[k] == s);
    assert(most_frequent_at(full, 0));
    assert(leader_at(full, 0));
    let kf = leader_index(full);
    assert(leader_at(full, kf));
    assert(full[kf] == s);
}

proof fn lemma_first_leader(line: Seq<SlotSymbol>, i: int)
    requires
        most_frequent_at(line, i),
    ensures
        exists|k: int| leader_at(line, k),
    decreases i,
{
    if exists|j: int| 0 <= j < i && most_frequent_at(line, j) {
        let j = choose|j: int| 0 <= j < i && most_frequent_at(line, j);
        lemma_first_leader(line, j);
    } else {
        assert(leader_at(line, i));
    }
}

} // verus!

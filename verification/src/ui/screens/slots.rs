use vstd::prelude::*;

use vstd::string::*;

use crate::games::slots::MachineType;
use crate::utils::numtext::{decimal, decimal_string};

verus! {

/// The headline shown over a win.
pub open spec fn celebration_of(mult: i64) -> &'static str {
    if mult >= 100 {
        "=== ULTRA JACKPOT ==="
    } else if mult >= 50 {
        "=== MEGA WIN ==="
    } else if mult >= 20 {
        "=== JACKPOT HIT ==="
    } else {
        "=== WIN ==="
    }
}

pub fn celebration_text(mult: i64) -> (t: &'static str)
    ensures
        t == celebration_of(mult),
{
    if mult >= 100 {
        "=== ULTRA JACKPOT ==="
    } else if mult >= 50 {
        "=== MEGA WIN ==="
    } else if mult >= 20 {
        "=== JACKPOT HIT ==="
    } else {
        "=== WIN ==="
    }
}

/// The two lines describing a machine.
pub open spec fn profile_of(machine: MachineType) -> (&'static str, &'static str) {
    match machine {
        MachineType::Classic => ("3 reels | calm spread", "steady low-volatility lines"),
        MachineType::Cyber => ("5 reels | wild-heavy", "longer lines and bonus chases"),
        MachineType::Retro => ("3 reels | classic pay", "balanced jackpots and wilds"),
        MachineType::Neon => ("3 reels | fast swing", "lighter hits with sharp spikes"),
        MachineType::Hacker => ("5 reels | scatter-rich", "chaotic reels and bonus pressure"),
        MachineType::Elite => ("5 reels | high risk", "premium symbols and huge swings"),
        MachineType::Midnight => ("3 reels | dark mix", "bars, stars, and streak play"),
        MachineType::DiamondRush => ("3 reels | gem table", "diamond-heavy jackpots"),
        MachineType::Lucky7 => ("3 reels | seven chase", "lean pool with sharp payouts"),
        MachineType::Inferno => ("3 reels | hot table", "flame-heavy volatility"),
        MachineType::Monochrome => ("3 reels | bar stack", "clean classic payout map"),
    }
}

pub fn machine_profile(machine: MachineType) -> (p: (&'static str, &'static str))
    ensures
        p == profile_of(machine),
{
    match machine {
        MachineType::Classic => ("3 reels | calm spread", "steady low-volatility lines"),
        MachineType::Cyber => ("5 reels | wild-heavy", "longer lines and bonus chases"),
        MachineType::Retro => ("3 reels | classic pay", "balanced jackpots and wilds"),
        MachineType::Neon => ("3 reels | fast swing", "lighter hits with sharp spikes"),
        MachineType::Hacker => ("5 reels | scatter-rich", "chaotic reels and bonus pressure"),
        MachineType::Elite => ("5 reels | high risk", "premium symbols and huge swings"),
        MachineType::Midnight => ("3 reels | dark mix", "bars, stars, and streak play"),
        MachineType::DiamondRush => ("3 reels | gem table", "diamond-heavy jackpots"),
        MachineType::Lucky7 => ("3 reels | seven chase", "lean pool with sharp payouts"),
        MachineType::Inferno => ("3 reels | hot table", "flame-heavy volatility"),
        MachineType::Monochrome => ("3 reels | bar stack", "clean classic payout map"),
    }
}

/// `piece` once per reel, two spaces apart.
pub open spec fn reel_row(count: nat, piece: Seq<char>) -> Seq<char>
    decreases count,
{
    if count == 0 {
        Seq::empty()
    } else if count == 1 {
        piece
    } else {
        reel_row((count - 1) as nat, piece) + "  "@ + piece
    }
}

pub fn reel_rule(count: usize, piece: &str) -> (t: String)
    ensures
        t@ == reel_row(count as nat, piece@),
{
    let mut t = String::new();
    let mut i: usize = 0;
    while i < count
        invariant
            0 <= i <= count,
            t@ == reel_row(i as nat, piece@),
        decreases count - i,
    {
        if i > 0 {
            t.append("  ");
        }
        t.append(piece);
        i += 1;
    }
    t
}

/// The label printed left of a row of reels.
pub open spec fn row_name(row: int) -> &'static str {
    if row == 0 {
        " TOP  "
    } else if row == 1 {
        " MID  "
    } else if row == 2 {
        " BOT  "
    } else {
        "      "
    }
}

pub fn row_label(row: usize) -> (t: &'static str)
    ensures
        t == row_name(row as int),
{
    if row == 0 {
        " TOP  "
    } else if row == 1 {
        " MID  "
    } else if row == 2 {
        " BOT  "
    } else {
        "      "
    }
}

/// The auto-spin counter as shown: the spins left, or OFF.
pub open spec fn auto_line(remaining: u32) -> Seq<char> {
    if remaining > 0 {
        "AUTO:"@ + decimal(remaining as nat)
    } else {
        "AUTO:OFF"@
    }
}

pub fn auto_label(remaining: u32) -> (t: String)
    ensures
        t@ == auto_line(remaining),
{
    if remaining > 0 {
        let mut t = String::from_str("AUTO:");
        let n = decimal_string(remaining as u64);
        t.append(n.as_str());
        t
    } else {
        String::from_str("AUTO:OFF")
    }
}

/// The reels flash on every other frame of the win flash.
pub fn flash_beat(flash_counter: u8) -> (b: bool)
    ensures
        b == (flash_counter > 0 && flash_counter % 2 == 0),
{
    flash_counter > 0 && flash_counter % 2 == 0
}

} // verus!

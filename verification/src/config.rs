use vstd::prelude::*;

verus! {

/// Name shown in the header bar.
pub const APP_NAME: &'static str = "PROX CASINO";

/// Version written into save files.
pub const APP_VERSION: &'static str = "0.1.0";

/// Milliseconds between two frames of the main loop.
pub const TICK_RATE_MS: u64 = 50;

/// Chips a new offline player starts with.
pub const START_CHIPS: i64 = 100_000;

/// Chips granted by the daily bonus.
pub const DAILY_BONUS: i64 = 50_000;

/// Frames the house waits between two draws.
pub const BJ_DEALER_TICK_DELAY: u8 = 8;

/// Frames the result flash of a blackjack round lasts.
pub const BJ_FLASH_FRAMES: u8 = 24;

/// Frames a slot spin lasts before the first reel stops.
pub const SLOTS_SPIN_FRAMES: u8 = 20;

/// Extra frames each further reel keeps spinning.
pub const SLOTS_REEL_STAGGER: u8 = 6;

} // verus!

pub mod blackjack;
pub mod slots;
pub mod traits;

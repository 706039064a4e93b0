pub mod blackjack;
pub mod dashboard;
pub mod slots;

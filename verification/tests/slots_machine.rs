use prox_casino::games::slots::{
    symbol_for_pick, tally, JackpotPool, MachineType, Rarity, SlotSymbol, SlotsGame,
};

fn grid(cols: &[[SlotSymbol; 3]]) -> Vec<Vec<SlotSymbol>> {
    cols.iter().map(|c| c.to_vec()).collect()
}

#[test]
fn symbols_know_their_kind() {
    assert!(SlotSymbol::Wild.is_wild());
    assert!(!SlotSymbol::Cherry.is_wild());
    assert!(SlotSymbol::Scatter.is_scatter());
    assert!(matches!(SlotSymbol::Cherry.rarity(), Rarity::Common));
    assert!(SlotSymbol::Diamond.rarity() > SlotSymbol::Cherry.rarity());
    let art = SlotSymbol::Cherry.big_symbol();
    assert_eq!(art.len(), 5);
    assert_eq!(art[4], "   🍒   ");
}

#[test]
fn machines_have_names_and_pools() {
    assert_eq!(MachineType::Classic.name(), "Classic Vegas");
    assert_eq!(MachineType::Monochrome.name(), "Monochrome");
    let pool = MachineType::Classic.symbol_pool();
    assert_eq!(pool.len(), 5);
    assert_eq!(pool[0], (SlotSymbol::Cherry, 40, 3));
    let all = [
        MachineType::Classic,
        MachineType::Cyber,
        MachineType::Retro,
        MachineType::Neon,
        MachineType::Hacker,
        MachineType::Elite,
        MachineType::Midnight,
        MachineType::DiamondRush,
        MachineType::Lucky7,
        MachineType::Inferno,
        MachineType::Monochrome,
    ];
    for m in all {
        let total: u32 = m.symbol_pool().iter().map(|p| p.1).sum();
        assert_eq!(total, 100);
    }
    assert_eq!(MachineType::Monochrome.next(), MachineType::Classic);
    assert_eq!(MachineType::Classic.next(), MachineType::Cyber);
}

#[test]
fn a_pick_lands_in_its_weight_band() {
    let pool = MachineType::Classic.symbol_pool();
    assert_eq!(symbol_for_pick(pool, 0), SlotSymbol::Cherry);
    assert_eq!(symbol_for_pick(pool, 39), SlotSymbol::Cherry);
    assert_eq!(symbol_for_pick(pool, 40), SlotSymbol::Lemon);
    assert_eq!(symbol_for_pick(pool, 70), SlotSymbol::Bell);
    assert_eq!(symbol_for_pick(pool, 96), SlotSymbol::Diamond);
    assert_eq!(symbol_for_pick(pool, 99), SlotSymbol::Diamond);
}

#[test]
fn each_bet_feeds_the_three_pots() {
    let mut j = JackpotPool::new();
    assert_eq!((j.mini, j.mega, j.ultra), (50_000, 500_000, 5_000_000));
    j.contribute(5_000);
    assert_eq!((j.mini, j.mega, j.ultra), (50_250, 500_125, 5_000_062));
    j.contribute(80);
    assert_eq!((j.mini, j.mega, j.ultra), (50_254, 500_127, 5_000_063));
}

#[test]
fn a_spin_needs_the_chips_for_its_bet() {
    let mut g = SlotsGame::default();
    assert!(!g.begin_spin(4_999));
    assert_eq!(g.state.message, "Insufficient chips for bet");
    assert!(!g.state.spinning);
    assert!(g.begin_spin(5_000));
    assert!(g.state.spinning);
    assert_eq!(g.state.reel_spin_frames, vec![20, 26, 32]);
    assert_eq!(g.state.jackpots.mini, 50_250);
    assert!(!g.begin_spin(5_000));
}

#[test]
fn the_bet_is_locked_while_a_spin_runs() {
    let mut g = SlotsGame::default();
    g.adjust_bet(1_000, 100_000);
    assert_eq!(g.state.bet, 6_000);
    g.adjust_bet(-100_000, 100_000);
    assert_eq!(g.state.bet, 1_000);
    g.adjust_bet(100_000_000, 50_000);
    assert_eq!(g.state.bet, 50_000);
    assert!(g.begin_spin(100_000));
    g.adjust_bet(1_000, 100_000);
    assert_eq!(g.state.bet, 50_000);
    g.set_machine(MachineType::Cyber);
    assert_eq!(g.state.machine, MachineType::Classic);
}

#[test]
fn five_reel_machines_show_five_reels() {
    let mut g = SlotsGame::default();
    g.set_machine(MachineType::Cyber);
    assert_eq!(g.state.reel_count, 5);
    assert_eq!(g.state.reels.len(), 5);
    assert!(g.state.reels.iter().all(|c| c.len() == 3 && c.iter().all(|s| *s == SlotSymbol::Cherry)));
    assert_eq!(g.state.reel_spin_frames, vec![0, 0, 0, 0, 0]);
    g.set_machine(MachineType::Retro);
    assert_eq!(g.state.reel_count, 3);
    g.set_machine(MachineType::Elite);
    assert_eq!(g.state.reel_count, 5);
}

#[test]
fn a_full_grid_of_cherries_pays_every_line() {
    let mut g = SlotsGame::default();
    let c = SlotSymbol::Cherry;
    let (payout, mult, scatter) = g.finish_spin(grid(&[[c, c, c], [c, c, c], [c, c, c]]));
    assert_eq!(mult, 30);
    assert_eq!(payout, 150_000);
    assert!(!scatter);
    assert_eq!(g.state.last_payout, 150_000);
    assert_eq!(g.state.flash_counter, 28);
    assert_eq!(g.state.message, "★★★ JACKPOT x30! ★★★");
    assert_eq!(g.state.jackpots.ultra, 5_000_000);
}

#[test]
fn a_grid_without_lines_pays_nothing() {
    let mut g = SlotsGame::default();
    let (c, l, b) = (SlotSymbol::Cherry, SlotSymbol::Lemon, SlotSymbol::Bell);
    let (payout, mult, scatter) = g.finish_spin(grid(&[[c, c, c], [l, l, l], [b, b, b]]));
    assert_eq!((payout, mult, scatter), (0, 0, false));
    assert_eq!(g.state.message, "No match. Better luck next spin.");
    assert_eq!(g.state.flash_counter, 16);
}

#[test]
fn an_all_wild_grid_hits_the_ultra_jackpot() {
    let mut g = SlotsGame::default();
    g.set_machine(MachineType::Cyber);
    let w = SlotSymbol::Wild;
    let (payout, mult, scatter) = g.finish_spin(grid(&[[w, w, w], [w, w, w], [w, w, w], [w, w, w], [w, w, w]]));
    assert_eq!(mult, 300);
    assert_eq!(payout, 5_000 * 300 + 150);
    assert!(!scatter);
    assert_eq!(g.state.jackpots.ultra, 7_500_000);
    assert_eq!(g.state.flash_counter, 40);
    assert_eq!(g.state.message, "★★★★★ ULTRA JACKPOT x300! ★★★★★");
}

#[test]
fn three_scatters_pay_the_bonus() {
    let mut g = SlotsGame::default();
    g.set_machine(MachineType::Cyber);
    let (s, c, l, y, d) = (
        SlotSymbol::Scatter,
        SlotSymbol::Cherry,
        SlotSymbol::Lemon,
        SlotSymbol::Cyber,
        SlotSymbol::Diamond,
    );
    let reels = grid(&[[s, c, l], [c, l, y], [l, y, s], [y, d, c], [d, s, l]]);
    assert_eq!(tally(&reels, SlotSymbol::Scatter), 3);
    let (payout, mult, scatter) = g.finish_spin(reels);
    assert_eq!(mult, 0);
    assert!(scatter);
    assert_eq!(payout, 15_000);
    assert_eq!(g.state.message, "SCATTER BONUS! +3x payout!");
}

#[test]
fn the_chip_counter_closes_in_on_the_chips() {
    let mut g = SlotsGame::default();
    g.tick_animation(100_005);
    assert_eq!(g.state.display_chips, 100_001);
    g.tick_animation(200_001);
    assert_eq!(g.state.display_chips, 110_001);
    g.tick_animation(110_000);
    assert_eq!(g.state.display_chips, 110_000);
    g.tick_animation(110_000);
    assert_eq!(g.state.display_chips, 110_000);
}

#[test]
fn a_spin_runs_its_frames_and_settles() {
    let mut g = SlotsGame::default();
    assert!(g.begin_spin(100_000));
    let mut result = None;
    let mut frames = 0;
    while result.is_none() && frames < 200 {
        result = g.tick_spin();
        frames += 1;
    }
    assert_eq!(frames, 33);
    let (payout, mult, _) = result.expect("the spin settles");
    assert!(!g.state.spinning);
    assert_eq!(g.state.last_mult, mult);
    assert!(payout >= 0);
    let pool = MachineType::Classic.symbol_pool();
    for col in &g.state.reels {
        assert_eq!(col.len(), 3);
        for s in col {
            assert!(pool.iter().any(|p| p.0 == *s));
        }
    }
    assert_eq!(g.tick_spin(), None);
}

#[test]
fn the_reels_roll_different_symbols() {
    let mut g = SlotsGame::default();
    let mut seen: Vec<SlotSymbol> = Vec::new();
    for _ in 0..3 {
        assert!(g.begin_spin(100_000));
        while g.tick_spin().is_none() {}
        for col in &g.state.reels {
            for s in col {
                if !seen.contains(s) {
                    seen.push(*s);
                }
            }
        }
    }
    assert!(seen.len() > 1);
}

#[test]
fn a_full_line_pays_at_least_a_near_full_one() {
    let mut g = SlotsGame::default();
    g.set_machine(MachineType::Cyber);
    let (c, l, y, s7, d) = (
        SlotSymbol::Cherry,
        SlotSymbol::Lemon,
        SlotSymbol::Cyber,
        SlotSymbol::Seven,
        SlotSymbol::Diamond,
    );
    let reels = grid(&[[c, l, y], [c, y, d], [c, s7, l], [c, d, y], [c, l, s7]]);
    let (payout, mult, scatter) = g.finish_spin(reels);
    assert_eq!(mult, 4);
    assert_eq!(payout, 20_000);
    assert!(!scatter);
    assert_eq!(g.state.message, "Win x4!");
}

#[test]
fn a_five_reel_spin_settles_after_its_staggered_frames() {
    let mut g = SlotsGame::default();
    g.set_machine(MachineType::Cyber);
    assert_eq!(g.state.reel_count, 5);
    assert!(g.begin_spin(100_000));
    for _ in 0..(20 + 4 * 6) {
        assert_eq!(g.tick_spin(), None);
        assert!(g.state.spinning);
    }
    assert!(g.tick_spin().is_some());
    assert!(!g.state.spinning);
}

#[test]
fn a_huge_ultra_pot_is_halved_as_a_float_would_halve_it() {
    let w = SlotSymbol::Wild;
    let big = (1i64 << 53) + 3;
    let mut g = SlotsGame::default();
    g.set_machine(MachineType::Cyber);
    g.state.jackpots.ultra = big;
    g.finish_spin(grid(&[[w, w, w], [w, w, w], [w, w, w], [w, w, w], [w, w, w]]));
    assert_eq!(g.state.jackpots.ultra, ((big as f64 * 0.5) as i64) + 5_000_000);
    assert_eq!(g.state.jackpots.ultra, (1i64 << 52) + 2 + 5_000_000);
    let mut h = SlotsGame::default();
    h.set_machine(MachineType::Cyber);
    h.state.jackpots.ultra = -big;
    h.finish_spin(grid(&[[w, w, w], [w, w, w], [w, w, w], [w, w, w], [w, w, w]]));
    assert_eq!(h.state.jackpots.ultra, ((-big as f64 * 0.5) as i64) + 5_000_000);
    let mut k = SlotsGame::default();
    k.set_machine(MachineType::Cyber);
    k.state.jackpots.ultra = i64::MIN;
    k.finish_spin(grid(&[[w, w, w], [w, w, w], [w, w, w], [w, w, w], [w, w, w]]));
    assert_eq!(k.state.jackpots.ultra, ((i64::MIN as f64 * 0.5) as i64) + 5_000_000);
}

use vstd::prelude::*;

verus! {

/// What the player has done, over all sessions.
#[derive(Debug, Clone)]
pub struct PlayerStats {
    pub games_played: u64,
    pub total_won: i64,
    pub total_bet: i64,
    pub biggest_win: i64,
    pub highest_bet: i64,
    pub blackjack_wins: u64,
    pub blackjack_losses: u64,
    pub blackjack_pushes: u64,
    pub blackjack_count: u64,
    pub bust_count: u64,
    pub dealer_bust_count: u64,
    pub blackjack_streak: i64,
    pub blackjack_best_streak: i64,
    pub average_bet: i64,
    pub blackjack_win_streak: u64,
    pub blackjack_loss_streak: u64,
    pub blackjack_push_streak: u64,
    pub perfect_blackjacks: u64,
    pub double_down_wins: u64,
    pub double_down_losses: u64,
    pub split_wins: u64,
    pub split_losses: u64,
    pub surrender_count: u64,
    pub insurance_wins: u64,
    pub insurance_losses: u64,
    pub slots_spins: u64,
    pub slots_biggest_win: i64,
    pub jackpot_count_mini: u64,
    pub jackpot_count_mega: u64,
    pub jackpot_count_ultra: u64,
    pub slots_win_streak: u64,
    pub slots_loss_streak: u64,
    pub cherry_matches: u64,
    pub lemon_matches: u64,
    pub bell_matches: u64,
    pub seven_matches: u64,
    pub diamond_matches: u64,
    pub wild_matches: u64,
    pub scatter_matches: u64,
    pub session_history: Vec<SessionSummary>,
}

/// One session, as recorded when the game closes.
#[derive(Debug, Clone)]
pub struct SessionSummary {
    pub date: String,
    pub duration_seconds: u64,
    pub starting_chips: i64,
    pub ending_chips: i64,
    pub net_change: i64,
    pub blackjack_wins: u64,
    pub blackjack_losses: u64,
    pub slots_spins: u64,
    pub biggest_win: i64,
    pub biggest_loss: i64,
}

/// A session as a value.
pub struct SessionView {
    pub date: Seq<char>,
    pub duration_seconds: u64,
    pub starting_chips: i64,
    pub ending_chips: i64,
    pub net_change: i64,
    pub blackjack_wins: u64,
    pub blackjack_losses: u64,
    pub slots_spins: u64,
    pub biggest_win: i64,
    pub biggest_loss: i64,
}

impl View for SessionSummary {
    type V = SessionView;

    open spec fn view(&self) -> SessionView {
        SessionView {
            date: self.date@,
            duration_seconds: self.duration_seconds,
            starting_chips: self.starting_chips,
            ending_chips: self.ending_chips,
            net_change: self.net_change,
            blackjack_wins: self.blackjack_wins,
            blackjack_losses: self.blackjack_losses,
            slots_spins: self.slots_spins,
            biggest_win: self.biggest_win,
            biggest_loss: self.biggest_loss,
        }
    }
}

/// The statistics as a value, the session history by its view.
pub struct StatsView {
    pub games_played: u64,
    pub total_won: i64,
    pub total_bet: i64,
    pub biggest_win: i64,
    pub highest_bet: i64,
    pub blackjack_wins: u64,
    pub blackjack_losses: u64,
    pub blackjack_pushes: u64,
    pub blackjack_count: u64,
    pub bust_count: u64,
    pub dealer_bust_count: u64,
    pub blackjack_streak: i64,
    pub blackjack_best_streak: i64,
    pub average_bet: i64,
    pub blackjack_win_streak: u64,
    pub blackjack_loss_streak: u64,
    pub blackjack_push_streak: u64,
    pub perfect_blackjacks: u64,
    pub double_down_wins: u64,
    pub double_down_losses: u64,
    pub split_wins: u64,
    pub split_losses: u64,
    pub surrender_count: u64,
    pub insurance_wins: u64,
    pub insurance_losses: u64,
    pub slots_spins: u64,
    pub slots_biggest_win: i64,
    pub jackpot_count_mini: u64,
    pub jackpot_count_mega: u64,
    pub jackpot_count_ultra: u64,
    pub slots_win_streak: u64,
    pub slots_loss_streak: u64,
    pub cherry_matches: u64,
    pub lemon_matches: u64,
    pub bell_matches: u64,
    pub seven_matches: u64,
    pub diamond_matches: u64,
    pub wild_matches: u64,
    pub scatter_matches: u64,
    pub session_history: Seq<SessionView>,
}

impl View for PlayerStats {
    type V = StatsView;

    open spec fn view(&self) -> StatsView {
        StatsView {
            games_played: self.games_played,
            total_won: self.total_won,
            total_bet: self.total_bet,
            biggest_win: self.biggest_win,
            highest_bet: self.highest_bet,
            blackjack_wins: self.blackjack_wins,
            blackjack_losses: self.blackjack_losses,
            blackjack_pushes: self.blackjack_pushes,
            blackjack_count: self.blackjack_count,
            bust_count: self.bust_count,
            dealer_bust_count: self.dealer_bust_count,
            blackjack_streak: self.blackjack_streak,
            blackjack_best_streak: self.blackjack_best_streak,
            average_bet: self.average_bet,
            blackjack_win_streak: self.blackjack_win_streak,
            blackjack_loss_streak: self.blackjack_loss_streak,
            blackjack_push_streak: self.blackjack_push_streak,
            perfect_blackjacks: self.perfect_blackjacks,
            double_down_wins: self.double_down_wins,
            double_down_losses: self.double_down_losses,
            split_wins: self.split_wins,
            split_losses: self.split_losses,
            surrender_count: self.surrender_count,
            insurance_wins: self.insurance_wins,
            insurance_losses: self.insurance_losses,
            slots_spins: self.slots_spins,
            slots_biggest_win: self.slots_biggest_win,
            jackpot_count_mini: self.jackpot_count_mini,
            jackpot_count_mega: self.jackpot_count_mega,
            jackpot_count_ultra: self.jackpot_count_ultra,
            slots_win_streak: self.slots_win_streak,
            slots_loss_streak: self.slots_loss_streak,
            cherry_matches: self.cherry_matches,
            lemon_matches: self.lemon_matches,
            bell_matches: self.bell_matches,
            seven_matches: self.seven_matches,
            diamond_matches: self.diamond_matches,
            wild_matches: self.wild_matches,
            scatter_matches: self.scatter_matches,
            session_history: self.session_history@.map_values(|x: SessionSummary| x@),
        }
    }
}

impl Default for SessionSummary {
    fn default() -> (s: Self)
        ensures
            s.date@ == Seq::<char>::empty(),
            s.duration_seconds == 0,
            s.starting_chips == 0,
            s.ending_chips == 0,
            s.net_change == 0,
            s.blackjack_wins == 0,
            s.blackjack_losses == 0,
            s.slots_spins == 0,
            s.biggest_win == 0,
            s.biggest_loss == 0,
    {
        SessionSummary {
            date: String::new(),
            duration_seconds: 0,
            starting_chips: 0,
            ending_chips: 0,
            net_change: 0,
            blackjack_wins: 0,
            blackjack_losses: 0,
            slots_spins: 0,
            biggest_win: 0,
            biggest_loss: 0,
        }
    }
}

impl PlayerStats {
    /// Every counter at zero and no session recorded.
    pub open spec fn is_fresh(&self) -> bool {
        &&& self.games_played == 0
        &&& self.total_won == 0
        &&& self.total_bet == 0
        &&& self.biggest_win == 0
        &&& self.highest_bet == 0
        &&& self.blackjack_wins == 0
        &&& self.blackjack_losses == 0
        &&& self.blackjack_pushes == 0
        &&& self.blackjack_count == 0
        &&& self.bust_count == 0
        &&& self.dealer_bust_count == 0
        &&& self.blackjack_streak == 0
        &&& self.blackjack_best_streak == 0
        &&& self.average_bet == 0
        &&& self.blackjack_win_streak == 0
        &&& self.blackjack_loss_streak == 0
        &&& self.blackjack_push_streak == 0
        &&& self.perfect_blackjacks == 0
        &&& self.double_down_wins == 0
        &&& self.double_down_losses == 0
        &&& self.split_wins == 0
        &&& self.split_losses == 0
        &&& self.surrender_count == 0
        &&& self.insurance_wins == 0
        &&& self.insurance_losses == 0
        &&& self.slots_spins == 0
        &&& self.slots_biggest_win == 0
        &&& self.jackpot_count_mini == 0
        &&& self.jackpot_count_mega == 0
        &&& self.jackpot_count_ultra == 0
        &&& self.slots_win_streak == 0
        &&& self.slots_loss_streak == 0
        &&& self.cherry_matches == 0
        &&& self.lemon_matches == 0
        &&& self.bell_matches == 0
        &&& self.seven_matches == 0
        &&& self.diamond_matches == 0
        &&& self.wild_matches == 0
        &&& self.scatter_matches == 0
        &&& self.session_history@.len() == 0
    }
}

impl Default for PlayerStats {
    fn default() -> (s: Self)
        ensures
            s.is_fresh(),
    {
        PlayerStats {
            games_played: 0,
            total_won: 0,
            total_bet: 0,
            biggest_win: 0,
            highest_bet: 0,
            blackjack_wins: 0,
            blackjack_losses: 0,
            blackjack_pushes: 0,
            blackjack_count: 0,
            bust_count: 0,
            dealer_bust_count: 0,
            blackjack_streak: 0,
            blackjack_best_streak: 0,
            average_bet: 0,
            blackjack_win_streak: 0,
            blackjack_loss_streak: 0,
            blackjack_push_streak: 0,
            perfect_blackjacks: 0,
            double_down_wins: 0,
            double_down_losses: 0,
            split_wins: 0,
            split_losses: 0,
            surrender_count: 0,
            insurance_wins: 0,
            insurance_losses: 0,
            slots_spins: 0,
            slots_biggest_win: 0,
            jackpot_count_mini: 0,
            jackpot_count_mega: 0,
            jackpot_count_ultra: 0,
            slots_win_streak: 0,
            slots_loss_streak: 0,
            cherry_matches: 0,
            lemon_matches: 0,
            bell_matches: 0,
            seven_matches: 0,
            diamond_matches: 0,
            wild_matches: 0,
            scatter_matches: 0,
            session_history: Vec::new(),
        }
    }
}

/// The session that ends with `ending_chips`, having started with
/// `starting_chips`: its net change, and the loss when it is negative.
pub open spec fn session_summary(
    date: Seq<char>,
    duration_seconds: u64,
    starting_chips: i64,
    ending_chips: i64,
    st: StatsView,
) -> SessionView {
    let net = ending_chips - starting_chips;
    SessionView {
        date,
        duration_seconds,
        starting_chips,
        ending_chips,
        net_change: net as i64,
        blackjack_wins: st.blackjack_wins,
        blackjack_losses: st.blackjack_losses,
        slots_spins: st.slots_spins,
        biggest_win: st.biggest_win,
        biggest_loss: if net < 0 { (-net) as i64 } else { 0 },
    }
}

/// The history with one more session; when that makes more than ten, the
/// oldest one is dropped (one only, so a history of up to ten stays within
/// ten).
pub open spec fn history_with(h: Seq<SessionView>, s: SessionView) -> Seq<SessionView> {
    let h2 = h.push(s);
    if h2.len() > 10 {
        h2.drop_first()
    } else {
        h2
    }
}

impl SessionSummary {
    /// The session that ends now, from the statistics it ends with.
    pub fn closing(
        date: String,
        duration_seconds: u64,
        starting_chips: i64,
        ending_chips: i64,
        stats: &PlayerStats,
    ) -> (s: SessionSummary)
        requires
            i64::MIN < ending_chips - starting_chips <= i64::MAX,
        ensures
            s@ == session_summary(date@, duration_seconds, starting_chips, ending_chips, stats@),
    {
        let net = ending_chips - starting_chips;
        SessionSummary {
            date,
            duration_seconds,
            starting_chips,
            ending_chips,
            net_change: net,
            blackjack_wins: stats.blackjack_wins,
            blackjack_losses: stats.blackjack_losses,
            slots_spins: stats.slots_spins,
            biggest_win: stats.biggest_win,
            biggest_loss: if net < 0 { -net } else { 0 },
        }
    }
}

impl PlayerStats {
    /// Adds a session to the history; when that makes more than ten, the
    /// oldest one is dropped.
    pub fn record_session(&mut self, s: SessionSummary)
        ensures
            final(self)@ == (StatsView {
                session_history: history_with(old(self)@.session_history, s@),
                ..old(self)@
            }),
    {
        let ghost before = self.session_history@;
        let ghost sv = s@;
        self.session_history.push(s);
        assert(self.session_history@.map_values(|x: SessionSummary| x@) =~= before.map_values(
            |x: SessionSummary| x@,
        ).push(sv));
        if self.session_history.len() > 10 {
            let ghost full = self.session_history@;
            self.session_history.remove(0);
            assert(self.session_history@ =~= full.drop_first());
            assert(self.session_history@.map_values(|x: SessionSummary| x@) =~= full.map_values(
                |x: SessionSummary| x@,
            ).drop_first());
        }
    }
}

} // verus!

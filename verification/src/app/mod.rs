use vstd::prelude::*;
use vstd::string::*;
use vstd::view::View as ViewOf;

use crate::config::{BJ_FLASH_FRAMES, DAILY_BONUS, SLOTS_REEL_STAGGER, SLOTS_SPIN_FRAMES};
use crate::games::blackjack::{
    bet_ceiling, clamped, current_index, dealt, hand_ok, lemma_valid_raw_bound, payout, settled_outcome, ticked, HandView, double_allowed, doubled_down, hand_total,
    hand_value, hit_done, player_may_act, settles_within, split_allowed, split_done, stood, table_ok, AnimState,
    BlackjackEngine, Outcome, PlayState, TableView,
};
use crate::games::slots::{
    approach, counted_down, grid_count, lemma_float_half_bounds, grid_view, lemma_machine_pool, lemma_rolled_settleable,
    lemma_spin_result_bounds, locked, machine_pool, machine_after, settleable,
    spin_ticked, tally, machine_name, machine_set, spin_begun, spin_length, reel_frames_after,
    all_reels_stopped, spin_multiplier, spin_payout, SlotSymbol, SlotsGame, SlotsView, slots_ok,
};
use crate::models::stats::{history_with, session_summary, SessionSummary, SessionView, StatsView};
use crate::models::mode::Mode;
use crate::network::client::OnlineClient;
use crate::models::player::PlayerView;
use crate::storage::local::{SaveData, SaveView};
use crate::ui::components::modal::{Modal, ModalView};
use crate::utils::numtext::{decimal, decimal_string, signed_decimal, signed_decimal_string};
use crate::utils::text::{
    control_char, first_chars, is_control, pop_char, push_char, take_chars, trim_str, trimmed,
};

verus! {

#[derive(Debug, Clone, Copy, PartialEq, Eq, Structural)]
pub enum View {
    Dashboard,
    Blackjack,
    Slots,
    Online,
}

/// A key press as the casino reads it.
#[derive(Debug, Clone, Copy, PartialEq, Eq, Structural)]
pub enum Key {
    Char(char),
    Up,
    Down,
    Left,
    Right,
    Enter,
    Esc,
    Backspace,
    Other,
}

/// A line for the feed. Lines that show an amount of chips are worded by the
/// screen, which formats the amount.
#[derive(Debug, Clone)]
pub enum Note {
    Text(String),
    /// A blackjack bet was placed.
    BetPlaced(i64),
    /// A slot spin was paid for.
    SpinStarted(i64),
    /// The daily bonus was claimed.
    DailyBonus(i64),
    /// A hand won with a blackjack.
    BlackjackWon(i64),
    /// A hand won.
    HandWon(i64),
    /// A hand lost this many chips.
    HandLost(i64),
}

pub enum NoteView {
    Text(Seq<char>),
    BetPlaced(i64),
    SpinStarted(i64),
    DailyBonus(i64),
    BlackjackWon(i64),
    HandWon(i64),
    HandLost(i64),
}

impl ViewOf for Note {
    type V = NoteView;

    open spec fn view(&self) -> NoteView {
        match self {
            Note::Text(s) => NoteView::Text(s@),
            Note::BetPlaced(x) => NoteView::BetPlaced(*x),
            Note::SpinStarted(x) => NoteView::SpinStarted(*x),
            Note::DailyBonus(x) => NoteView::DailyBonus(*x),
            Note::BlackjackWon(x) => NoteView::BlackjackWon(*x),
            Note::HandWon(x) => NoteView::HandWon(*x),
            Note::HandLost(x) => NoteView::HandLost(*x),
        }
    }
}

pub open spec fn feed_view(feed: Seq<Note>) -> Seq<NoteView> {
    feed.map_values(|n: Note| n@)
}

/// The casino as it runs: the screen shown, the feed, the save and both
/// games. Terminal, clock and save file stay outside.
pub struct App {
    pub running: bool,
    pub mode: Mode,
    pub view: View,
    pub dashboard_cursor: usize,
    pub editing_name: bool,
    pub name_input: String,
    pub notes: Vec<Note>,
    pub data: SaveData,
    pub bj: BlackjackEngine,
    pub slots: SlotsGame,
    pub help_modal: Modal,
    pub result_modal: Modal,
    pub save_pending: bool,
    pub save_ct: u8,
    pub online: OnlineClient,
    pub session_start_chips: i64,
}

pub struct AppView {
    pub running: bool,
    pub mode: Mode,
    pub view: View,
    pub dashboard_cursor: usize,
    pub editing_name: bool,
    pub name_input: Seq<char>,
    pub notes: Seq<NoteView>,
    pub data: SaveView,
    pub bj: TableView,
    pub slots: SlotsView,
    pub help_modal: ModalView,
    pub result_modal: ModalView,
    pub save_pending: bool,
    pub save_ct: u8,
    pub online: bool,
    pub session_start_chips: i64,
}

impl ViewOf for App {
    type V = AppView;

    open spec fn view(&self) -> AppView {
        AppView {
            running: self.running,
            mode: self.mode,
            view: self.view,
            dashboard_cursor: self.dashboard_cursor,
            editing_name: self.editing_name,
            name_input: self.name_input@,
            notes: feed_view(self.notes@),
            data: self.data@,
            bj: self.bj@,
            slots: self.slots.state@,
            help_modal: self.help_modal@,
            result_modal: self.result_modal@,
            save_pending: self.save_pending,
            save_ct: self.save_ct,
            online: self.online.connected_spec(),
            session_start_chips: self.session_start_chips,
        }
    }
}

/// The feed keeps the last six lines.
pub open spec fn noted(notes: Seq<NoteView>, line: NoteView) -> Seq<NoteView> {
    let s = notes.push(line);
    if s.len() > 6 {
        s.drop_first()
    } else {
        s
    }
}

/// The casino with one more line in its feed.
pub open spec fn with_note(a: AppView, n: NoteView) -> AppView {
    AppView { notes: noted(a.notes, n), ..a }
}

/// The casino with a save requested: it is written after eight frames.
pub open spec fn with_save(a: AppView) -> AppView {
    AppView { save_pending: true, save_ct: 8, ..a }
}

pub const DASHBOARD_HELP_TITLE: &'static str = "Developer Note";

pub const DASHBOARD_HELP: &'static str = "WELCOME TO THE OFFLINE FLOOR\n\nThis build is tuned to feel punchy, dramatic, and local-first.\nNo network drama. No account friction. Just chips, stats, jackpots, and fast rounds.\n\nCurrent focus:\n- Blackjack should feel premium and readable\n- Slots should feel heavier, slower, and rarer on wins\n- Dashboard should feel like your private casino profile\n\nHotkeys:\n- [E] edit your offline name\n- [D] claim daily chips\n- [↑/↓] move between floors\n- [Enter] jump in\n\nDeveloper vibe:\nPlay loud. Chase streaks. Break your own best stats.";

pub const BLACKJACK_HELP_TITLE: &'static str = "Blackjack Rules";

pub const BLACKJACK_HELP: &'static str = "OBJECTIVE\nBeat the house without going over 21.\n\nFLOW\n- You start with 2 cards\n- Dealer shows 1 card and hides 1 card\n- Face cards = 10\n- Aces = 1 or 11\n\nACTIONS\n- [H] Hit: take 1 card\n- [S] Stand: hold your total\n- [D] Double: double bet, take exactly 1 card, then stand\n- [P] Split: if both opening cards match, split into 2 hands\n\nHOUSE\nDealer reveals and draws until at least 17.\nSoft 17 is hit. Hard 17 stands.\n\nPAYOUTS\n- Win: +1x bet\n- Blackjack: +1.5x bet\n- Push: 0\n- Loss: -1x bet";

pub const SLOTS_HELP_TITLE: &'static str = "Slots Rules";

pub const SLOTS_HELP: &'static str = "OBJECTIVE\nSpin matching symbols for payouts. Wins are intentionally rarer now.\n\nFLOW\n- Set bet with arrows\n- [Space] spins once\n- [A] toggles auto x10\n- [M] changes machine\n\nMACHINES\n- Classic / Retro / Neon use 3 reels\n- Cyber / Hacker use 5 reels\n\nPAYOUT LOGIC\n- Full matches pay best\n- Near-full matches mostly matter on 5-reel machines\n- Wilds help complete lines\n- Scatter now needs 3+ symbols for bonus\n\nJACKPOTS\nEach bet feeds mini, mega, and ultra pots.";

pub const ONLINE_HELP_TITLE: &'static str = "Online Lounge";

pub const ONLINE_HELP: &'static str = "Online mode is still a placeholder.\n\nPlanned later:\n- accounts\n- authoritative balance checks\n- leaderboards\n- multiplayer rooms\n\nFor now, the real experience is the offline floor.";

/// The name after an edit is committed: the typed text, trimmed and cut to
/// eighteen characters; an empty one leaves the name as it was.
pub open spec fn name_committed(a: AppView) -> AppView {
    let t = trimmed(a.name_input);
    if t.len() == 0 {
        with_note(
            AppView { name_input: a.data.player.name, editing_name: false, ..a },
            NoteView::Text("Name unchanged"@),
        )
    } else {
        let name = first_chars(t, 18);
        with_note(
            with_save(
                AppView {
                    data: SaveView { player: PlayerView { name, ..a.data.player }, ..a.data },
                    name_input: name,
                    editing_name: false,
                    ..a
                },
            ),
            NoteView::Text("Name: "@ + name),
        )
    }
}

/// The name edit given up: the typed text is dropped.
pub open spec fn name_cancelled(a: AppView) -> AppView {
    with_note(
        AppView { editing_name: false, name_input: a.data.player.name, ..a },
        NoteView::Text("Name edit cancelled"@),
    )
}

/// A key while the name is edited: Esc gives up, Enter commits, Backspace
/// drops the last character, and a printable character is typed while the
/// text is shorter than eighteen.
pub open spec fn name_keyed(a: AppView, k: Key) -> AppView {
    match k {
        Key::Esc => name_cancelled(a),
        Key::Enter => name_committed(a),
        Key::Backspace => AppView {
            name_input: if a.name_input.len() > 0 {
                a.name_input.drop_last()
            } else {
                a.name_input
            },
            ..a
        },
        Key::Char(c) => if a.name_input.len() < 18 && !control_char(c) {
            AppView { name_input: a.name_input.push(c), ..a }
        } else {
            a
        },
        _ => a,
    }
}

/// The title of the help page for a screen.
pub open spec fn help_title(v: View) -> Seq<char> {
    match v {
        View::Dashboard => DASHBOARD_HELP_TITLE@,
        View::Blackjack => BLACKJACK_HELP_TITLE@,
        View::Slots => SLOTS_HELP_TITLE@,
        View::Online => ONLINE_HELP_TITLE@,
    }
}

/// The text of the help page for a screen.
pub open spec fn help_body(v: View) -> Seq<char> {
    match v {
        View::Dashboard => DASHBOARD_HELP@,
        View::Blackjack => BLACKJACK_HELP@,
        View::Slots => SLOTS_HELP@,
        View::Online => ONLINE_HELP@,
    }
}

/// The casino with the help page of its screen open.
pub open spec fn rules_shown(a: AppView) -> AppView {
    AppView {
        help_modal: ModalView { title: help_title(a.view), body: help_body(a.view), visible: true },
        ..a
    }
}

/// `x` held within `i64`, as a saturating operation leaves it.
pub open spec fn saturated(x: int) -> i64 {
    if x > i64::MAX {
        i64::MAX
    } else if x < i64::MIN {
        i64::MIN
    } else {
        x as i64
    }
}

/// The casino with other statistics.
pub open spec fn with_stats(a: AppView, st: StatsView) -> AppView {
    AppView { data: SaveView { stats: st, ..a.data }, ..a }
}

/// The casino with the player holding `chips`.
pub open spec fn with_chips(a: AppView, chips: i64) -> AppView {
    AppView { data: SaveView { player: PlayerView { chips, ..a.data.player }, ..a.data }, ..a }
}

/// A stake booked: it adds to the total bet, and `top` becomes the highest
/// bet if it is higher.
pub open spec fn stake_booked(a: AppView, stake: i64, top: i64) -> AppView {
    let st = a.data.stats;
    with_stats(
        a,
        StatsView {
            total_bet: (st.total_bet + stake) as i64,
            highest_bet: if top > st.highest_bet { top } else { st.highest_bet },
            ..st
        },
    )
}

/// The name a screen is announced by in the feed.
pub open spec fn view_label(v: View) -> Seq<char> {
    match v {
        View::Dashboard => "Dashboard"@,
        View::Blackjack => "Blackjack"@,
        View::Slots => "Slots"@,
        View::Online => "Online"@,
    }
}

/// Back to the dashboard from a game.
pub open spec fn left_game(a: AppView) -> AppView {
    with_note(AppView { view: View::Dashboard, ..a }, NoteView::Text("Dashboard"@))
}

/// The bet step of an arrow key: a thousand sideways, ten thousand up or
/// down.
pub open spec fn bet_step(k: Key) -> int {
    match k {
        Key::Left => -1_000,
        Key::Right => 1_000,
        Key::Up => 10_000,
        Key::Down => -10_000,
        _ => 0,
    }
}

pub open spec fn arrow(k: Key) -> bool {
    k == Key::Left || k == Key::Right || k == Key::Up || k == Key::Down
}

/// One of two letters, either case.
pub open spec fn letter(k: Key, lower: char, upper: char) -> bool {
    k == Key::Char(lower) || k == Key::Char(upper)
}

/// The daily bonus asked for on the dashboard. It is granted when none was
/// claimed yet, and otherwise as the clock decides; a grant adds the bonus
/// to the chips, records the claim and asks for a save.
pub open spec fn daily_asked(a: AppView, n: AppView) -> bool {
    let p = a.data.player;
    ||| {
        &&& n.data.player.last_daily_claim is Some
        &&& n == with_note(
            with_save(
                AppView {
                    data: SaveView {
                        player: PlayerView {
                            chips: (p.chips + DAILY_BONUS) as i64,
                            last_daily_claim: n.data.player.last_daily_claim,
                            ..p
                        },
                        ..a.data
                    },
                    ..a
                },
            ),
            NoteView::DailyBonus(DAILY_BONUS),
        )
    }
    ||| {
        &&& p.last_daily_claim is Some
        &&& n == with_note(a, NoteView::Text("Daily done"@))
    }
}

/// A key on the dashboard.
pub open spec fn dashboard_keyed(a: AppView, n: AppView, k: Key) -> bool {
    let target = dashboard_view_at(a.dashboard_cursor as int);
    if k == Key::Up {
        n == AppView { dashboard_cursor: ((a.dashboard_cursor - 1) % 3) as usize, ..a }
    } else if k == Key::Down {
        n == AppView { dashboard_cursor: ((a.dashboard_cursor + 1) % 3) as usize, ..a }
    } else if k == Key::Enter || k == Key::Char(' ') {
        n == with_note(AppView { view: target, ..a }, NoteView::Text(view_label(target)))
    } else if letter(k, 'e', 'E') {
        n == with_note(
            AppView { editing_name: true, name_input: a.data.player.name, ..a },
            NoteView::Text("Editing offline name"@),
        )
    } else if letter(k, 'd', 'D') {
        daily_asked(a, n)
    } else {
        n == a
    }
}

/// Enter at the table: a new round when none runs and the bet is covered,
/// booked and announced; a refusal when the bet is not covered.
pub open spec fn deal_tried(a: AppView, n: AppView) -> bool {
    let t = a.bj;
    let chips = a.data.player.chips;
    let open = t.state is Idle || t.state is RoundOver;
    if open && t.bet <= chips {
        &&& dealt(t, n.bj, chips)
        &&& n == with_note(
            stake_booked(AppView { bj: n.bj, ..a }, t.bet, t.bet),
            NoteView::BetPlaced(t.bet),
        )
    } else if open {
        n == AppView { bj: TableView { message: "Not enough chips!"@, ..t }, ..a }
    } else {
        n == a
    }
}

/// A double asked for: where the table allows it, the extra stake is
/// booked. The chips move only when the doubled hand is settled, on its
/// doubled bet, so a doubled loss costs twice the bet.
pub open spec fn double_tried(a: AppView, n: AppView) -> bool {
    let t = a.bj;
    let chips = a.data.player.chips;
    let extra = t.hands[current_index(t)].bet;
    if double_allowed(t, chips) {
        &&& doubled_down(t, n.bj)
        &&& n == if extra > 0 {
            stake_booked(AppView { bj: n.bj, ..a }, extra, (t.bet + extra) as i64)
        } else {
            AppView { bj: n.bj, ..a }
        }
    } else {
        n == a
    }
}

/// A split asked for: where the table allows it, the second hand's stake is
/// booked. The chips move only when each hand is settled, on its own bet.
pub open spec fn split_tried(a: AppView, n: AppView) -> bool {
    let t = a.bj;
    let chips = a.data.player.chips;
    let extra = t.hands[t.active as int].bet;
    if split_allowed(t, chips) {
        &&& split_done(t, n.bj)
        &&& n == if extra > 0 {
            stake_booked(AppView { bj: n.bj, ..a }, extra, extra)
        } else {
            AppView { bj: n.bj, ..a }
        }
    } else {
        n == a
    }
}

/// A key at the blackjack table. The table's own moves draw from its deck;
/// the casino books each stake, and the chips wait for the round to be
/// settled.
pub open spec fn blackjack_keyed(a: AppView, n: AppView, k: Key) -> bool {
    let t = a.bj;
    let chips = a.data.player.chips;
    if arrow(k) {
        n == AppView {
            bj: TableView { bet: clamped(t.bet + bet_step(k), 1_000, bet_ceiling(chips)) as i64, ..t },
            ..a
        }
    } else if k == Key::Enter || k == Key::Char(' ') {
        deal_tried(a, n)
    } else if letter(k, 'h', 'H') {
        &&& n == AppView { bj: n.bj, ..a }
        &&& if player_may_act(t) {
            hit_done(t, n.bj)
        } else {
            n.bj == t
        }
    } else if letter(k, 's', 'S') {
        n == AppView {
            bj: if player_may_act(t) {
                stood(t)
            } else {
                t
            },
            ..a
        }
    } else if letter(k, 'd', 'D') {
        double_tried(a, n)
    } else if letter(k, 'p', 'P') {
        split_tried(a, n)
    } else if k == Key::Esc {
        n == left_game(a)
    } else {
        n == a
    }
}

/// A spin paid for: the bet leaves the chips and is booked.
pub open spec fn spin_paid(a: AppView, slots: SlotsView) -> AppView {
    let bet = a.slots.bet;
    stake_booked(
        with_chips(AppView { slots, ..a }, saturated(a.data.player.chips - bet)),
        bet,
        bet,
    )
}

/// Space at the machine: it stops the auto-spins, or pays for and starts a
/// spin when the bet is covered.
pub open spec fn space_at_slots(a: AppView, n: AppView) -> bool {
    let s = a.slots;
    if s.auto_spin_remaining > 0 {
        n == with_note(
            AppView { slots: SlotsView { auto_spin_remaining: 0, ..s }, ..a },
            NoteView::Text("Auto stop"@),
        )
    } else if !s.spinning && s.bet <= a.data.player.chips {
        n == with_note(spin_paid(a, spin_begun(s)), NoteView::SpinStarted(s.bet))
    } else if !s.spinning {
        n == AppView { slots: SlotsView { message: "Insufficient chips for bet"@, ..s }, ..a }
    } else {
        n == a
    }
}

/// The auto key: it stops the auto-spins, or books ten of them and starts
/// the first at once when the machine is idle and the bet covered.
pub open spec fn auto_at_slots(a: AppView, n: AppView) -> bool {
    let s = a.slots;
    let s1 = SlotsView { auto_spin_remaining: 10, auto_spin_total: 10, ..s };
    let a1 = with_note(AppView { slots: s1, ..a }, NoteView::Text("Auto: 10"@));
    if s.auto_spin_remaining > 0 {
        n == with_note(
            AppView { slots: SlotsView { auto_spin_remaining: 0, auto_spin_total: 0, ..s }, ..a },
            NoteView::Text("Auto stop"@),
        )
    } else if !s.spinning && s.bet <= a.data.player.chips {
        n == spin_paid(a1, SlotsView { auto_spin_remaining: 9, ..spin_begun(s1) })
    } else if !s.spinning {
        n == AppView { slots: SlotsView { message: "Insufficient chips for bet"@, ..s1 }, ..a1 }
    } else {
        n == a1
    }
}

/// The machine key: the next machine in the lobby, unless a spin or
/// auto-spins run.
pub open spec fn machine_swapped(a: AppView) -> AppView {
    let s = a.slots;
    let m = machine_after(s.machine);
    if locked(s) {
        with_note(a, NoteView::Text("Stop spin/auto before machine swap"@))
    } else {
        with_note(
            AppView { slots: machine_set(s, m), ..a },
            NoteView::Text("Machine: "@ + machine_name(m)@),
        )
    }
}

/// A key at the slot machine.
pub open spec fn slots_keyed(a: AppView, n: AppView, k: Key) -> bool {
    let s = a.slots;
    let chips = a.data.player.chips;
    if arrow(k) {
        n == AppView {
            slots: if locked(s) {
                s
            } else {
                SlotsView {
                    bet: clamped(s.bet + bet_step(k), 1_000, clamped(chips as int, 1_000, 10_000_000)) as i64,
                    ..s
                }
            },
            ..a
        }
    } else if k == Key::Char(' ') {
        space_at_slots(a, n)
    } else if letter(k, 'a', 'A') {
        auto_at_slots(a, n)
    } else if letter(k, 'm', 'M') {
        n == machine_swapped(a)
    } else if k == Key::Esc {
        n == left_game(a)
    } else {
        n == a
    }
}

/// A key on the current screen.
pub open spec fn view_keyed(a: AppView, n: AppView, k: Key) -> bool {
    match a.view {
        View::Dashboard => dashboard_keyed(a, n, k),
        View::Blackjack => blackjack_keyed(a, n, k),
        View::Slots => slots_keyed(a, n, k),
        View::Online => n == a,
    }
}

/// A key press. The name editor takes every key while it is open, an open
/// help page only the keys that close it; otherwise the global keys come
/// first and the rest go to the screen.
pub open spec fn keyed(a: AppView, n: AppView, k: Key) -> bool {
    if a.editing_name {
        n == name_keyed(a, k)
    } else if a.help_modal.visible {
        n == if k == Key::Esc || k == Key::Enter || letter(k, 'r', 'R') || k == Key::Char(' ') {
            AppView { help_modal: ModalView { visible: false, ..a.help_modal }, ..a }
        } else {
            a
        }
    } else if k == Key::Char('q') {
        n == AppView { running: false, ..a }
    } else if k == Key::Char('1') {
        n == AppView { view: View::Dashboard, ..a }
    } else if k == Key::Char('2') {
        n == AppView { dashboard_cursor: 0, view: View::Blackjack, ..a }
    } else if k == Key::Char('3') {
        n == AppView { dashboard_cursor: 1, view: View::Slots, ..a }
    } else if k == Key::Char('4') {
        n == AppView { dashboard_cursor: 2, view: View::Online, ..a }
    } else if letter(k, 'o', 'O') {
        n == with_note(AppView { mode: Mode::Offline, ..a }, NoteView::Text("Offline"@))
    } else if letter(k, 'n', 'N') {
        n == with_note(AppView { mode: Mode::Online, ..a }, NoteView::Text("Online"@))
    } else if letter(k, 'r', 'R') {
        n == rules_shown(a)
    } else {
        view_keyed(a, n, k)
    }
}

/// The counters a blackjack settlement bumps, each at most `b`.
pub open spec fn bj_counts_within(st: StatsView, b: int) -> bool {
    &&& st.games_played <= b
    &&& st.blackjack_wins <= b
    &&& st.blackjack_losses <= b
    &&& st.blackjack_pushes <= b
    &&& st.blackjack_count <= b
    &&& st.bust_count <= b
    &&& st.blackjack_win_streak + 0x7FFF_FFFF_FFE0_0010 <= b
    &&& st.blackjack_loss_streak <= b
    &&& st.blackjack_push_streak <= b
}

/// Some hand went over 21.
pub open spec fn some_hand_bust(hands: Seq<HandView>) -> bool {
    exists|i: int| 0 <= i < hands.len() && hand_total(#[trigger] hands[i].cards) > 21
}

/// A hand won: the win and the winning streak count, the best streak follows.
pub open spec fn win_counted(st: StatsView) -> StatsView {
    let w = st.blackjack_win_streak + 1;
    StatsView {
        blackjack_wins: (st.blackjack_wins + 1) as u64,
        blackjack_win_streak: w as u64,
        blackjack_loss_streak: 0,
        blackjack_push_streak: 0,
        blackjack_best_streak: if w > st.blackjack_best_streak {
            w as i64
        } else {
            st.blackjack_best_streak
        },
        ..st
    }
}

/// Winnings booked: the total won grows, the biggest win follows.
pub open spec fn winnings_booked(st: StatsView, delta: i64) -> StatsView {
    StatsView {
        total_won: saturated(st.total_won + delta),
        biggest_win: if delta > st.biggest_win { delta } else { st.biggest_win },
        ..st
    }
}

/// `x` without its sign.
pub open spec fn unsigned(x: i64) -> i64 {
    if x < 0 {
        (-x) as i64
    } else {
        x
    }
}

/// One settled hand booked: its outcome counted, its chips paid or taken,
/// a line for the feed and a save requested.
#[verifier::opaque]
pub open spec fn hand_booked(a: AppView, o: Outcome, delta: i64) -> AppView {
    let st = a.data.stats;
    let chips = a.data.player.chips;
    let st2 = match o {
        Outcome::Blackjack => winnings_booked(
            StatsView { blackjack_count: (st.blackjack_count + 1) as u64, ..win_counted(st) },
            delta,
        ),
        Outcome::Win => winnings_booked(win_counted(st), delta),
        Outcome::Lose => StatsView {
            blackjack_losses: (st.blackjack_losses + 1) as u64,
            blackjack_loss_streak: (st.blackjack_loss_streak + 1) as u64,
            blackjack_win_streak: 0,
            blackjack_push_streak: 0,
            bust_count: if some_hand_bust(a.bj.hands) {
                (st.bust_count + 1) as u64
            } else {
                st.bust_count
            },
            ..st
        },
        Outcome::Push => StatsView {
            blackjack_pushes: (st.blackjack_pushes + 1) as u64,
            blackjack_push_streak: (st.blackjack_push_streak + 1) as u64,
            blackjack_win_streak: 0,
            blackjack_loss_streak: 0,
            ..st
        },
    };
    let chips2 = match o {
        Outcome::Push => chips,
        _ => saturated(chips + delta),
    };
    let note = match o {
        Outcome::Blackjack => NoteView::BlackjackWon(delta),
        Outcome::Win => NoteView::HandWon(delta),
        Outcome::Lose => NoteView::HandLost(unsigned(delta)),
        Outcome::Push => NoteView::Text("Push"@),
    };
    with_note(
        with_save(
            with_chips(
                with_stats(a, StatsView { games_played: (st2.games_played + 1) as u64, ..st2 }),
                chips2,
            ),
        ),
        note,
    )
}

/// The settled hands booked in order.
pub open spec fn hands_booked(a: AppView, results: Seq<(Outcome, i64)>) -> AppView
    decreases results.len(),
{
    if results.len() == 0 {
        a
    } else {
        hand_booked(hands_booked(a, results.drop_last()), results.last().0, results.last().1)
    }
}

/// What each hand of the table settles at.
pub open spec fn settlement(t: TableView) -> Seq<(Outcome, i64)> {
    Seq::new(t.hands.len(), |i: int| (settled_outcome(t.hands[i]), payout(t.hands[i]) as i64))
}

/// A house bust counted.
pub open spec fn house_bust_counted(a: AppView) -> AppView {
    if hand_total(a.bj.dealer) > 21 {
        with_stats(
            a,
            StatsView {
                dealer_bust_count: (a.data.stats.dealer_bust_count + 1) as u64,
                ..a.data.stats
            },
        )
    } else {
        a
    }
}

/// The table marked settled, flashing the first hand's outcome.
pub open spec fn round_marked(a: AppView, r: Seq<(Outcome, i64)>) -> AppView {
    AppView {
        bj: TableView {
            settled: true,
            anim: Some(
                AnimState {
                    flash: BJ_FLASH_FRAMES,
                    kind: if r.len() > 0 {
                        r[0].0
                    } else {
                        Outcome::Push
                    },
                },
            ),
            ..a.bj
        },
        ..a
    }
}

/// A finished round booked: a house bust counted, every hand booked, the
/// table marked settled and the first hand's outcome flashed.
#[verifier::opaque]
pub open spec fn round_booked(a: AppView) -> AppView {
    let r = settlement(a.bj);
    round_marked(hands_booked(house_bust_counted(a), r), r)
}

/// The feed line of a settled spin.
pub open spec fn spin_line(mult: int, net: int, scatter: bool, payout: int) -> Seq<char> {
    if mult >= 100 {
        "██ ULTRA x"@ + decimal(mult as nat) + "! +"@ + signed_decimal(net)
    } else if mult >= 50 {
        "▓▓ MEGA x"@ + decimal(mult as nat) + "! +"@ + signed_decimal(net)
    } else if mult >= 20 {
        "▒▒ JACKPOT x"@ + decimal(mult as nat) + "! +"@ + signed_decimal(net)
    } else if net > 0 {
        "Win +"@ + signed_decimal(net)
    } else if scatter {
        "Scatter +"@ + signed_decimal(payout)
    } else {
        "Spin: "@ + signed_decimal(net)
    }
}

/// The symbols of a settled grid counted, one counter per tracked symbol.
pub open spec fn symbols_counted(st: StatsView, g: Seq<Seq<SlotSymbol>>) -> StatsView {
    StatsView {
        cherry_matches: (st.cherry_matches + grid_count(g, SlotSymbol::Cherry)) as u64,
        lemon_matches: (st.lemon_matches + grid_count(g, SlotSymbol::Lemon)) as u64,
        bell_matches: (st.bell_matches + grid_count(g, SlotSymbol::Bell)) as u64,
        seven_matches: (st.seven_matches + grid_count(g, SlotSymbol::Seven)) as u64,
        diamond_matches: (st.diamond_matches + grid_count(g, SlotSymbol::Diamond)) as u64,
        wild_matches: (st.wild_matches + grid_count(g, SlotSymbol::Wild)) as u64,
        scatter_matches: (st.scatter_matches + grid_count(g, SlotSymbol::Scatter)) as u64,
        ..st
    }
}

/// A settled spin counted: the spin, its win or loss streak, the total
/// won and the biggest win, and a jackpot tier from a multiplier of 20
/// (mini), 50 (mega) or 100 (ultra; mega and ultra count a mini too).
pub open spec fn spin_counted(st: StatsView, payout: i64, mult: i64) -> StatsView {
    let won = payout > 0;
    StatsView {
        games_played: (st.games_played + 1) as u64,
        slots_spins: (st.slots_spins + 1) as u64,
        total_won: if won { saturated(st.total_won + payout) } else { st.total_won },
        slots_biggest_win: if won && payout > st.slots_biggest_win {
            payout
        } else {
            st.slots_biggest_win
        },
        slots_win_streak: if won { (st.slots_win_streak + 1) as u64 } else { 0 },
        slots_loss_streak: if won { 0 } else { (st.slots_loss_streak + 1) as u64 },
        jackpot_count_ultra: if mult >= 100 {
            (st.jackpot_count_ultra + 1) as u64
        } else {
            st.jackpot_count_ultra
        },
        jackpot_count_mega: if 50 <= mult < 100 {
            (st.jackpot_count_mega + 1) as u64
        } else {
            st.jackpot_count_mega
        },
        jackpot_count_mini: if mult >= 20 {
            (st.jackpot_count_mini + 1) as u64
        } else {
            st.jackpot_count_mini
        },
        ..st
    }
}

/// A settled spin booked: the payout joins the chips, the spin and the
/// symbols on the reels are counted, a line for the feed and a save
/// requested.
#[verifier::opaque]
pub open spec fn spin_booked(a: AppView, payout: i64, mult: i64, scatter: bool) -> AppView {
    let st = symbols_counted(spin_counted(a.data.stats, payout, mult), a.slots.reels);
    with_note(
        with_save(with_chips(with_stats(a, st), saturated(a.data.player.chips + payout))),
        NoteView::Text(spin_line(mult as int, payout - a.slots.bet, scatter, payout as int)),
    )
}

/// An auto-spin due: the next one is paid for and started, or the
/// auto-spins stop when the bet is no longer covered.
#[verifier::opaque]
pub open spec fn auto_spun(a: AppView) -> AppView {
    let s = a.slots;
    let chips = a.data.player.chips;
    if s.auto_spin_remaining > 0 && !s.spinning {
        if s.bet <= chips {
            let a1 = with_chips(
                AppView {
                    slots: SlotsView {
                        auto_spin_remaining: (s.auto_spin_remaining - 1) as u32,
                        ..spin_begun(s)
                    },
                    ..a
                },
                saturated(chips - s.bet),
            );
            with_stats(
                a1,
                StatsView { total_bet: (a.data.stats.total_bet + s.bet) as i64, ..a.data.stats },
            )
        } else {
            AppView {
                slots: SlotsView {
                    message: "Insufficient chips for bet"@,
                    auto_spin_remaining: 0,
                    ..s
                },
                ..a
            }
        }
    } else {
        a
    }
}

/// The save countdown: a pending save waits out its frames, then is
/// written.
pub open spec fn save_counted(a: AppView) -> AppView {
    if a.save_pending {
        if a.save_ct > 0 {
            AppView { save_ct: (a.save_ct - 1) as u8, ..a }
        } else {
            AppView { save_pending: false, ..a }
        }
    } else {
        a
    }
}

/// The chip counter of the machine after one frame.
pub open spec fn animated(s: SlotsView, chips: i64) -> SlotsView {
    SlotsView {
        flash_counter: if s.flash_counter > 0 {
            (s.flash_counter - 1) as u8
        } else {
            0
        },
        display_chips: approach(s.display_chips as int, chips as int) as i64,
        ..s
    }
}

/// A frame once the table has become `t` and the machine `s` with result
/// `r`: the spin result is booked, then a finished round, then an
/// auto-spin due.
pub open spec fn framed(
    a: AppView,
    t: TableView,
    s: SlotsView,
    r: Option<(i64, i64, bool)>,
) -> AppView {
    let a1 = AppView { bj: t, slots: s, ..a };
    let a2 = match r {
        Some(x) => spin_booked(a1, x.0, x.1, x.2),
        None => a1,
    };
    let a3 = if t.state is RoundOver && !t.settled {
        round_booked(a2)
    } else {
        a2
    };
    auto_spun(a3)
}

/// One frame: the table moves as its own frame does, the machine's counter
/// and spin move as theirs do, and the casino books what came of them. The
/// save is written when its countdown has run out.
pub open spec fn frame_ok(
    a: AppView,
    n: AppView,
    save_now: bool,
    t: TableView,
    s: SlotsView,
    r: Option<(i64, i64, bool)>,
) -> bool {
    let f = framed(a, t, s, r);
    &&& ticked(a.bj, t)
    &&& spin_ticked(animated(a.slots, a.data.player.chips), s, r)
    &&& save_now == (f.save_pending && f.save_ct == 0)
    &&& n == save_counted(f)
}

/// The screens the dashboard cursor picks from, in order.
pub open spec fn dashboard_view_at(i: int) -> View {
    if i == 0 {
        View::Blackjack
    } else if i == 1 {
        View::Slots
    } else if i == 2 {
        View::Online
    } else {
        View::Blackjack
    }
}

/// The state the casino keeps between frames: both games sound, at most two
/// blackjack hands and one before a split, the cursor on one of three
/// screens, at most six lines in the feed.
pub open spec fn app_ok(a: AppView) -> bool {
    &&& table_ok(a.bj)
    &&& a.bj.hands.len() <= 2
    &&& a.bj.state is PlayerTurn ==> a.bj.hands.len() <= 1
    &&& slots_ok(a.slots)
    &&& a.dashboard_cursor < 3
    &&& a.notes.len() <= 6
}

/// What one more frame or key needs of the numbers it adds to: each
/// counter it bumps short of the top of `u64` by more than the at most a
/// million a frame adds, the blackjack win streak short of the top of `i64`
/// that it is compared as, the total bet able to take any stake (at most a
/// quarter of `i64`), the pots able to take a spin's share, and the chip
/// counter's distance to the chips within `i64`.
pub open spec fn room(a: AppView) -> bool {
    &&& a.data.stats.games_played <= 0xFFFF_FFFF_FFE0_0000
    &&& a.data.stats.blackjack_wins <= 0xFFFF_FFFF_FFE0_0000
    &&& a.data.stats.blackjack_losses <= 0xFFFF_FFFF_FFE0_0000
    &&& a.data.stats.blackjack_pushes <= 0xFFFF_FFFF_FFE0_0000
    &&& a.data.stats.blackjack_count <= 0xFFFF_FFFF_FFE0_0000
    &&& a.data.stats.bust_count <= 0xFFFF_FFFF_FFE0_0000
    &&& a.data.stats.dealer_bust_count <= 0xFFFF_FFFF_FFE0_0000
    &&& a.data.stats.blackjack_loss_streak <= 0xFFFF_FFFF_FFE0_0000
    &&& a.data.stats.blackjack_push_streak <= 0xFFFF_FFFF_FFE0_0000
    &&& a.data.stats.slots_spins <= 0xFFFF_FFFF_FFE0_0000
    &&& a.data.stats.jackpot_count_mini <= 0xFFFF_FFFF_FFE0_0000
    &&& a.data.stats.jackpot_count_mega <= 0xFFFF_FFFF_FFE0_0000
    &&& a.data.stats.jackpot_count_ultra <= 0xFFFF_FFFF_FFE0_0000
    &&& a.data.stats.slots_win_streak <= 0xFFFF_FFFF_FFE0_0000
    &&& a.data.stats.slots_loss_streak <= 0xFFFF_FFFF_FFE0_0000
    &&& a.data.stats.cherry_matches <= 0xFFFF_FFFF_FFE0_0000
    &&& a.data.stats.lemon_matches <= 0xFFFF_FFFF_FFE0_0000
    &&& a.data.stats.bell_matches <= 0xFFFF_FFFF_FFE0_0000
    &&& a.data.stats.seven_matches <= 0xFFFF_FFFF_FFE0_0000
    &&& a.data.stats.diamond_matches <= 0xFFFF_FFFF_FFE0_0000
    &&& a.data.stats.wild_matches <= 0xFFFF_FFFF_FFE0_0000
    &&& a.data.stats.scatter_matches <= 0xFFFF_FFFF_FFE0_0000
    &&& a.data.stats.blackjack_win_streak <= 0x7FFF_FFFF_FFFF_FFF0
    &&& -0x6000_0000_0000_0000 <= a.data.stats.total_bet <= 0x6000_0000_0000_0000
    &&& -0x7FFF_FFF0_0000_0000 <= a.slots.jackpots.mini <= 0x7FFF_FFF0_0000_0000
    &&& -0x7FFF_FFF0_0000_0000 <= a.slots.jackpots.mega <= 0x7FFF_FFF0_0000_0000
    &&& -0x7FFF_FFF0_0000_0000 <= a.slots.jackpots.ultra <= 0x7FFF_FFF0_0000_0000
    &&& i64::MIN < a.data.player.chips - a.slots.display_chips <= i64::MAX
}

/// A key that asks for the daily bonus.
pub open spec fn asks_daily(a: AppView, k: Key) -> bool {
    !a.editing_name && !a.help_modal.visible && a.view == View::Dashboard && letter(k, 'd', 'D')
}

/// What a key needs: room, and for the daily bonus room in the chips.
pub open spec fn key_room(a: AppView, k: Key) -> bool {
    &&& room(a)
    &&& asks_daily(a, k) ==> a.data.player.chips + DAILY_BONUS <= i64::MAX
}

/// `x + y`, held within `i64`.
pub fn saturating_plus(x: i64, y: i64) -> (r: i64)
    ensures
        r == saturated(x + y),
{
    if y > 0 && x > i64::MAX - y {
        i64::MAX
    } else if y < 0 && x < i64::MIN - y {
        i64::MIN
    } else {
        x + y
    }
}

/// The feed line of a settled spin.
fn spin_note(mult: i64, net: i64, scatter: bool, payout: i64) -> (line: String)
    requires
        mult >= 0,
    ensures
        line@ == spin_line(mult as int, net as int, scatter, payout as int),
{
    if mult >= 20 {
        let mut line = if mult >= 100 {
            String::from_str("██ ULTRA x")
        } else if mult >= 50 {
            String::from_str("▓▓ MEGA x")
        } else {
            String::from_str("▒▒ JACKPOT x")
        };
        let m = decimal_string(mult as u64);
        line.append(m.as_str());
        line.append("! +");
        let n = signed_decimal_string(net);
        line.append(n.as_str());
        line
    } else if net > 0 {
        let mut line = String::from_str("Win +");
        let n = signed_decimal_string(net);
        line.append(n.as_str());
        line
    } else if scatter {
        let mut line = String::from_str("Scatter +");
        let n = signed_decimal_string(payout);
        line.append(n.as_str());
        line
    } else {
        let mut line = String::from_str("Spin: ");
        let n = signed_decimal_string(net);
        line.append(n.as_str());
        line
    }
}

/// The save as it is written when the game closes: the session that ends
/// now joins the history, and when that makes more than ten the oldest
/// one is dropped.
pub fn with_session(data: SaveData, start_chips: i64, date: String, duration_seconds: u64) -> (d: SaveData)
    requires
        i64::MIN < data.player.chips - start_chips <= i64::MAX,
    ensures
        d@ == (SaveView {
            stats: StatsView {
                session_history: history_with(
                    data@.stats.session_history,
                    session_summary(date@, duration_seconds, start_chips, data.player.chips, data@.stats),
                ),
                ..data@.stats
            },
            ..data@
        }),
{
    let mut data = data;
    let session = SessionSummary::closing(date, duration_seconds, start_chips, data.player.chips, &data.stats);
    data.stats.record_session(session);
    data
}

impl App {
    /// A casino opened on a loaded save; the feed starts with where it was
    /// loaded from.
    pub fn new(data: SaveData, save_path: &str) -> (a: Self)
        ensures
            app_ok(a@),
            a@.running,
            a@.mode == Mode::Offline,
            a@.view == View::Dashboard,
            a@.dashboard_cursor == 0,
            !a@.editing_name,
            a@.name_input == data@.player.name,
            a@.notes == seq![NoteView::Text("Loaded: "@ + save_path@)],
            a@.data == data@,
            a@.bj.state == PlayState::Idle,
            a@.bj.hands.len() == 0,
            a@.slots == crate::games::slots::initial_slots(),
            !a@.help_modal.visible,
            !a@.result_modal.visible,
            !a@.save_pending,
            a@.save_ct == 0,
            !a@.online,
            a@.session_start_chips == data@.player.chips,
    {
        let name_input = data.player.name.clone();
        let mut first = String::from_str("Loaded: ");
        first.append(save_path);
        let chips = data.player.chips;
        let a = App {
            running: true,
            mode: Mode::Offline,
            view: View::Dashboard,
            dashboard_cursor: 0,
            editing_name: false,
            name_input,
            notes: vec![Note::Text(first)],
            data,
            bj: BlackjackEngine::new(),
            slots: SlotsGame::default(),
            help_modal: Modal::new(String::new(), String::new()),
            result_modal: Modal::new(String::new(), String::new()),
            save_pending: false,
            save_ct: 0,
            online: OnlineClient::default(),
            session_start_chips: chips,
        };
        assert(a@.notes =~= seq![NoteView::Text("Loaded: "@ + save_path@)]);
        a
    }

    /// Whether the numbers have room for another frame.
    pub fn has_room(&self) -> (b: bool)
        ensures
            b == room(self@),
    {
        let st = &self.data.stats;
        st.games_played <= 0xFFFF_FFFF_FFE0_0000 &&
        st.blackjack_wins <= 0xFFFF_FFFF_FFE0_0000 &&
        st.blackjack_losses <= 0xFFFF_FFFF_FFE0_0000 &&
        st.blackjack_pushes <= 0xFFFF_FFFF_FFE0_0000 &&
        st.blackjack_count <= 0xFFFF_FFFF_FFE0_0000 &&
        st.bust_count <= 0xFFFF_FFFF_FFE0_0000 &&
        st.dealer_bust_count <= 0xFFFF_FFFF_FFE0_0000 &&
        st.blackjack_loss_streak <= 0xFFFF_FFFF_FFE0_0000 &&
        st.blackjack_push_streak <= 0xFFFF_FFFF_FFE0_0000 &&
        st.slots_spins <= 0xFFFF_FFFF_FFE0_0000 &&
        st.jackpot_count_mini <= 0xFFFF_FFFF_FFE0_0000 &&
        st.jackpot_count_mega <= 0xFFFF_FFFF_FFE0_0000 &&
        st.jackpot_count_ultra <= 0xFFFF_FFFF_FFE0_0000 &&
        st.slots_win_streak <= 0xFFFF_FFFF_FFE0_0000 &&
        st.slots_loss_streak <= 0xFFFF_FFFF_FFE0_0000 &&
        st.cherry_matches <= 0xFFFF_FFFF_FFE0_0000 &&
        st.lemon_matches <= 0xFFFF_FFFF_FFE0_0000 &&
        st.bell_matches <= 0xFFFF_FFFF_FFE0_0000 &&
        st.seven_matches <= 0xFFFF_FFFF_FFE0_0000 &&
        st.diamond_matches <= 0xFFFF_FFFF_FFE0_0000 &&
        st.wild_matches <= 0xFFFF_FFFF_FFE0_0000 &&
        st.scatter_matches <= 0xFFFF_FFFF_FFE0_0000 &&
        st.blackjack_win_streak <= 0x7FFF_FFFF_FFFF_FFF0 &&
        -0x6000_0000_0000_0000 <= st.total_bet && st.total_bet <= 0x6000_0000_0000_0000 &&
        -0x7FFF_FFF0_0000_0000 <= self.slots.state.jackpots.mini && self.slots.state.jackpots.mini <= 0x7FFF_FFF0_0000_0000 &&
        -0x7FFF_FFF0_0000_0000 <= self.slots.state.jackpots.mega && self.slots.state.jackpots.mega <= 0x7FFF_FFF0_0000_0000 &&
        -0x7FFF_FFF0_0000_0000 <= self.slots.state.jackpots.ultra && self.slots.state.jackpots.ultra <= 0x7FFF_FFF0_0000_0000 &&
        {
            let diff: i128 = self.data.player.chips as i128 - self.slots.state.display_chips as i128;
            let lo: i128 = i64::MIN as i128;
            let hi: i128 = i64::MAX as i128;
            lo < diff && diff <= hi
        }
    }

    /// Whether the numbers have room for the key `key`.
    pub fn has_room_for(&self, key: Key) -> (b: bool)
        ensures
            b == key_room(self@, key),
    {
        let daily = !self.editing_name && !self.help_modal.visible && self.view == View::Dashboard
            && (key == Key::Char('d') || key == Key::Char('D'));
        self.has_room() && (!daily || self.data.player.chips <= i64::MAX - DAILY_BONUS)
    }

    /// Adds a line to the feed, which keeps the last six.
    pub fn push_note(&mut self, msg: Note)
        ensures
            final(self)@ == with_note(old(self)@, msg@),
    {
        let ghost before = self.notes@;
        let ghost m = msg@;
        self.notes.push(msg);
        assert(feed_view(self.notes@) =~= feed_view(before).push(m));
        if self.notes.len() > 6 {
            let ghost full = self.notes@;
            self.notes.remove(0);
            assert(self.notes@ =~= full.drop_first());
            assert(feed_view(self.notes@) =~= feed_view(full).drop_first());
        }
    }

    /// Adds a line of plain text to the feed.
    fn say(&mut self, text: &str)
        ensures
            final(self)@ == with_note(old(self)@, NoteView::Text(text@)),
    {
        self.push_note(Note::Text(String::from_str(text)));
    }

    /// The screen the dashboard cursor points at.
    pub fn dashboard_target(&self) -> (v: View)
        ensures
            v == dashboard_view_at(self.dashboard_cursor as int),
    {
        if self.dashboard_cursor == 0 {
            View::Blackjack
        } else if self.dashboard_cursor == 1 {
            View::Slots
        } else if self.dashboard_cursor == 2 {
            View::Online
        } else {
            View::Blackjack
        }
    }

    fn request_save(&mut self)
        ensures
            final(self)@ == with_save(old(self)@),
    {
        self.save_pending = true;
        self.save_ct = 8;
    }

    fn move_dashboard_cursor(&mut self, delta: i32)
        requires
            old(self).dashboard_cursor < 3,
            -3 <= delta <= 3,
        ensures
            final(self)@ == (AppView {
                dashboard_cursor: ((old(self).dashboard_cursor + delta) % 3) as usize,
                ..old(self)@
            }),
    {
        let x = self.dashboard_cursor as i32 + delta;
        let m = x % 3;
        let next = if m < 0 { m + 3 } else { m };
        self.dashboard_cursor = next as usize;
    }

    fn record_highest_bet(&mut self, bet: i64)
        ensures
            final(self)@ == (AppView {
                data: SaveView {
                    stats: crate::models::stats::StatsView {
                        highest_bet: if bet > old(self).data.stats.highest_bet { bet } else { old(self).data.stats.highest_bet },
                        ..old(self)@.data.stats
                    },
                    ..old(self)@.data
                },
                ..old(self)@
            }),
    {
        if bet > self.data.stats.highest_bet {
            self.data.stats.highest_bet = bet;
        }
    }

    fn show_help(&mut self, title: &str, body: &str)
        ensures
            final(self)@ == (AppView {
                help_modal: ModalView { title: title@, body: body@, visible: true },
                ..old(self)@
            }),
    {
        self.help_modal.show(String::from_str(title), String::from_str(body));
    }

    fn show_rules_for_current_view(&mut self)
        ensures
            final(self)@ == rules_shown(old(self)@),
    {
        match self.view {
            View::Dashboard => self.show_help(DASHBOARD_HELP_TITLE, DASHBOARD_HELP),
            View::Blackjack => self.show_help(BLACKJACK_HELP_TITLE, BLACKJACK_HELP),
            View::Slots => self.show_help(SLOTS_HELP_TITLE, SLOTS_HELP),
            View::Online => self.show_help(ONLINE_HELP_TITLE, ONLINE_HELP),
        }
    }

    fn begin_name_edit(&mut self)
        ensures
            final(self)@ == with_note(
                AppView { editing_name: true, name_input: old(self)@.data.player.name, ..old(self)@ },
                NoteView::Text("Editing offline name"@),
            ),
    {
        self.editing_name = true;
        self.name_input = self.data.player.name.clone();
        self.say("Editing offline name");
    }

    fn commit_name_edit(&mut self)
        ensures
            final(self)@ == name_committed(old(self)@),
    {
        let t = trim_str(self.name_input.as_str());
        if t.unicode_len() == 0 {
            self.name_input = self.data.player.name.clone();
            self.editing_name = false;
            self.say("Name unchanged");
            return;
        }
        let name = take_chars(t, 18);
        self.data.player.name = name;
        self.name_input = self.data.player.name.clone();
        self.editing_name = false;
        self.request_save();
        let mut line = String::from_str("Name: ");
        line.append(self.data.player.name.as_str());
        self.push_note(Note::Text(line));
    }

    fn cancel_name_edit(&mut self)
        ensures
            final(self)@ == name_cancelled(old(self)@),
    {
        self.editing_name = false;
        self.name_input = self.data.player.name.clone();
        self.say("Name edit cancelled");
    }

    fn on_name_input(&mut self, key: Key)
        ensures
            final(self)@ == name_keyed(old(self)@, key),
    {
        match key {
            Key::Esc => self.cancel_name_edit(),
            Key::Enter => self.commit_name_edit(),
            Key::Backspace => {
                let _ = pop_char(&mut self.name_input);
            },
            Key::Char(c) => {
                if self.name_input.as_str().unicode_len() < 18 && !is_control(c) {
                    push_char(&mut self.name_input, c);
                }
            },
            _ => {},
        }
    }

    fn open_dashboard_target(&mut self)
        ensures
            final(self)@ == with_note(
                AppView { view: dashboard_view_at(old(self).dashboard_cursor as int), ..old(self)@ },
                NoteView::Text(view_label(dashboard_view_at(old(self).dashboard_cursor as int))),
            ),
    {
        let target = self.dashboard_target();
        self.view = target;
        match target {
            View::Blackjack => self.say("Blackjack"),
            View::Slots => self.say("Slots"),
            View::Online => self.say("Online"),
            View::Dashboard => self.say("Dashboard"),
        }
    }

    fn leave_game(&mut self)
        ensures
            final(self)@ == left_game(old(self)@),
    {
        self.view = View::Dashboard;
        self.say("Dashboard");
    }

    fn on_dashboard(&mut self, key: Key)
        requires
            old(self).dashboard_cursor < 3,
            letter(key, 'd', 'D') ==> old(self).data.player.chips + DAILY_BONUS <= i64::MAX,
        ensures
            dashboard_keyed(old(self)@, final(self)@, key),
    {
        if key == Key::Up {
            self.move_dashboard_cursor(-1);
        } else if key == Key::Down {
            self.move_dashboard_cursor(1);
        } else if key == Key::Enter || key == Key::Char(' ') {
            self.open_dashboard_target();
        } else if key == Key::Char('e') || key == Key::Char('E') {
            self.begin_name_edit();
        } else if key == Key::Char('d') || key == Key::Char('D') {
            if self.data.player.claim_daily_bonus() {
                self.push_note(Note::DailyBonus(DAILY_BONUS));
                self.request_save();
            } else {
                self.say("Daily done");
            }
        }
    }

    fn bj_deal(&mut self)
        requires
            app_ok(old(self)@),
            room(old(self)@),
        ensures
            app_ok(final(self)@),
            deal_tried(old(self)@, final(self)@),
    {
        let chips = self.data.player.chips;
        if self.bj.deal(chips) {
            let bet = self.bj.bet;
            self.data.stats.total_bet = self.data.stats.total_bet + bet;
            self.record_highest_bet(bet);
            self.push_note(Note::BetPlaced(bet));
        }
    }

    fn bj_double(&mut self)
        requires
            app_ok(old(self)@),
            room(old(self)@),
        ensures
            app_ok(final(self)@),
            double_tried(old(self)@, final(self)@),
    {
        let chips = self.data.player.chips;
        let extra = self.bj.double_down(chips);
        if extra > 0 {
            self.data.stats.total_bet = self.data.stats.total_bet + extra;
            let top = self.bj.bet + extra;
            self.record_highest_bet(top);
        }
    }

    fn bj_split(&mut self)
        requires
            app_ok(old(self)@),
            room(old(self)@),
        ensures
            app_ok(final(self)@),
            split_tried(old(self)@, final(self)@),
    {
        let chips = self.data.player.chips;
        let extra = self.bj.split(chips);
        if extra > 0 {
            self.data.stats.total_bet = self.data.stats.total_bet + extra;
            self.record_highest_bet(extra);
        }
    }

    fn on_bj(&mut self, key: Key)
        requires
            app_ok(old(self)@),
            room(old(self)@),
        ensures
            blackjack_keyed(old(self)@, final(self)@, key),
            app_ok(final(self)@),
    {
        let chips = self.data.player.chips;
        if key == Key::Left {
            self.bj.adjust_bet(-1_000, chips);
        } else if key == Key::Right {
            self.bj.adjust_bet(1_000, chips);
        } else if key == Key::Up {
            self.bj.adjust_bet(10_000, chips);
        } else if key == Key::Down {
            self.bj.adjust_bet(-10_000, chips);
        } else if key == Key::Enter || key == Key::Char(' ') {
            self.bj_deal();
        } else if key == Key::Char('h') || key == Key::Char('H') {
            self.bj.hit();
        } else if key == Key::Char('s') || key == Key::Char('S') {
            self.bj.stand();
        } else if key == Key::Char('d') || key == Key::Char('D') {
            self.bj_double();
        } else if key == Key::Char('p') || key == Key::Char('P') {
            self.bj_split();
        } else if key == Key::Esc {
            self.leave_game();
        }
    }

    fn start_spin(&mut self) -> (started: bool)
        requires
            app_ok(old(self)@),
            room(old(self)@),
        ensures
            app_ok(final(self)@),
            started == (!old(self)@.slots.spinning && old(self)@.slots.bet <= old(self)@.data.player.chips),
            started ==> final(self)@ == spin_paid(old(self)@, spin_begun(old(self)@.slots)),
            !started && !old(self)@.slots.spinning ==> final(self)@ == (AppView {
                slots: SlotsView { message: "Insufficient chips for bet"@, ..old(self)@.slots },
                ..old(self)@
            }),
            old(self)@.slots.spinning ==> final(self)@ == old(self)@,
    {
        let chips = self.data.player.chips;
        if self.slots.begin_spin(chips) {
            let bet = self.slots.state.bet;
            self.data.player.chips = saturating_plus(self.data.player.chips, -bet);
            self.data.stats.total_bet = self.data.stats.total_bet + bet;
            self.record_highest_bet(bet);
            true
        } else {
            false
        }
    }

    fn slots_space(&mut self)
        requires
            app_ok(old(self)@),
            room(old(self)@),
        ensures
            app_ok(final(self)@),
            space_at_slots(old(self)@, final(self)@),
    {
        if self.slots.state.auto_spin_remaining > 0 {
            self.slots.state.auto_spin_remaining = 0;
            self.say("Auto stop");
        } else if self.start_spin() {
            let bet = self.slots.state.bet;
            self.push_note(Note::SpinStarted(bet));
        }
    }

    fn slots_auto(&mut self)
        requires
            app_ok(old(self)@),
            room(old(self)@),
        ensures
            app_ok(final(self)@),
            auto_at_slots(old(self)@, final(self)@),
    {
        if self.slots.state.auto_spin_remaining > 0 {
            self.slots.state.auto_spin_remaining = 0;
            self.slots.state.auto_spin_total = 0;
            self.say("Auto stop");
        } else {
            self.slots.state.auto_spin_remaining = 10;
            self.slots.state.auto_spin_total = 10;
            self.say("Auto: 10");
            if !self.slots.state.spinning && self.start_spin() {
                self.slots.state.auto_spin_remaining = self.slots.state.auto_spin_remaining - 1;
            }
        }
    }

    fn slots_machine(&mut self)
        requires
            app_ok(old(self)@),
        ensures
            app_ok(final(self)@),
            final(self)@ == machine_swapped(old(self)@),
    {
        if self.slots.state.spinning || self.slots.state.auto_spin_remaining > 0 {
            self.say("Stop spin/auto before machine swap");
        } else {
            let next = self.slots.state.machine.next();
            self.slots.set_machine(next);
            let mut line = String::from_str("Machine: ");
            line.append(next.name());
            self.push_note(Note::Text(line));
        }
    }

    fn on_slots(&mut self, key: Key)
        requires
            app_ok(old(self)@),
            room(old(self)@),
        ensures
            slots_keyed(old(self)@, final(self)@, key),
            app_ok(final(self)@),
    {
        let chips = self.data.player.chips;
        if key == Key::Left {
            self.slots.adjust_bet(-1_000, chips);
        } else if key == Key::Right {
            self.slots.adjust_bet(1_000, chips);
        } else if key == Key::Up {
            self.slots.adjust_bet(10_000, chips);
        } else if key == Key::Down {
            self.slots.adjust_bet(-10_000, chips);
        } else if key == Key::Char(' ') {
            self.slots_space();
        } else if key == Key::Char('a') || key == Key::Char('A') {
            self.slots_auto();
        } else if key == Key::Char('m') || key == Key::Char('M') {
            self.slots_machine();
        } else if key == Key::Esc {
            self.leave_game();
        }
    }

    fn on_view(&mut self, key: Key)
        requires
            app_ok(old(self)@),
            key_room(old(self)@, key),
            !old(self).editing_name,
            !old(self).help_modal.visible,
        ensures
            view_keyed(old(self)@, final(self)@, key),
            app_ok(final(self)@),
    {
        match self.view {
            View::Dashboard => self.on_dashboard(key),
            View::Blackjack => self.on_bj(key),
            View::Slots => self.on_slots(key),
            View::Online => {},
        }
    }

    /// Takes one key press.
    pub fn on_key(&mut self, key: Key)
        requires
            app_ok(old(self)@),
            key_room(old(self)@, key),
        ensures
            keyed(old(self)@, final(self)@, key),
            app_ok(final(self)@),
    {
        if self.editing_name {
            self.on_name_input(key);
            return;
        }
        if self.help_modal.visible {
            if key == Key::Esc || key == Key::Enter || key == Key::Char('r') || key == Key::Char('R')
                || key == Key::Char(' ') {
                self.help_modal.close();
            }
            return;
        }
        if key == Key::Char('q') {
            self.running = false;
        } else if key == Key::Char('1') {
            self.view = View::Dashboard;
        } else if key == Key::Char('2') {
            self.dashboard_cursor = 0;
            self.view = View::Blackjack;
        } else if key == Key::Char('3') {
            self.dashboard_cursor = 1;
            self.view = View::Slots;
        } else if key == Key::Char('4') {
            self.dashboard_cursor = 2;
            self.view = View::Online;
        } else if key == Key::Char('o') || key == Key::Char('O') {
            self.mode = Mode::Offline;
            self.say("Offline");
        } else if key == Key::Char('n') || key == Key::Char('N') {
            self.mode = Mode::Online;
            self.say("Online");
        } else if key == Key::Char('r') || key == Key::Char('R') {
            self.show_rules_for_current_view();
        } else {
            self.on_view(key);
        }
    }

    fn count_win(&mut self)
        requires
            old(self).data.stats.blackjack_wins < u64::MAX,
            old(self).data.stats.blackjack_win_streak < i64::MAX,
        ensures
            final(self)@ == with_stats(old(self)@, win_counted(old(self)@.data.stats)),
    {
        self.data.stats.blackjack_wins = self.data.stats.blackjack_wins + 1;
        self.data.stats.blackjack_win_streak = self.data.stats.blackjack_win_streak + 1;
        self.data.stats.blackjack_loss_streak = 0;
        self.data.stats.blackjack_push_streak = 0;
        let w = self.data.stats.blackjack_win_streak as i64;
        if w > self.data.stats.blackjack_best_streak {
            self.data.stats.blackjack_best_streak = w;
        }
    }

    fn book_winnings(&mut self, delta: i64)
        ensures
            final(self)@ == with_chips(
                with_stats(old(self)@, winnings_booked(old(self)@.data.stats, delta)),
                saturated(old(self)@.data.player.chips + delta),
            ),
    {
        self.data.player.chips = saturating_plus(self.data.player.chips, delta);
        self.data.stats.total_won = saturating_plus(self.data.stats.total_won, delta);
        if delta > self.data.stats.biggest_win {
            self.data.stats.biggest_win = delta;
        }
    }

    /// Whether some hand at the table went over 21.
    fn any_hand_bust(&self) -> (b: bool)
        requires
            table_ok(self@.bj),
        ensures
            b == some_hand_bust(self@.bj.hands),
    {
        let n = self.bj.hands.len();
        let mut i: usize = 0;
        while i < n
            invariant
                0 <= i <= n,
                n == self@.bj.hands.len(),
                table_ok(self@.bj),
                forall|j: int| 0 <= j < i ==> hand_total(#[trigger] self@.bj.hands[j].cards) <= 21,
            decreases n - i,
        {
            let h = &self.bj.hands[i];
            assert(self@.bj.hands[i as int] == h@);
            proof {
                assert(hand_ok(self@.bj.hands[i as int]));
                lemma_valid_raw_bound(h.cards@);
            }
            if h.value() > 21 {
                return true;
            }
            i += 1;
        }
        false
    }

    #[verifier::rlimit(30)]
    fn apply_bj(&mut self, outcome: Outcome, delta: i64)
        requires
            bj_counts_within(old(self)@.data.stats, 0xFFFF_FFFF_FFE0_0002),
            delta > i64::MIN,
            table_ok(old(self)@.bj),
        ensures
            final(self)@ == hand_booked(old(self)@, outcome, delta),
            forall|b: int| #[trigger] bj_counts_within(old(self)@.data.stats, b) ==> bj_counts_within(final(self)@.data.stats, b + 1),
            app_ok(old(self)@) ==> app_ok(final(self)@),
            final(self)@.bj == old(self)@.bj,
            final(self)@.slots == old(self)@.slots,
            final(self)@.data.stats.total_bet == old(self)@.data.stats.total_bet,
    {
        reveal(hand_booked);
        match outcome {
            Outcome::Blackjack => {
                self.count_win();
                self.data.stats.blackjack_count = self.data.stats.blackjack_count + 1;
                self.book_winnings(delta);
                self.push_note(Note::BlackjackWon(delta));
            },
            Outcome::Win => {
                self.count_win();
                self.book_winnings(delta);
                self.push_note(Note::HandWon(delta));
            },
            Outcome::Lose => {
                self.data.stats.blackjack_losses = self.data.stats.blackjack_losses + 1;
                self.data.stats.blackjack_loss_streak = self.data.stats.blackjack_loss_streak + 1;
                self.data.stats.blackjack_win_streak = 0;
                self.data.stats.blackjack_push_streak = 0;
                if self.any_hand_bust() {
                    self.data.stats.bust_count = self.data.stats.bust_count + 1;
                }
                self.data.player.chips = saturating_plus(self.data.player.chips, delta);
                let lost = if delta < 0 { -delta } else { delta };
                self.push_note(Note::HandLost(lost));
            },
            Outcome::Push => {
                self.data.stats.blackjack_pushes = self.data.stats.blackjack_pushes + 1;
                self.data.stats.blackjack_push_streak = self.data.stats.blackjack_push_streak + 1;
                self.data.stats.blackjack_win_streak = 0;
                self.data.stats.blackjack_loss_streak = 0;
                self.say("Push");
            },
        }
        self.data.stats.games_played = self.data.stats.games_played + 1;
        self.request_save();
    }

    fn book_hands(&mut self, results: &Vec<(Outcome, i64)>)
        requires
            app_ok(old(self)@),
            results@ == settlement(old(self)@.bj),
            bj_counts_within(old(self)@.data.stats, 0xFFFF_FFFF_FFE0_0001),
        ensures
            final(self)@ == hands_booked(old(self)@, results@),
            app_ok(final(self)@),
            final(self)@.slots == old(self)@.slots,
            final(self)@.data.stats.total_bet == old(self)@.data.stats.total_bet,
    {
        let ghost a1 = self@;
        let ghost t = self@.bj;
        let n = results.len();
        let mut i: usize = 0;
        while i < n
            invariant
                0 <= i <= n,
                n == results@.len(),
                n == t.hands.len(),
                n <= 2,
                results@ == settlement(t),
                self@ == hands_booked(a1, results@.take(i as int)),
                self@.bj == t,
                app_ok(self@),
                self@.slots == a1.slots,
                self@.data.stats.total_bet == a1.data.stats.total_bet,
                bj_counts_within(self@.data.stats, 0xFFFF_FFFF_FFE0_0001 + i),
            decreases n - i,
        {
            let (o, d) = results[i];
            proof {
                assert(hand_ok(t.hands[i as int]));
                assert(results@.take(i + 1).drop_last() =~= results@.take(i as int));
            }
            self.apply_bj(o, d);
            i += 1;
        }
        assert(results@.take(n as int) =~= results@);
    }

    fn count_house_bust(&mut self)
        requires
            table_ok(old(self)@.bj),
            old(self)@.data.stats.dealer_bust_count < u64::MAX,
        ensures
            final(self)@ == house_bust_counted(old(self)@),
    {
        proof {
            lemma_valid_raw_bound(self@.bj.dealer);
        }
        if hand_value(self.bj.dealer.as_slice()) > 21 {
            self.data.stats.dealer_bust_count = self.data.stats.dealer_bust_count + 1;
        }
    }

    fn book_round(&mut self)
        requires
            app_ok(old(self)@),
            bj_counts_within(old(self)@.data.stats, 0xFFFF_FFFF_FFE0_0001),
            old(self)@.data.stats.dealer_bust_count < u64::MAX,
            old(self)@.bj.state is RoundOver,
            !old(self)@.bj.settled,
        ensures
            final(self)@ == round_booked(old(self)@),
            app_ok(final(self)@),
            final(self)@.slots == old(self)@.slots,
            final(self)@.data.stats.total_bet == old(self)@.data.stats.total_bet,
    {
        reveal(round_booked);
        let ghost t = self@.bj;
        self.count_house_bust();
        proof {
            assert forall|i: int| 0 <= i < t.hands.len() implies settles_within(#[trigger] t.hands[i]) by {
                assert(hand_ok(t.hands[i]));
            }
        }
        let results = self.bj.settle();
        assert(results@ =~= settlement(t));
        self.book_hands(&results);
        self.bj.settled = true;
        let kind = if results.len() > 0 { results[0].0 } else { Outcome::Push };
        self.bj.anim = Some(AnimState { flash: BJ_FLASH_FRAMES, kind });
    }

    fn count_spin(&mut self, payout: i64, mult: i64)
        requires
            old(self)@.data.stats.games_played <= 0xFFFF_FFFF_FFE0_0000,
            old(self)@.data.stats.slots_spins <= 0xFFFF_FFFF_FFE0_0000,
            old(self)@.data.stats.slots_win_streak <= 0xFFFF_FFFF_FFE0_0000,
            old(self)@.data.stats.slots_loss_streak <= 0xFFFF_FFFF_FFE0_0000,
            old(self)@.data.stats.jackpot_count_mini <= 0xFFFF_FFFF_FFE0_0000,
            old(self)@.data.stats.jackpot_count_mega <= 0xFFFF_FFFF_FFE0_0000,
            old(self)@.data.stats.jackpot_count_ultra <= 0xFFFF_FFFF_FFE0_0000,
        ensures
            final(self)@ == with_stats(old(self)@, spin_counted(old(self)@.data.stats, payout, mult)),
    {
        self.data.stats.games_played = self.data.stats.games_played + 1;
        self.data.stats.slots_spins = self.data.stats.slots_spins + 1;
        if payout > 0 {
            self.data.stats.total_won = saturating_plus(self.data.stats.total_won, payout);
            if payout > self.data.stats.slots_biggest_win {
                self.data.stats.slots_biggest_win = payout;
            }
            self.data.stats.slots_win_streak = self.data.stats.slots_win_streak + 1;
            self.data.stats.slots_loss_streak = 0;
        } else {
            self.data.stats.slots_loss_streak = self.data.stats.slots_loss_streak + 1;
            self.data.stats.slots_win_streak = 0;
        }
        if mult >= 100 {
            self.data.stats.jackpot_count_ultra = self.data.stats.jackpot_count_ultra + 1;
            self.data.stats.jackpot_count_mini = self.data.stats.jackpot_count_mini + 1;
        } else if mult >= 50 {
            self.data.stats.jackpot_count_mega = self.data.stats.jackpot_count_mega + 1;
            self.data.stats.jackpot_count_mini = self.data.stats.jackpot_count_mini + 1;
        } else if mult >= 20 {
            self.data.stats.jackpot_count_mini = self.data.stats.jackpot_count_mini + 1;
        }
    }

    fn count_symbols(&mut self)
        requires
            old(self)@.data.stats.cherry_matches <= 0xFFFF_FFFF_FFE0_0000,
            old(self)@.data.stats.lemon_matches <= 0xFFFF_FFFF_FFE0_0000,
            old(self)@.data.stats.bell_matches <= 0xFFFF_FFFF_FFE0_0000,
            old(self)@.data.stats.seven_matches <= 0xFFFF_FFFF_FFE0_0000,
            old(self)@.data.stats.diamond_matches <= 0xFFFF_FFFF_FFE0_0000,
            old(self)@.data.stats.wild_matches <= 0xFFFF_FFFF_FFE0_0000,
            old(self)@.data.stats.scatter_matches <= 0xFFFF_FFFF_FFE0_0000,
            slots_ok(old(self)@.slots),
            settleable(old(self)@.slots.reels),
        ensures
            final(self)@ == with_stats(old(self)@, symbols_counted(old(self)@.data.stats, old(self)@.slots.reels)),
    {
        let ghost g = self@.slots.reels;
        proof {
            lemma_spin_result_bounds(self@.slots, g);
        }
        let reels = &self.slots.state.reels;
        assert(grid_view(reels@) == g);
        let cherry = tally(reels, SlotSymbol::Cherry);
        let lemon = tally(reels, SlotSymbol::Lemon);
        let bell = tally(reels, SlotSymbol::Bell);
        let seven = tally(reels, SlotSymbol::Seven);
        let diamond = tally(reels, SlotSymbol::Diamond);
        let wild = tally(reels, SlotSymbol::Wild);
        let scat = tally(reels, SlotSymbol::Scatter);
        self.data.stats.cherry_matches = self.data.stats.cherry_matches + cherry;
        self.data.stats.lemon_matches = self.data.stats.lemon_matches + lemon;
        self.data.stats.bell_matches = self.data.stats.bell_matches + bell;
        self.data.stats.seven_matches = self.data.stats.seven_matches + seven;
        self.data.stats.diamond_matches = self.data.stats.diamond_matches + diamond;
        self.data.stats.wild_matches = self.data.stats.wild_matches + wild;
        self.data.stats.scatter_matches = self.data.stats.scatter_matches + scat;
    }

    fn book_spin(&mut self, payout: i64, mult: i64, scatter: bool)
        requires
            room(old(self)@),
            slots_ok(old(self)@.slots),
            settleable(old(self)@.slots.reels),
            0 <= mult <= 100_200,
            -0x0200_0000_0000_0000 <= payout <= 0x0200_0000_0000_0000,
        ensures
            final(self)@ == spin_booked(old(self)@, payout, mult, scatter),
            final(self)@.bj == old(self)@.bj,
            final(self)@.slots == old(self)@.slots,
            final(self)@.dashboard_cursor == old(self)@.dashboard_cursor,
            app_ok(old(self)@) ==> app_ok(final(self)@),
            final(self)@.data.stats.total_bet == old(self)@.data.stats.total_bet,
            final(self)@.data.stats.dealer_bust_count == old(self)@.data.stats.dealer_bust_count,
            bj_counts_within(final(self)@.data.stats, 0xFFFF_FFFF_FFE0_0001),
    {
        reveal(spin_booked);
        let bet = self.slots.state.bet;
        self.data.player.chips = saturating_plus(self.data.player.chips, payout);
        self.count_spin(payout, mult);
        self.count_symbols();
        let net = payout - bet;
        let line = spin_note(mult, net, scatter, payout);
        self.push_note(Note::Text(line));
        self.request_save();
    }

    fn auto_spin_step(&mut self)
        requires
            slots_ok(old(self)@.slots),
            -0x7FFF_FFF0_0000_0000 <= old(self)@.slots.jackpots.mini <= 0x7FFF_FFF0_0000_0000,
            -0x7FFF_FFF0_0000_0000 <= old(self)@.slots.jackpots.mega <= 0x7FFF_FFF0_0000_0000,
            -0x7FFF_FFF0_0000_0000 <= old(self)@.slots.jackpots.ultra <= 0x7FFF_FFF0_0000_0000,
            -0x6000_0000_0000_0000 <= old(self)@.data.stats.total_bet <= 0x6000_0000_0000_0000,
        ensures
            final(self)@ == auto_spun(old(self)@),
            slots_ok(final(self)@.slots),
            app_ok(old(self)@) ==> app_ok(final(self)@),
    {
        reveal(auto_spun);
        if self.slots.state.auto_spin_remaining > 0 && !self.slots.state.spinning {
            let chips = self.data.player.chips;
            if self.slots.begin_spin(chips) {
                let bet = self.slots.state.bet;
                self.data.player.chips = saturating_plus(self.data.player.chips, -bet);
                self.data.stats.total_bet = self.data.stats.total_bet + bet;
                self.slots.state.auto_spin_remaining = self.slots.state.auto_spin_remaining - 1;
            } else {
                self.slots.state.auto_spin_remaining = 0;
            }
        }
    }

    fn advance_games(&mut self) -> (r: Option<(i64, i64, bool)>)
        requires
            app_ok(old(self)@),
            room(old(self)@),
        ensures
            ticked(old(self)@.bj, final(self)@.bj),
            spin_ticked(animated(old(self)@.slots, old(self)@.data.player.chips), final(self)@.slots, r),
            final(self)@ == (AppView { bj: final(self)@.bj, slots: final(self)@.slots, ..old(self)@ }),
            app_ok(final(self)@),
            room(final(self)@),
            r matches Some(x) ==> {
                &&& settleable(final(self)@.slots.reels)
                &&& 0 <= x.1 <= 100_200
                &&& -0x0200_0000_0000_0000 <= x.0 <= 0x0200_0000_0000_0000
            },
    {
        self.bj.tick();
        let chips = self.data.player.chips;
        self.slots.tick_animation(chips);
        let ghost v = self@.slots;
        let r = self.slots.tick_spin();
        proof {
            let s = self@.slots;
            lemma_machine_pool(v.machine);
            if r is Some {
                let d = counted_down(v);
                lemma_rolled_settleable(s.reels, v.reel_count as int, v.visible_rows as int, machine_pool(v.machine));
                assert(slots_ok(d));
                lemma_spin_result_bounds(d, s.reels);
                lemma_float_half_bounds(d.jackpots.ultra);
                lemma_float_half_bounds(d.jackpots.mega);
            }
        }
        r
    }

    fn book_frame(&mut self, r: Option<(i64, i64, bool)>)
        requires
            app_ok(old(self)@),
            room(old(self)@),
            r matches Some(x) ==> {
                &&& settleable(old(self)@.slots.reels)
                &&& 0 <= x.1 <= 100_200
                &&& -0x0200_0000_0000_0000 <= x.0 <= 0x0200_0000_0000_0000
            },
        ensures
            app_ok(final(self)@),
            final(self)@ == framed(old(self)@, old(self)@.bj, old(self)@.slots, r),
    {
        let ghost a = self@;
        match r {
            Some((payout, mult, scatter)) => {
                self.book_spin(payout, mult, scatter);
            },
            None => {},
        }
        assert(self@.slots == a.slots);
        if matches!(self.bj.state, PlayState::RoundOver) && !self.bj.settled {
            self.book_round();
        }
        self.auto_spin_step();
    }

    /// One frame of the casino. Returns whether the save is due to be
    /// written now.
    pub fn tick(&mut self) -> (save_now: bool)
        requires
            app_ok(old(self)@),
            room(old(self)@),
        ensures
            app_ok(final(self)@),
            exists|t: TableView, s: SlotsView, r: Option<(i64, i64, bool)>|
                #[trigger] frame_ok(old(self)@, final(self)@, save_now, t, s, r),
    {
        let ghost a = self@;
        let r = self.advance_games();
        let ghost t = self@.bj;
        let ghost s = self@.slots;
        self.book_frame(r);
        let mut save_now = false;
        if self.save_pending {
            if self.save_ct > 0 {
                self.save_ct = self.save_ct - 1;
            } else {
                self.save_pending = false;
                save_now = true;
            }
        }
        assert(frame_ok(a, self@, save_now, t, s, r));
        save_now
    }
}

/// The feed keeps the last six lines: the new line comes last, and the
/// lines before it are the latest of the old ones.
pub proof fn law_feed_keeps_last_six(notes: Seq<NoteView>, line: NoteView)
    requires
        notes.len() <= 6,
    ensures
        noted(notes, line).len() == if notes.len() < 6 { notes.len() + 1 } else { 6 },
        noted(notes, line).last() == line,
        noted(notes, line).drop_last() =~= notes.skip(notes.len() + 1 - noted(notes, line).len()),
{
}

/// A history of at most ten sessions keeps the last ten, the new one last.
pub proof fn law_history_keeps_ten(h: Seq<SessionView>, s: SessionView)
    requires
        h.len() <= 10,
    ensures
        history_with(h, s).len() == if h.len() < 10 { h.len() + 1 } else { 10 },
        history_with(h, s).last() == s,
        history_with(h, s).drop_last() =~= h.skip(h.len() + 1 - history_with(h, s).len()),
{
}

/// A spin is paid for as it starts, so it cannot be spent twice: Space on
/// an idle machine whose bet is covered takes exactly the bet from the
/// chips, books it, and starts the reels.
pub proof fn law_spin_paid_up_front(a: AppView, n: AppView)
    requires
        a.slots.auto_spin_remaining == 0,
        !a.slots.spinning,
        0 < a.slots.bet <= a.data.player.chips,
        room(a),
        slots_ok(a.slots),
        space_at_slots(a, n),
    ensures
        n.data.player.chips == a.data.player.chips - a.slots.bet,
        n.data.stats.total_bet == a.data.stats.total_bet + a.slots.bet,
        n.slots.spinning,
        n.slots.bet == a.slots.bet,
{
}

/// The chips after settled hands are paid one after another, each payment
/// held within `i64`; a push moves nothing.
pub open spec fn chips_paid(c: i64, r: Seq<(Outcome, i64)>) -> i64
    decreases r.len(),
{
    if r.len() == 0 {
        c
    } else {
        let c1 = chips_paid(c, r.drop_last());
        if r.last().0 is Push {
            c1
        } else {
            saturated(c1 + r.last().1)
        }
    }
}

proof fn lemma_hands_booked_pays(a: AppView, r: Seq<(Outcome, i64)>)
    ensures
        hands_booked(a, r).data.player.chips == chips_paid(a.data.player.chips, r),
        hands_booked(a, r).bj == a.bj,
        hands_booked(a, r).slots == a.slots,
    decreases r.len(),
{
    if r.len() > 0 {
        lemma_hands_booked_pays(a, r.drop_last());
        reveal(hand_booked);
    }
}

proof fn lemma_hands_booked_games(a: AppView, r: Seq<(Outcome, i64)>)
    requires
        a.data.stats.games_played + r.len() <= u64::MAX,
    ensures
        hands_booked(a, r).data.stats.games_played == a.data.stats.games_played + r.len(),
    decreases r.len(),
{
    if r.len() > 0 {
        lemma_hands_booked_games(a, r.drop_last());
        reveal(hand_booked);
    }
}

/// A settled round pays every hand once: the chips take each hand's
/// payout in turn, held within `i64`, the games played grow by the number
/// of hands (while that count fits in `u64`), the machine is left alone,
/// and the table is marked settled with the first hand's outcome flashing.
pub proof fn law_round_pays_each_hand(a: AppView)
    ensures
        round_booked(a).data.player.chips == chips_paid(a.data.player.chips, settlement(a.bj)),
        a.data.stats.games_played + a.bj.hands.len() <= u64::MAX ==> round_booked(a).data.stats.games_played
            == a.data.stats.games_played + a.bj.hands.len(),
        round_booked(a).slots == a.slots,
        round_booked(a).bj.settled,
        round_booked(a).bj.anim == Some(
            AnimState {
                flash: BJ_FLASH_FRAMES,
                kind: if a.bj.hands.len() > 0 {
                    settled_outcome(a.bj.hands[0])
                } else {
                    Outcome::Push
                },
            },
        ),
{
    reveal(round_booked);
    let r = settlement(a.bj);
    let a1 = house_bust_counted(a);
    lemma_hands_booked_pays(a1, r);
    if a.data.stats.games_played + a.bj.hands.len() <= u64::MAX {
        lemma_hands_booked_games(a1, r);
    }
}

/// A step of a blackjack round: a key at the table, or a frame.
pub open spec fn round_step(
    a: AppView,
    n: AppView,
    k: Option<Key>,
    save: bool,
    t: TableView,
    s: SlotsView,
    r: Option<(i64, i64, bool)>,
) -> bool {
    match k {
        Some(key) => blackjack_keyed(a, n, key),
        None => frame_ok(a, n, save, t, s, r),
    }
}

/// A frame whose table has a finished round not yet paid.
pub open spec fn pays_round(k: Option<Key>, t: TableView) -> bool {
    k is None && t.state is RoundOver && !t.settled
}

proof fn lemma_quiet_step(
    a: AppView,
    n: AppView,
    k: Option<Key>,
    save: bool,
    t: TableView,
    s: SlotsView,
    r: Option<(i64, i64, bool)>,
)
    requires
        round_step(a, n, k, save, t, s, r),
        !a.slots.spinning,
        a.slots.auto_spin_remaining == 0,
    ensures
        !pays_round(k, t) ==> n.data.player.chips == a.data.player.chips,
        pays_round(k, t) ==> n.data.player.chips == chips_paid(a.data.player.chips, settlement(t)),
{
    reveal(auto_spun);
    match k {
        Some(key) => {
            law_table_keys_keep_chips(a, n, key);
        },
        None => {
            let a1 = AppView { bj: t, slots: s, ..a };
            if pays_round(k, t) {
                law_round_pays_each_hand(a1);
            }
        },
    }
}

/// A round moves the chips by exactly what its hands pay: from any state
/// through keys at the table and frames, with the machine idle, the chips
/// stay as they were until the frame that pays the finished round, and after
/// it they are the starting chips with each hand's payout added in turn,
/// held within `i64`. A doubled hand is paid on its doubled bet, a split
/// hand on its own.
pub proof fn law_round_moves_chips_by_its_hands(
    bs: Seq<AppView>,
    ks: Seq<Option<Key>>,
    saves: Seq<bool>,
    ts: Seq<TableView>,
    ss: Seq<SlotsView>,
    rs: Seq<Option<(i64, i64, bool)>>,
)
    requires
        ks.len() >= 1,
        bs.len() == ks.len() + 1,
        saves.len() == ks.len() && ts.len() == ks.len() && ss.len() == ks.len() && rs.len() == ks.len(),
        forall|f: int|
            0 <= f < ks.len() ==> round_step(#[trigger] bs[f], bs[f + 1], ks[f], saves[f], ts[f], ss[f], rs[f]),
        forall|f: int| 0 <= f < ks.len() ==> !(#[trigger] bs[f]).slots.spinning && bs[f].slots.auto_spin_remaining == 0,
        forall|f: int| 0 <= f < ks.len() - 1 ==> !pays_round(#[trigger] ks[f], ts[f]),
        pays_round(ks[ks.len() - 1], ts[ks.len() - 1]),
    ensures
        forall|f: int| 0 <= f < ks.len() ==> (#[trigger] bs[f]).data.player.chips == bs[0].data.player.chips,
        bs[ks.len() as int].data.player.chips == chips_paid(bs[0].data.player.chips, settlement(ts[ks.len() - 1])),
{
    let last = ks.len() - 1;
    assert forall|f: int| 0 <= f < ks.len() implies (#[trigger] bs[f]).data.player.chips == bs[0].data.player.chips by {
        lemma_round_quiet(bs, ks, saves, ts, ss, rs, f);
    }
    assert(round_step(bs[last], bs[last + 1], ks[last], saves[last], ts[last], ss[last], rs[last]));
    assert(bs[last].data.player.chips == bs[0].data.player.chips);
    lemma_quiet_step(bs[last], bs[last + 1], ks[last], saves[last], ts[last], ss[last], rs[last]);
}

proof fn lemma_round_quiet(
    bs: Seq<AppView>,
    ks: Seq<Option<Key>>,
    saves: Seq<bool>,
    ts: Seq<TableView>,
    ss: Seq<SlotsView>,
    rs: Seq<Option<(i64, i64, bool)>>,
    f: int,
)
    requires
        bs.len() == ks.len() + 1,
        saves.len() == ks.len() && ts.len() == ks.len() && ss.len() == ks.len() && rs.len() == ks.len(),
        forall|g: int|
            0 <= g < ks.len() ==> round_step(#[trigger] bs[g], bs[g + 1], ks[g], saves[g], ts[g], ss[g], rs[g]),
        forall|g: int| 0 <= g < ks.len() ==> !(#[trigger] bs[g]).slots.spinning && bs[g].slots.auto_spin_remaining == 0,
        forall|g: int| 0 <= g < ks.len() - 1 ==> !pays_round(#[trigger] ks[g], ts[g]),
        0 <= f < ks.len(),
    ensures
        bs[f].data.player.chips == bs[0].data.player.chips,
    decreases f,
{
    if f > 0 {
        lemma_round_quiet(bs, ks, saves, ts, ss, rs, f - 1);
        let g = f - 1;
        assert(round_step(bs[g], bs[g + 1], ks[g], saves[g], ts[g], ss[g], rs[g]));
        assert(!bs[g].slots.spinning);
        assert(!pays_round(ks[g], ts[g]));
        lemma_quiet_step(bs[g], bs[g + 1], ks[g], saves[g], ts[g], ss[g], rs[g]);
    }
}

/// A settled round is not paid again: a frame whose table is already
/// settled and whose machine is idle leaves the chips and the games played
/// as they were.
pub proof fn law_round_paid_once(a: AppView, t: TableView, s: SlotsView)
    requires
        t.state is RoundOver,
        t.settled,
        s.auto_spin_remaining == 0,
    ensures
        framed(a, t, s, None).data.player.chips == a.data.player.chips,
        framed(a, t, s, None).data.stats.games_played == a.data.stats.games_played,
{
    reveal(auto_spun);
}

/// The chips move at the table only when a round is settled: no key at the
/// table changes them, so a round moves them by exactly what its hands pay.
pub proof fn law_table_keys_keep_chips(a: AppView, n: AppView, k: Key)
    requires
        blackjack_keyed(a, n, k),
    ensures
        n.data.player.chips == a.data.player.chips,
{
}

/// Where an auto run stands after a whole number of frames: spin `j` of the
/// ten runs, `i` frames into its countdown, with `9 - j` more to come; the
/// bets of the spins begun so far are booked, the spins settled so far are
/// counted, and the chips still cover the spins to come.
pub open spec fn auto_phase(a: AppView, b: AppView, j: int, i: int) -> bool {
    let s = b.slots;
    let bet = a.slots.bet;
    &&& s.spinning
    &&& s.bet == bet
    &&& s.machine == a.slots.machine
    &&& s.reel_count == a.slots.reel_count
    &&& s.visible_rows == a.slots.visible_rows
    &&& s.reel_spin_frames.len() == s.reel_count
    &&& forall|c: int| 0 <= c < s.reel_count ==> #[trigger] s.reel_spin_frames[c] == reel_frames_after(c, i)
    &&& s.auto_spin_remaining == 9 - j
    &&& b.data.stats.total_bet == a.data.stats.total_bet + (j + 1) * bet
    &&& b.data.stats.slots_spins == a.data.stats.slots_spins + j
    &&& b.data.player.chips >= (9 - j) * bet
    &&& b.bj.state == a.bj.state
    &&& b.bj.settled == a.bj.settled
}

/// What an auto run needs: a sound machine with a reel, a positive bet that
/// the chips cover ten times over, an idle machine, a table that neither
/// plays the house nor holds an unpaid round, and room for ten more bets and
/// spins in the statistics.
pub open spec fn auto_ready(a: AppView) -> bool {
    &&& slots_ok(a.slots)
    &&& a.slots.reel_count >= 1
    &&& !a.slots.spinning
    &&& a.slots.auto_spin_remaining == 0
    &&& 0 < a.slots.bet
    &&& 10 * a.slots.bet <= a.data.player.chips
    &&& !(a.bj.state is DealerTurn)
    &&& a.bj.state is RoundOver ==> a.bj.settled
    &&& a.data.stats.total_bet + 10 * a.slots.bet <= i64::MAX
    &&& a.data.stats.slots_spins + 10 <= u64::MAX
}

/// The run finished: the machine idle, no auto-spin left, ten bets booked
/// and ten spins counted.
pub open spec fn auto_done(a: AppView, b: AppView) -> bool {
    &&& !b.slots.spinning
    &&& b.slots.auto_spin_remaining == 0
    &&& b.data.stats.total_bet == a.data.stats.total_bet + 10 * a.slots.bet
    &&& b.data.stats.slots_spins == a.data.stats.slots_spins + 10
}

#[verifier::spinoff_prover]
#[verifier::rlimit(30)]
proof fn lemma_auto_frame(
    a: AppView,
    b: AppView,
    n: AppView,
    save: bool,
    t: TableView,
    s: SlotsView,
    r: Option<(i64, i64, bool)>,
    j: int,
    i: int,
)
    requires
        auto_ready(a),
        auto_phase(a, b, j, i),
        0 <= j <= 9,
        0 <= i <= spin_length(a.slots.reel_count as int),
        frame_ok(b, n, save, t, s, r),
    ensures
        i < spin_length(a.slots.reel_count as int) ==> auto_phase(a, n, j, i + 1),
        i == spin_length(a.slots.reel_count as int) && j < 9 ==> auto_phase(a, n, j + 1, 0),
        i == spin_length(a.slots.reel_count as int) && j == 9 ==> auto_done(a, n),
{
    reveal(auto_spun);
    let nr = a.slots.reel_count as int;
    let m = spin_length(nr);
    let bet = a.slots.bet;
    let v = b.slots;
    let chips = b.data.player.chips;
    let u = animated(v, chips);
    let d = counted_down(u);
    assert(t.state == b.bj.state && t.settled == b.bj.settled);
    let a1 = AppView { bj: t, slots: s, ..b };
    if i < m {
        assert(!all_reels_stopped(u)) by {
            assert(u.reel_spin_frames[nr - 1] == reel_frames_after(nr - 1, i));
        }
        assert(framed(b, t, s, r) == a1);
        assert forall|c: int| 0 <= c < nr implies #[trigger] s.reel_spin_frames[c] == reel_frames_after(c, i + 1) by {
            assert(u.reel_spin_frames[c] == reel_frames_after(c, i));
        }
    } else {
        assert(all_reels_stopped(u)) by {
            assert forall|c: int| 0 <= c < u.reel_spin_frames.len() implies #[trigger] u.reel_spin_frames[c] == 0 by {
                assert(u.reel_spin_frames[c] == reel_frames_after(c, i));
            }
        }
        let g = s.reels;
        lemma_rolled_settleable(g, nr, v.visible_rows as int, machine_pool(v.machine));
        lemma_spin_result_bounds(d, g);
        let mult = spin_multiplier(g, machine_pool(d.machine));
        assert(d.bet * mult >= 0) by (nonlinear_arith)
            requires
                d.bet > 0,
                mult >= 0,
        ;
        assert(spin_payout(d, g) >= 0);
        let p = spin_payout(d, g) as i64;
        reveal(spin_booked);
        let a2 = spin_booked(a1, p, mult as i64, grid_count(g, SlotSymbol::Scatter) >= 3);
        assert(a2.slots == s);
        assert(a2.data.player.chips >= chips);
        assert(a2.data.stats.total_bet == b.data.stats.total_bet);
        assert(a2.data.stats.slots_spins == b.data.stats.slots_spins + 1);
        assert(framed(b, t, s, r) == auto_spun(a2));
        if j < 9 {
            assert((9 - j) * bet >= bet && (9 - j) * bet - bet == (8 - j) * bet) by (nonlinear_arith)
                requires
                    j < 9,
                    bet > 0,
            ;
            assert((j + 1) * bet + bet == (j + 2) * bet) by (nonlinear_arith);
            assert((j + 2) * bet <= 10 * bet) by (nonlinear_arith)
                requires
                    j < 9,
                    bet > 0,
            ;
            let sb = spin_begun(s);
            assert forall|c: int| 0 <= c < nr implies #[trigger] sb.reel_spin_frames[c] == reel_frames_after(c, 0) by {
                assert(SLOTS_SPIN_FRAMES + c * SLOTS_REEL_STAGGER <= 20 + 38 * 6);
            }
        } else {
            assert((j + 1) * bet == 10 * bet);
        }
    }
}

proof fn lemma_auto_start(a: AppView, b: AppView)
    requires
        auto_ready(a),
        auto_at_slots(a, b),
    ensures
        auto_phase(a, b, 0, 0),
{
    assert forall|c: int| 0 <= c < a.slots.reel_count implies #[trigger] b.slots.reel_spin_frames[c] == reel_frames_after(c, 0) by {
        assert(SLOTS_SPIN_FRAMES + c * SLOTS_REEL_STAGGER <= 20 + 38 * 6);
    }
}

/// Drives the run frame by frame: after `k` frames the run is `i` frames
/// into spin `j`, or done once all ten spins have had their frames.
#[verifier::spinoff_prover]
proof fn lemma_auto_run(
    a: AppView,
    bs: Seq<AppView>,
    saves: Seq<bool>,
    ts: Seq<TableView>,
    ss: Seq<SlotsView>,
    rs: Seq<Option<(i64, i64, bool)>>,
    k: int,
) -> (ji: (int, int))
    requires
        auto_ready(a),
        auto_phase(a, bs[0], 0, 0),
        bs.len() == rs.len() + 1,
        saves.len() == rs.len() && ts.len() == rs.len() && ss.len() == rs.len(),
        forall|f: int| 0 <= f < rs.len() ==> frame_ok(#[trigger] bs[f], bs[f + 1], saves[f], ts[f], ss[f], rs[f]),
        0 <= k <= rs.len(),
        k < 10 * (spin_length(a.slots.reel_count as int) + 1),
    ensures
        0 <= ji.0 <= 9,
        0 <= ji.1 <= spin_length(a.slots.reel_count as int),
        k == ji.0 * (spin_length(a.slots.reel_count as int) + 1) + ji.1,
        auto_phase(a, bs[k], ji.0, ji.1),
    decreases k,
{
    let m = spin_length(a.slots.reel_count as int);
    if k == 0 {
        (0, 0)
    } else {
        let (j, i) = lemma_auto_run(a, bs, saves, ts, ss, rs, k - 1);
        assert(frame_ok(bs[k - 1], bs[k], saves[k - 1], ts[k - 1], ss[k - 1], rs[k - 1]));
        lemma_auto_frame(a, bs[k - 1], bs[k], saves[k - 1], ts[k - 1], ss[k - 1], rs[k - 1], j, i);
        if i < m {
            (j, i + 1)
        } else {
            assert((j + 1) * (m + 1) == j * (m + 1) + m + 1) by (nonlinear_arith);
            if j == 9 {
                assert(false);
            }
            (j + 1, 0)
        }
    }
}

/// The auto key runs exactly ten spins: from an idle machine whose bet the
/// chips cover ten times over, with no other key pressed and no blackjack
/// round being paid, the machine spins through every one of the next
/// `10 * (spin_length(n) + 1)` frames on `n` reels and is idle after them,
/// with no auto-spin left, ten bets booked and ten spins counted.
#[verifier::spinoff_prover]
#[verifier::rlimit(50)]
pub proof fn law_auto_runs_ten_spins(
    a: AppView,
    bs: Seq<AppView>,
    saves: Seq<bool>,
    ts: Seq<TableView>,
    ss: Seq<SlotsView>,
    rs: Seq<Option<(i64, i64, bool)>>,
)
    requires
        auto_ready(a),
        auto_at_slots(a, bs[0]),
        bs.len() == rs.len() + 1,
        saves.len() == rs.len() && ts.len() == rs.len() && ss.len() == rs.len(),
        forall|f: int| 0 <= f < rs.len() ==> frame_ok(#[trigger] bs[f], bs[f + 1], saves[f], ts[f], ss[f], rs[f]),
        rs.len() >= 10 * (spin_length(a.slots.reel_count as int) + 1),
    ensures
        forall|k: int|
            0 <= k < 10 * (spin_length(a.slots.reel_count as int) + 1) ==> (#[trigger] bs[k]).slots.spinning,
        auto_done(a, bs[10 * (spin_length(a.slots.reel_count as int) + 1)]),
{
    let m = spin_length(a.slots.reel_count as int);
    let len = 10 * (m + 1);
    lemma_auto_start(a, bs[0]);
    assert forall|k: int| 0 <= k < len implies (#[trigger] bs[k]).slots.spinning by {
        lemma_auto_run(a, bs, saves, ts, ss, rs, k);
    }
    let (j, i) = lemma_auto_run(a, bs, saves, ts, ss, rs, len - 1);
    assert(j == 9 && i == m) by {
        if j < 9 {
            assert(j * (m + 1) + i < 9 * (m + 1) + m) by (nonlinear_arith)
                requires
                    j < 9,
                    0 <= i <= m,
            ;
        }
    }
    assert(frame_ok(bs[len - 1], bs[len], saves[len - 1], ts[len - 1], ss[len - 1], rs[len - 1]));
    lemma_auto_frame(a, bs[len - 1], bs[len], saves[len - 1], ts[len - 1], ss[len - 1], rs[len - 1], j, i);
}

} // verus!

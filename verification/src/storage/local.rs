use vstd::prelude::*;
use vstd::string::*;

use crate::config::{APP_VERSION, START_CHIPS};
use crate::models::player::{OfflinePlayer, PlayerView};
use crate::models::stats::{PlayerStats, StatsView};

verus! {

/// Everything an offline save holds.
#[derive(Debug, Clone)]
pub struct SaveData {
    pub player: OfflinePlayer,
    pub stats: PlayerStats,
    pub version: String,
}

/// A save as a value.
pub struct SaveView {
    pub player: PlayerView,
    pub stats: StatsView,
    pub version: Seq<char>,
}

impl View for SaveData {
    type V = SaveView;

    open spec fn view(&self) -> SaveView {
        SaveView { player: self.player@, stats: self.stats@, version: self.version@ }
    }
}

impl Default for SaveData {
    fn default() -> (d: Self)
        ensures
            d.player.name@ == "Player"@,
            d.player.chips == START_CHIPS,
            d.player.last_daily_claim is None,
            d.stats.is_fresh(),
            d.version@ == APP_VERSION@,
    {
        SaveData {
            player: OfflinePlayer::default(),
            stats: PlayerStats::default(),
            version: String::from_str(APP_VERSION),
        }
    }
}

/// `name` joined onto the path `base`, with a separator unless `base` is
/// empty or already ends in one.
pub open spec fn path_joined(base: Seq<char>, name: Seq<char>) -> Seq<char> {
    if base.len() == 0 || base.last() == '/' {
        base + name
    } else {
        base + seq!['/'] + name
    }
}

/// The folder the offline save lives in, under the user's data folder.
pub open spec fn save_folder(data_dir: Seq<char>) -> Seq<char> {
    path_joined(data_dir, "prox-casino"@)
}

/// Joins `name` onto the path `base`.
pub fn join_path(base: &str, name: &str) -> (p: String)
    ensures
        p@ == path_joined(base@, name@),
{
    let n = base.unicode_len();
    let mut p = String::from_str(base);
    if n > 0 && base.get_char(n - 1) != '/' {
        p.append("/");
        proof {
            reveal_strlit("/");
        }
    }
    p.append(name);
    p
}

/// Where the offline save is kept: `offline_save.json` in its folder.
pub struct SaveStore {
    path: String,
}

impl SaveStore {
    /// The folder the save goes in, under the user's data folder.
    pub fn folder(data_dir: &str) -> (f: String)
        ensures
            f@ == save_folder(data_dir@),
    {
        join_path(data_dir, "prox-casino")
    }

    /// The store in the save folder under `data_dir`.
    pub fn in_dir(data_dir: &str) -> (s: SaveStore)
        ensures
            s.path_spec() == path_joined(save_folder(data_dir@), "offline_save.json"@),
    {
        let folder = Self::folder(data_dir);
        SaveStore { path: join_path(folder.as_str(), "offline_save.json") }
    }

    pub closed spec fn path_spec(&self) -> Seq<char> {
        self.path@
    }

    /// The save file.
    pub fn path(&self) -> (p: &str)
        ensures
            p@ == self.path_spec(),
    {
        self.path.as_str()
    }

    /// The file a save is written to before it replaces the save file: the
    /// same name with `.tmp` after its `.json`.
    pub fn temp_path(&self) -> (p: String)
        ensures
            p@ == self.path_spec() + ".tmp"@,
    {
        let mut p = self.path.clone();
        p.append(".tmp");
        p
    }
}

} // verus!

//! Settings and the choices made from them: which settings the UI may
//! change, what the settings panel shows, whether to back up a database,
//! whether a legacy database may be rescued, which user to preselect.

use vstd::prelude::*;
use crate::text::{chars_of, copy_string, str_eq};

verus! {

/// A setting's stored value as `get_setting` hands it out: an empty value
/// counts as unset.
pub open spec fn setting_of(raw: Option<Seq<char>>) -> Option<Seq<char>> {
    match raw {
        Some(v) => if v.len() == 0 {
            None
        } else {
            Some(v)
        },
        None => None,
    }
}

pub open spec fn opt_view(o: Option<String>) -> Option<Seq<char>> {
    match o {
        Some(s) => Some(s@),
        None => None,
    }
}

/// A stored setting value; `None` when it is unset or empty.
pub fn setting_value(raw: Option<String>) -> (r: Option<String>)
    ensures
        opt_view(r) == setting_of(opt_view(raw)),
{
    match raw {
        Some(v) => {
            let cs = chars_of(v.as_str());
            if cs.len() == 0 {
                None
            } else {
                Some(v)
            }
        },
        None => None,
    }
}

/// A boolean setting: `"true"` is on, any other value off, and an unset
/// setting takes `default`.
pub open spec fn flag_of(value: Option<Seq<char>>, default: bool) -> bool {
    match value {
        Some(v) => v == "true"@,
        None => default,
    }
}

pub fn setting_flag(value: &Option<String>, default: bool) -> (r: bool)
    ensures
        r == flag_of(opt_view(*value), default),
{
    match value {
        Some(v) => str_eq(v.as_str(), "true"),
        None => default,
    }
}

/// The settings that the UI may change.
pub open spec fn user_configurable(key: Seq<char>) -> bool {
    key == "track_deck_history"@ || key == "backup_on_launch"@ || key == "developer_mode"@
}

pub fn is_user_configurable(key: &str) -> (r: bool)
    ensures
        r == user_configurable(key@),
{
    str_eq(key, "track_deck_history") || str_eq(key, "backup_on_launch") || str_eq(
        key,
        "developer_mode",
    )
}

/// The name of the first recent player with this user id.
pub open spec fn name_from(recent: Seq<(Seq<char>, Seq<char>)>, uid: Seq<char>, i: int) -> Option<
    Seq<char>,
>
    decreases recent.len() - i,
{
    if i < 0 || i >= recent.len() {
        None
    } else if recent[i].0 == uid {
        Some(recent[i].1)
    } else {
        name_from(recent, uid, i + 1)
    }
}

pub open spec fn pairs_view(v: Seq<(String, String)>) -> Seq<(Seq<char>, Seq<char>)> {
    v.map_values(|p: (String, String)| (p.0@, p.1@))
}

/// The display name of the user from the recent players list.
pub fn player_name(user_id: &str, recent: &Vec<(String, String)>) -> (r: Option<String>)
    ensures
        opt_view(r) == name_from(pairs_view(recent@), user_id@, 0),
{
    let ghost rv = pairs_view(recent@);
    let mut i: usize = 0;
    while i < recent.len()
        invariant
            i <= recent.len(),
            rv == pairs_view(recent@),
            name_from(rv, user_id@, 0) == name_from(rv, user_id@, i as int),
        decreases recent.len() - i,
    {
        if str_eq(recent[i].0.as_str(), user_id) {
            assert(rv[i as int].0 == user_id@);
            return Some(copy_string(&recent[i].1));
        }
        i = i + 1;
    }
    None
}

/// What the settings panel shows.
pub struct SettingsSnapshot {
    /// The active user's MTGA user id, if one has been seen.
    pub player_id: Option<String>,
    /// The active user's display name, from a recent match.
    pub player_name: Option<String>,
    pub track_deck_history: bool,
    pub backup_on_launch: bool,
    pub developer_mode: bool,
}

pub struct SettingsSnapshotView {
    pub player_id: Option<Seq<char>>,
    pub player_name: Option<Seq<char>>,
    pub track_deck_history: bool,
    pub backup_on_launch: bool,
    pub developer_mode: bool,
}

impl View for SettingsSnapshot {
    type V = SettingsSnapshotView;

    open spec fn view(&self) -> SettingsSnapshotView {
        SettingsSnapshotView {
            player_id: opt_view(self.player_id),
            player_name: opt_view(self.player_name),
            track_deck_history: self.track_deck_history,
            backup_on_launch: self.backup_on_launch,
            developer_mode: self.developer_mode,
        }
    }
}

/// What the active user's database holds for the settings panel.
pub struct StoredSettings {
    /// Recent players (user id, name), newest first.
    pub recent_players: Vec<(String, String)>,
    pub track_deck_history: Option<String>,
    pub backup_on_launch: Option<String>,
    pub developer_mode: Option<String>,
}

/// The settings panel for the active user (if any) and what their database
/// holds (if one is active): tracking and backup default to on, developer
/// mode to off.
pub open spec fn snapshot_of(
    user_id: Option<Seq<char>>,
    stored: Option<(Seq<(Seq<char>, Seq<char>)>, Option<Seq<char>>, Option<Seq<char>>, Option<Seq<char>>)>,
) -> SettingsSnapshotView {
    match stored {
        Some((recent, track, backup, dev)) => SettingsSnapshotView {
            player_id: user_id,
            player_name: match user_id {
                Some(u) => name_from(recent, u, 0),
                None => None,
            },
            track_deck_history: flag_of(track, true),
            backup_on_launch: flag_of(backup, true),
            developer_mode: flag_of(dev, false),
        },
        None => SettingsSnapshotView {
            player_id: user_id,
            player_name: None,
            track_deck_history: true,
            backup_on_launch: true,
            developer_mode: false,
        },
    }
}

pub open spec fn stored_view(s: Option<StoredSettings>) -> Option<
    (Seq<(Seq<char>, Seq<char>)>, Option<Seq<char>>, Option<Seq<char>>, Option<Seq<char>>),
> {
    match s {
        Some(s) => Some(
            (
                pairs_view(s.recent_players@),
                opt_view(s.track_deck_history),
                opt_view(s.backup_on_launch),
                opt_view(s.developer_mode),
            ),
        ),
        None => None,
    }
}

pub fn settings_snapshot(user_id: Option<String>, stored: Option<StoredSettings>) -> (r:
    SettingsSnapshot)
    ensures
        r@ == snapshot_of(opt_view(user_id), stored_view(stored)),
{
    match stored {
        Some(s) => {
            let name = match &user_id {
                Some(u) => player_name(u.as_str(), &s.recent_players),
                None => None,
            };
            SettingsSnapshot {
                player_id: user_id,
                player_name: name,
                track_deck_history: setting_flag(&s.track_deck_history, true),
                backup_on_launch: setting_flag(&s.backup_on_launch, true),
                developer_mode: setting_flag(&s.developer_mode, false),
            }
        },
        None => SettingsSnapshot {
            player_id: user_id,
            player_name: None,
            track_deck_history: true,
            backup_on_launch: true,
            developer_mode: false,
        },
    }
}

/// A legacy single-user database may be copied to this user when the
/// player it records is this user or is unset.
pub open spec fn rescue_allowed(stored_player: Option<Seq<char>>, user_id: Seq<char>) -> bool {
    match stored_player {
        Some(p) => p == user_id,
        None => true,
    }
}

pub fn legacy_rescue_allowed(stored_player: &Option<String>, user_id: &str) -> (r: bool)
    ensures
        r == rescue_allowed(opt_view(*stored_player), user_id@),
{
    match stored_player {
        Some(p) => str_eq(p.as_str(), user_id),
        None => true,
    }
}

/// The newest (modification time, user id) so far: a later entry replaces
/// it only when strictly newer.
pub open spec fn newest_fold(entries: Seq<(i128, Seq<char>)>) -> Option<(i128, Seq<char>)>
    decreases entries.len(),
{
    if entries.len() == 0 {
        None
    } else {
        let prev = newest_fold(entries.drop_last());
        let e = entries.last();
        match prev {
            Some(p) => if e.0 > p.0 {
                Some(e)
            } else {
                Some(p)
            },
            None => Some(e),
        }
    }
}

pub open spec fn entries_view(v: Seq<(i128, String)>) -> Seq<(i128, Seq<char>)> {
    v.map_values(|e: (i128, String)| (e.0, e.1@))
}

/// The user whose database was modified last, among (modification time,
/// user id) entries; the first of equally new ones.
pub fn most_recent_user(entries: &Vec<(i128, String)>) -> (r: Option<String>)
    ensures
        match newest_fold(entries_view(entries@)) {
            Some(e) => opt_view(r) == Some(e.1),
            None => r is None,
        },
{
    let ghost ev = entries_view(entries@);
    let mut best: Option<usize> = None;
    let mut i: usize = 0;
    while i < entries.len()
        invariant
            i <= entries.len(),
            ev == entries_view(entries@),
            match newest_fold(ev.take(i as int)) {
                Some(e) => best matches Some(k) && k < i && ev[k as int] == e,
                None => best is None,
            },
        decreases entries.len() - i,
    {
        proof {
            assert(ev.take(i + 1).drop_last() =~= ev.take(i as int));
        }
        match best {
            Some(k) => {
                if entries[i].0 > entries[k].0 {
                    best = Some(i);
                }
            },
            None => {
                best = Some(i);
            },
        }
        i = i + 1;
    }
    assert(ev.take(ev.len() as int) =~= ev);
    match best {
        Some(k) => Some(copy_string(&entries[k].1)),
        None => None,
    }
}

} // verus!

verus! {

/// Law: the user preselected at startup is one of the users found, and no
/// user's database was modified later than theirs.
pub proof fn law_most_recent_is_newest(entries: Seq<(i128, Seq<char>)>)
    ensures
        entries.len() == 0 <==> newest_fold(entries) is None,
        newest_fold(entries) matches Some(e) ==> entries.contains(e) && forall|i: int|
            0 <= i < entries.len() ==> (#[trigger] entries[i]).0 <= e.0,
    decreases entries.len(),
{
    if entries.len() > 0 {
        let prev = entries.drop_last();
        law_most_recent_is_newest(prev);
        let e = newest_fold(entries)->0;
        assert(entries[entries.len() - 1] == entries.last());
        match newest_fold(prev) {
            Some(p) => {
                let k = choose|k: int| 0 <= k < prev.len() && prev[k] == p;
                assert(entries[k] == p);
                assert forall|i: int| 0 <= i < entries.len() implies (#[trigger] entries[i]).0 <= e.0 by {
                    if i < prev.len() {
                        assert(entries[i] == prev[i]);
                    }
                }
            },
            None => {},
        }
    }
}

} // verus!

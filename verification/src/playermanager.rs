//! The registry of discovered sessions and the arbitration that picks
//! the active one.
//!
//! The platform edge enumerates sessions and hands the result in as a
//! list of [`SessionSnapshot`]s; [`PlayerManager::update_sessions`]
//! synchronizes the registry with it and recomputes the active key under
//! the sticky/priority policy of [`select_active`]. Host notifications
//! are forwarded through the `notify_*` methods into the manager's
//! outbox and drained in order through
//! [`PlayerManager::poll_next_event`].

use crate::player::{Player, PlayerEvent};
use crate::types::{PlaybackStatus, SessionSnapshot};
use vstd::prelude::*;

verus! {

/// Registry-level change notification, delivered in order through the
/// manager's outbox.
#[derive(Clone, Copy, Debug, PartialEq, Eq, Structural)]
pub enum ManagerEvent {
    SessionsChanged,
    ActiveSessionChanged,
    SystemSessionChanged,
}

/// The denylist as a set of key views; no denylist denies nothing.
pub open spec fn denylist_view(denylist: Option<&Vec<String>>) -> Seq<Seq<char>> {
    match denylist {
        Some(d) => key_views(d@),
        None => Seq::empty(),
    }
}

/// A session survives the enumeration filter when its key is non-empty
/// (an identity-less session is never addressable) and not denied.
pub open spec fn admits(deny: Seq<Seq<char>>, s: SessionSnapshot) -> bool {
    s.aumid@.len() > 0 && !deny.contains(s.aumid@)
}

/// The keys of the surviving enumeration entries, in enumeration order,
/// repeats kept.
pub open spec fn admitted_keys(sessions: Seq<SessionSnapshot>, deny: Seq<Seq<char>>) -> Seq<
    Seq<char>,
>
    decreases sessions.len(),
{
    if sessions.len() == 0 {
        Seq::empty()
    } else {
        let rest = admitted_keys(sessions.drop_last(), deny);
        if admits(deny, sessions.last()) {
            rest.push(sessions.last().aumid@)
        } else {
            rest
        }
    }
}

/// The keys of the surviving enumeration entries, first occurrences
/// only: the key set the registry holds after a refresh.
pub open spec fn admitted_unique_keys(sessions: Seq<SessionSnapshot>, deny: Seq<Seq<char>>) -> Seq<
    Seq<char>,
>
    decreases sessions.len(),
{
    if sessions.len() == 0 {
        Seq::empty()
    } else {
        let rest = admitted_unique_keys(sessions.drop_last(), deny);
        if admits(deny, sessions.last()) && !rest.contains(sessions.last().aumid@) {
            rest.push(sessions.last().aumid@)
        } else {
            rest
        }
    }
}

/// Dropping repeats keeps membership.
pub proof fn lemma_admitted_unique_same_members(sessions: Seq<SessionSnapshot>, deny: Seq<Seq<char>>)
    ensures
        forall|k: Seq<char>|
            admitted_unique_keys(sessions, deny).contains(k) <==> admitted_keys(
                sessions,
                deny,
            ).contains(k),
    decreases sessions.len(),
{
    if sessions.len() > 0 {
        lemma_admitted_unique_same_members(sessions.drop_last(), deny);
        assert forall|k: Seq<char>|
            admitted_unique_keys(sessions, deny).contains(k) <==> admitted_keys(
                sessions,
                deny,
            ).contains(k) by {
            let rest_u = admitted_unique_keys(sessions.drop_last(), deny);
            let rest_a = admitted_keys(sessions.drop_last(), deny);
            if admits(deny, sessions.last()) {
                if rest_u.contains(sessions.last().aumid@) {
                    assert(admitted_unique_keys(sessions, deny) == rest_u);
                    if k == sessions.last().aumid@ {
                        assert(admitted_keys(sessions, deny).contains(k)) by {
                            assert(admitted_keys(sessions, deny).last() == k);
                        }
                    } else {
                        assert(rest_a.contains(k) ==> admitted_keys(sessions, deny).contains(k))
                            by {
                            if rest_a.contains(k) {
                                let i = choose|i: int|
                                    0 <= i < rest_a.len() && rest_a[i] == k;
                                assert(admitted_keys(sessions, deny)[i] == k);
                            }
                        }
                        assert(admitted_keys(sessions, deny).contains(k) ==> rest_a.contains(k))
                            by {
                            if admitted_keys(sessions, deny).contains(k) {
                                let i = choose|i: int|
                                    0 <= i < admitted_keys(sessions, deny).len()
                                        && admitted_keys(sessions, deny)[i] == k;
                                if i < rest_a.len() {
                                    assert(rest_a[i] == k);
                                } else {
                                    assert(k == sessions.last().aumid@);
                                }
                            }
                        }
                    }
                } else {
                    lemma_push_contains(rest_u, sessions.last().aumid@, k);
                    lemma_push_contains(rest_a, sessions.last().aumid@, k);
                }
            }
        }
    }
}

/// Membership in a pushed sequence: the old members plus the new one.
pub proof fn lemma_push_contains<A>(s: Seq<A>, x: A, k: A)
    ensures
        s.push(x).contains(k) <==> (s.contains(k) || k == x),
{
    if s.push(x).contains(k) {
        let i = choose|i: int| 0 <= i < s.push(x).len() && s.push(x)[i] == k;
        if i < s.len() {
            assert(s[i] == k);
        }
    }
    if s.contains(k) {
        let i = choose|i: int| 0 <= i < s.len() && s[i] == k;
        assert(s.push(x)[i] == k);
    }
    if k == x {
        assert(s.push(x)[s.len() as int] == k);
    }
}

/// A denied key never survives the filter.
pub proof fn lemma_denied_key_not_admitted(
    sessions: Seq<SessionSnapshot>,
    deny: Seq<Seq<char>>,
    k: Seq<char>,
)
    requires
        deny.contains(k),
    ensures
        !admitted_keys(sessions, deny).contains(k),
    decreases sessions.len(),
{
    if sessions.len() > 0 {
        lemma_denied_key_not_admitted(sessions.drop_last(), deny, k);
        let rest = admitted_keys(sessions.drop_last(), deny);
        if admits(deny, sessions.last()) {
            lemma_push_contains(rest, sessions.last().aumid@, k);
        }
    }
}

/// The first surviving enumeration entry whose transport is playing, if
/// any; `present` is the set of keys the registry holds.
pub open spec fn first_playing_key(sessions: Seq<SessionSnapshot>, present: Seq<Seq<char>>) -> Option<
    Seq<char>,
>
    decreases sessions.len(),
{
    if sessions.len() == 0 {
        None
    } else if sessions.first().aumid@.len() > 0 && present.contains(sessions.first().aumid@)
        && sessions.first().status is Playing {
        Some(sessions.first().aumid@)
    } else {
        first_playing_key(sessions.drop_first(), present)
    }
}

/// The first surviving enumeration entry present in the registry, if
/// any: the deterministic tie-break of last resort.
pub open spec fn first_present_key(sessions: Seq<SessionSnapshot>, present: Seq<Seq<char>>) -> Option<
    Seq<char>,
>
    decreases sessions.len(),
{
    if sessions.len() == 0 {
        None
    } else if sessions.first().aumid@.len() > 0 && present.contains(sessions.first().aumid@) {
        Some(sessions.first().aumid@)
    } else {
        first_present_key(sessions.drop_first(), present)
    }
}

/// The arbitration policy: the first match of (a) the previous active
/// key, if still present (sticky), (b) the host-designated system key,
/// if present, (c) the first playing candidate in enumeration order,
/// (d) the first present candidate in enumeration order; `None` only
/// when nothing is present.
pub open spec fn select_active(
    prev: Option<Seq<char>>,
    system: Option<Seq<char>>,
    sessions: Seq<SessionSnapshot>,
    present: Seq<Seq<char>>,
) -> Option<Seq<char>> {
    if prev matches Some(p) && present.contains(p) {
        prev
    } else if system matches Some(s) && present.contains(s) {
        system
    } else if first_playing_key(sessions, present) is Some {
        first_playing_key(sessions, present)
    } else {
        first_present_key(sessions, present)
    }
}

/// The views of a list of key strings.
pub open spec fn key_views(keys: Seq<String>) -> Seq<Seq<char>> {
    keys.map_values(|s: String| s@)
}

/// The registry keys, in the order the entries are held.
pub open spec fn player_keys_of(players: Seq<Player>) -> Seq<Seq<char>> {
    players.map_values(|p: Player| p.aumid@)
}

/// A key list holds a key exactly when some entry carries it.
pub proof fn lemma_player_keys_contains(players: Seq<Player>, k: Seq<char>)
    ensures
        player_keys_of(players).contains(k) <==> (exists|i: int|
            0 <= i < players.len() && #[trigger] players[i].aumid@ == k),
{
    if player_keys_of(players).contains(k) {
        let i = choose|i: int|
            0 <= i < player_keys_of(players).len() && player_keys_of(players)[i] == k;
        assert(players[i].aumid@ == k);
    }
    if exists|i: int| 0 <= i < players.len() && #[trigger] players[i].aumid@ == k {
        let i = choose|i: int| 0 <= i < players.len() && #[trigger] players[i].aumid@ == k;
        assert(player_keys_of(players)[i] == k);
    }
}

/// No two registry entries share a key.
pub open spec fn unique_keys(players: Seq<Player>) -> bool {
    forall|i: int, j: int|
        0 <= i < j < players.len() ==> players[i].aumid@ != players[j].aumid@
}

/// The registry entry with the given key: the first match, which under
/// [`unique_keys`] is the only one.
pub open spec fn lookup_player(players: Seq<Player>, k: Seq<char>) -> Option<Player>
    decreases players.len(),
{
    if players.len() == 0 {
        None
    } else if players.first().aumid@ == k {
        Some(players.first())
    } else {
        lookup_player(players.drop_first(), k)
    }
}

/// A lookup succeeds exactly when some entry carries the key, and what
/// it returns is such an entry.
pub proof fn lemma_lookup_player_props(players: Seq<Player>, k: Seq<char>)
    ensures
        (lookup_player(players, k) is Some) <==> (exists|i: int|
            0 <= i < players.len() && #[trigger] players[i].aumid@ == k),
        lookup_player(players, k) matches Some(p) ==> (p.aumid@ == k && exists|i: int|
            0 <= i < players.len() && players[i] == p),
    decreases players.len(),
{
    if players.len() > 0 {
        lemma_lookup_player_props(players.drop_first(), k);
        if players.first().aumid@ == k {
            assert(players[0].aumid@ == k);
        } else {
            if exists|i: int| 0 <= i < players.len() && #[trigger] players[i].aumid@ == k {
                let i = choose|i: int| 0 <= i < players.len() && #[trigger] players[i].aumid@ == k;
                assert(players.drop_first()[i - 1].aumid@ == k);
            }
            if exists|i: int|
                0 <= i < players.drop_first().len() && #[trigger] players.drop_first()[i].aumid@
                    == k {
                let i = choose|i: int|
                    0 <= i < players.drop_first().len() && #[trigger] players.drop_first()[i].aumid@
                        == k;
                assert(players[i + 1].aumid@ == k);
            }
            match lookup_player(players, k) {
                Some(p) => {
                    let i = choose|i: int|
                        0 <= i < players.drop_first().len() && players.drop_first()[i] == p;
                    assert(players[i + 1] == p);
                },
                None => {},
            }
        }
    }
}

/// Looking up after a push: an existing entry wins over the pushed one.
pub proof fn lemma_lookup_player_push(players: Seq<Player>, p: Player, k: Seq<char>)
    ensures
        lookup_player(players.push(p), k) == (if lookup_player(players, k) is Some {
            lookup_player(players, k)
        } else if p.aumid@ == k {
            Some(p)
        } else {
            None::<Player>
        }),
    decreases players.len(),
{
    if players.len() == 0 {
        assert(players.push(p).drop_first() =~= Seq::<Player>::empty());
    } else {
        assert(players.push(p).first() == players.first());
        assert(players.push(p).drop_first() =~= players.drop_first().push(p));
        lemma_lookup_player_push(players.drop_first(), p, k);
    }
}

/// Looking up after removing entry `i`, when no earlier entry shares
/// its key: the removed key is gone, every other key unchanged.
pub proof fn lemma_lookup_player_remove(players: Seq<Player>, i: int, k: Seq<char>)
    requires
        0 <= i < players.len(),
        forall|j: int| 0 <= j < i ==> players[j].aumid@ != players[i].aumid@,
        forall|j: int| i < j < players.len() ==> players[j].aumid@ != players[i].aumid@,
    ensures
        lookup_player(players.remove(i), k) == (if players[i].aumid@ == k {
            None::<Player>
        } else {
            lookup_player(players, k)
        }),
    decreases players.len(),
{
    if i == 0 {
        assert(players.remove(0) =~= players.drop_first());
        if players[0].aumid@ == k {
            lemma_lookup_player_props(players.drop_first(), k);
            assert forall|j: int| 0 <= j < players.drop_first().len() implies players.drop_first()[j].aumid@
                != k by {
                assert(players.drop_first()[j] == players[j + 1]);
            }
            if lookup_player(players.drop_first(), k) is Some {
                let w = choose|w: int|
                    0 <= w < players.drop_first().len() && #[trigger] players.drop_first()[w].aumid@
                        == k;
                assert(false);
            }
        }
    } else {
        assert(players.remove(i).first() == players.first());
        assert(players.remove(i).drop_first() =~= players.drop_first().remove(i - 1));
        assert forall|j: int| 0 <= j < i - 1 implies (#[trigger] players.drop_first()[j]).aumid@
            != players.drop_first()[i - 1].aumid@ by {
            assert(players.drop_first()[j] == players[j + 1]);
            assert(players.drop_first()[i - 1] == players[i]);
        }
        assert forall|j: int|
            i - 1 < j < players.drop_first().len() implies (#[trigger] players.drop_first()[j]).aumid@
            != players.drop_first()[i - 1].aumid@ by {
            assert(players.drop_first()[j] == players[j + 1]);
            assert(players.drop_first()[i - 1] == players[i]);
        }
        lemma_lookup_player_remove(players.drop_first(), i - 1, k);
    }
}

/// Looking up after replacing entry `i` by one with the same key, when
/// no earlier entry shares that key: the new entry under that key,
/// every other key unchanged.
pub proof fn lemma_lookup_player_update(players: Seq<Player>, i: int, p2: Player, k: Seq<char>)
    requires
        0 <= i < players.len(),
        forall|j: int| 0 <= j < i ==> players[j].aumid@ != players[i].aumid@,
        p2.aumid@ == players[i].aumid@,
    ensures
        lookup_player(players.update(i, p2), k) == (if k == players[i].aumid@ {
            Some(p2)
        } else {
            lookup_player(players, k)
        }),
    decreases players.len(),
{
    if i == 0 {
        assert(players.update(0, p2).first() == p2);
        if k != players[0].aumid@ {
            assert(players.update(0, p2).drop_first() =~= players.drop_first());
        }
    } else {
        assert(players.update(i, p2).first() == players.first());
        assert(players.update(i, p2).drop_first() =~= players.drop_first().update(i - 1, p2));
        assert forall|j: int| 0 <= j < i - 1 implies (#[trigger] players.drop_first()[j]).aumid@
            != players.drop_first()[i - 1].aumid@ by {
            assert(players.drop_first()[j] == players[j + 1]);
            assert(players.drop_first()[i - 1] == players[i]);
        }
        assert(players.drop_first()[i - 1] == players[i]);
        lemma_lookup_player_update(players.drop_first(), i - 1, p2, k);
    }
}

/// The first entry carrying `k`, when no earlier entry does, is what a
/// lookup returns.
pub proof fn lemma_lookup_first_match(players: Seq<Player>, i: int, k: Seq<char>)
    requires
        0 <= i < players.len(),
        players[i].aumid@ == k,
        forall|j: int| 0 <= j < i ==> players[j].aumid@ != k,
    ensures
        lookup_player(players, k) == Some(players[i]),
    decreases i,
{
    if i > 0 {
        assert(players[0].aumid@ != k);
        assert forall|j: int| 0 <= j < i - 1 implies (#[trigger] players.drop_first()[j]).aumid@
            != k by {
            assert(players.drop_first()[j] == players[j + 1]);
        }
        assert(players.drop_first()[i - 1] == players[i]);
        lemma_lookup_first_match(players.drop_first(), i - 1, k);
    }
}

/// A key list holds a key exactly when one of its strings reads as it.
pub proof fn lemma_key_views_contains(keys: Seq<String>, k: Seq<char>)
    ensures
        key_views(keys).contains(k) <==> (exists|i: int|
            0 <= i < keys.len() && (#[trigger] keys[i])@ == k),
{
    if key_views(keys).contains(k) {
        let i = choose|i: int| 0 <= i < key_views(keys).len() && key_views(keys)[i] == k;
        assert(keys[i]@ == k);
    }
    if exists|i: int| 0 <= i < keys.len() && (#[trigger] keys[i])@ == k {
        let i = choose|i: int| 0 <= i < keys.len() && (#[trigger] keys[i])@ == k;
        assert(key_views(keys)[i] == k);
    }
}

/// Whether a key is on the denylist.
#[verifier::loop_isolation(false)]
fn is_denylisted(denylist: Option<&Vec<String>>, aumid: &String) -> (r: bool)
    ensures
        r == denylist_view(denylist).contains(aumid@),
{
    match denylist {
        Some(d) => {
            proof {
                lemma_key_views_contains(d@, aumid@);
            }
            let mut i: usize = 0;
            while i < d.len()
                invariant
                    i <= d.len(),
                    forall|j: int| 0 <= j < i ==> (#[trigger] d@[j])@ != aumid@,
                decreases d.len() - i,
            {
                if d[i].eq(aumid) {
                    proof {
                        assert(key_views(d@)[i as int] == aumid@);
                    }
                    return true;
                }
                i += 1;
            }
            false
        },
        None => false,
    }
}

/// The position of the first entry carrying the key, if any.
fn find_player(players: &Vec<Player>, aumid: &String) -> (r: Option<usize>)
    ensures
        r matches Some(i) ==> (i < players@.len() && players@[i as int].aumid@ == aumid@ && (forall|
            j: int,
        |
            0 <= j < i ==> (#[trigger] players@[j]).aumid@ != aumid@)),
        r is None ==> (forall|j: int|
            0 <= j < players@.len() ==> (#[trigger] players@[j]).aumid@ != aumid@),
    {
    let mut i: usize = 0;
    while i < players.len()
        invariant
            i <= players.len(),
            forall|j: int| 0 <= j < i ==> (#[trigger] players@[j]).aumid@ != aumid@,
        decreases players.len() - i,
    {
        if players[i].aumid.eq(aumid) {
            return Some(i);
        }
        i += 1;
    }
    None
}

/// Removes and returns the entry carrying the key, leaving every other
/// entry in place.
fn take_player(players: &mut Vec<Player>, aumid: &String) -> (r: Option<Player>)
    requires
        unique_keys(old(players)@),
    ensures
        unique_keys(final(players)@),
        r matches Some(p) ==> lookup_player(old(players)@, aumid@) == Some(p),
        r is None ==> (lookup_player(old(players)@, aumid@) is None && *final(players) == *old(
            players,
        )),
        lookup_player(final(players)@, aumid@) is None,
        forall|k: Seq<char>|
            k != aumid@ ==> #[trigger] lookup_player(final(players)@, k) == lookup_player(
                old(players)@,
                k,
            ),
{
    match find_player(players, aumid) {
        Some(i) => {
            proof {
                lemma_lookup_first_match(players@, i as int, aumid@);
            }
            let ghost pre = players@;
            let p = players.remove(i);
            proof {
                pre.remove_ensures(i as int);
                assert forall|a: int, b: int|
                    0 <= a < b < final(players)@.len() implies (#[trigger] final(players)@[a]).aumid@
                    != (#[trigger] final(players)@[b]).aumid@ by {
                    let a0: int = if a < i { a } else { a + 1 };
                    let b0: int = if b < i { b } else { b + 1 };
                    assert(final(players)@[a] == pre[a0] && final(players)@[b] == pre[b0]);
                }
                assert forall|k: Seq<char>| true implies #[trigger] lookup_player(
                    final(players)@,
                    k,
                ) == (if pre[i as int].aumid@ == k {
                    None::<Player>
                } else {
                    lookup_player(pre, k)
                }) by {
                    lemma_lookup_player_remove(pre, i as int, k);
                }
            }
            Some(p)
        },
        None => {
            proof {
                lemma_lookup_player_props(players@, aumid@);
            }
            None
        },
    }
}

/// Whether two optional keys read the same.
fn opt_string_eq(a: &Option<String>, b: &Option<String>) -> (r: bool)
    ensures
        r == (key_view_opt(*a) == key_view_opt(*b)),
{
    match (a, b) {
        (Some(x), Some(y)) => x.eq(y),
        (None, None) => true,
        _ => false,
    }
}

/// The view of an optional key string.
pub open spec fn key_view_opt(s: Option<String>) -> Option<Seq<char>> {
    match s {
        Some(x) => Some(x@),
        None => None,
    }
}

/// The arbitration state: the discovered sessions keyed by application
/// identity, the active and system keys, and the outbox of pending
/// registry events, oldest first.
pub struct PlayerManager {
    pub players: Vec<Player>,
    pub active_player_key: Option<String>,
    pub system_player_key: Option<String>,
    pub events: Vec<ManagerEvent>,
}

impl PlayerManager {
    pub open spec fn player_keys(self) -> Seq<Seq<char>> {
        player_keys_of(self.players@)
    }

    pub open spec fn contains_key(self, k: Seq<char>) -> bool {
        self.player_keys().contains(k)
    }

    pub open spec fn active_key(self) -> Option<Seq<char>> {
        match self.active_player_key {
            Some(s) => Some(s@),
            None => None,
        }
    }

    pub open spec fn system_key(self) -> Option<Seq<char>> {
        match self.system_player_key {
            Some(s) => Some(s@),
            None => None,
        }
    }

    /// Registry invariant: keys are unique, and the active key, when
    /// present, names a held entry. The system key is not so bound: it
    /// may name a session the registry filtered out.
    pub open spec fn wf(self) -> bool {
        &&& unique_keys(self.players@)
        &&& (self.active_key() matches Some(k) ==> self.contains_key(k))
    }

    /// A fresh registry: empty, with one `SessionsChanged` already in
    /// the outbox so the consumer performs the first enumeration.
    pub fn new() -> (m: PlayerManager)
        ensures
            m.wf(),
            m.players@ == Seq::<Player>::empty(),
            m.active_player_key is None,
            m.system_player_key is None,
            m.events@ == seq![ManagerEvent::SessionsChanged],
    {
        let mut events: Vec<ManagerEvent> = Vec::new();
        events.push(ManagerEvent::SessionsChanged);
        PlayerManager {
            players: Vec::new(),
            active_player_key: None,
            system_player_key: None,
            events,
        }
    }

    /// Takes the oldest pending registry event out of the outbox, or
    /// returns `None` when there is none.
    pub fn poll_next_event(&mut self) -> (r: Option<ManagerEvent>)
        ensures
            old(self).events@.len() == 0 ==> (r is None && *final(self) == *old(self)),
            old(self).events@.len() > 0 ==> (r == Some(old(self).events@[0])
                && final(self).events@ == old(self).events@.drop_first()),
            final(self).players == old(self).players,
            final(self).active_player_key == old(self).active_player_key,
            final(self).system_player_key == old(self).system_player_key,
    {
        if self.events.len() == 0 {
            None
        } else {
            let e = self.events.remove(0);
            assert(final(self).events@ =~= old(self).events@.drop_first());
            Some(e)
        }
    }

    /// Called by the platform edge when the host reports that the
    /// session population changed.
    pub fn notify_sessions_changed(&mut self)
        ensures
            final(self).events@ == old(self).events@.push(ManagerEvent::SessionsChanged),
            final(self).players == old(self).players,
            final(self).active_player_key == old(self).active_player_key,
            final(self).system_player_key == old(self).system_player_key,
    {
        self.events.push(ManagerEvent::SessionsChanged);
    }

    /// Called by the platform edge when the host reports that its
    /// current-session designation changed.
    pub fn notify_system_session_changed(&mut self)
        ensures
            final(self).events@ == old(self).events@.push(ManagerEvent::SystemSessionChanged),
            final(self).players == old(self).players,
            final(self).active_player_key == old(self).active_player_key,
            final(self).system_player_key == old(self).system_player_key,
    {
        self.events.push(ManagerEvent::SystemSessionChanged);
    }

    /// Records the host's current-session designation, as read by the
    /// platform edge: the key when the read succeeded with a non-empty
    /// identity, `None` otherwise. A failed read of the designation
    /// itself is not reported here; the edge leaves the state alone.
    pub fn update_system_session(&mut self, current: Option<String>)
        ensures
            final(self).system_player_key == (match current {
                Some(aumid) => if aumid@.len() > 0 {
                    Some(aumid)
                } else {
                    None::<String>
                },
                None => None::<String>,
            }),
            final(self).players == old(self).players,
            final(self).active_player_key == old(self).active_player_key,
            final(self).events == old(self).events,
    {
        self.system_player_key = None;
        if let Some(aumid) = current {
            if !aumid.as_str().is_empty() {
                self.system_player_key = Some(aumid);
            }
        }
    }

    /// Returns the keys of every held session, in registry order.
    pub fn get_sessions_keys(&self) -> (r: Vec<String>)
        ensures
            r@.len() == self.players@.len(),
            forall|i: int| 0 <= i < r@.len() ==> (#[trigger] r@[i])@ == self.players@[i].aumid@,
    {
        let mut keys: Vec<String> = Vec::new();
        let mut i: usize = 0;
        while i < self.players.len()
            invariant
                i <= self.players.len(),
                keys@.len() == i,
                forall|j: int| 0 <= j < i ==> (#[trigger] keys@[j])@ == self.players@[j].aumid@,
            decreases self.players.len() - i,
        {
            keys.push(self.players[i].aumid.clone());
            i += 1;
        }
        keys
    }

    /// Looks a session up by key; `None` exactly when no held session
    /// carries it.
    pub fn get_session(&self, aumid: &String) -> (r: Option<&Player>)
        ensures
            r is Some <==> self.contains_key(aumid@),
            r matches Some(p) ==> lookup_player(self.players@, aumid@) == Some(*p),
    {
        proof {
            lemma_lookup_player_props(self.players@, aumid@);
            lemma_player_keys_contains(self.players@, aumid@);
        }
        let mut i: usize = 0;
        while i < self.players.len()
            invariant
                i <= self.players.len(),
                forall|j: int| 0 <= j < i ==> (#[trigger] self.players@[j]).aumid@ != aumid@,
            decreases self.players.len() - i,
        {
            if self.players[i].aumid.eq(aumid) {
                proof {
                    lemma_lookup_first_match(self.players@, i as int, aumid@);
                    assert(self.players@[i as int].aumid@ == aumid@);
                    assert(self.contains_key(aumid@)) by {
                        assert(player_keys_of(self.players@)[i as int] == aumid@);
                    }
                }
                return Some(&self.players[i]);
            }
            i += 1;
        }
        None
    }

    /// The active session, when one is selected; under [`wf`] the
    /// active key always resolves.
    pub fn get_active_session(&self) -> (r: Option<&Player>)
        requires
            self.wf(),
        ensures
            r is Some <==> self.active_player_key is Some,
            r matches Some(p) ==> (self.active_key() matches Some(k) && lookup_player(
                self.players@,
                k,
            ) == Some(*p)),
    {
        match &self.active_player_key {
            Some(k) => self.get_session(k),
            None => None,
        }
    }

    /// Recomputes the active key by the policy of [`select_active`],
    /// with `preferred` as the sticky previous choice and `sessions` as
    /// the enumeration the scans go by, and emits
    /// `ActiveSessionChanged` exactly when the outcome differs from the
    /// current active key.
    #[verifier::loop_isolation(false)]
    fn update_active_player(&mut self, preferred: Option<String>, sessions: &Vec<SessionSnapshot>)
        requires
            unique_keys(old(self).players@),
        ensures
            final(self).wf(),
            final(self).players == old(self).players,
            final(self).system_player_key == old(self).system_player_key,
            final(self).active_key() == select_active(
                key_view_opt(preferred),
                old(self).system_key(),
                sessions@,
                old(self).player_keys(),
            ),
            final(self).events@ == old(self).events@ + (if final(self).active_key() == old(
                self,
            ).active_key() {
                Seq::<ManagerEvent>::empty()
            } else {
                seq![ManagerEvent::ActiveSessionChanged]
            }),
    {
        let ghost present = self.player_keys();
        let ghost pv = key_view_opt(preferred);
        let ghost sysv = self.system_key();
        let ghost sel = select_active(pv, sysv, sessions@, present);
        let ghost sticky_hit = pv matches Some(k) && present.contains(k);
        let ghost system_hit = sysv matches Some(k) && present.contains(k);
        let n = sessions.len();

        let mut candidate: Option<String> = None;
        match preferred {
            Some(p) => {
                let found = find_player(&self.players, &p).is_some();
                proof {
                    lemma_player_keys_contains(self.players@, p@);
                }
                if found {
                    candidate = Some(p);
                }
            },
            None => {},
        }
        assert(sticky_hit ==> key_view_opt(candidate) == pv);
        assert(!sticky_hit ==> candidate is None);

        if candidate.is_none() {
            if let Some(s) = &self.system_player_key {
                let found = find_player(&self.players, s).is_some();
                proof {
                    lemma_player_keys_contains(self.players@, s@);
                }
                if found {
                    candidate = Some(s.clone());
                }
            }
        }
        assert(!sticky_hit && system_hit ==> key_view_opt(candidate) == sysv);
        assert(!sticky_hit && !system_hit ==> candidate is None);

        if candidate.is_none() {
            proof {
                assert(sessions@.subrange(0, sessions@.len() as int) =~= sessions@);
            }
            let mut i: usize = 0;
            while i < n && candidate.is_none()
                invariant
                    i <= n,
                    candidate is None ==> first_playing_key(sessions@, present)
                        == first_playing_key(
                        sessions@.subrange(i as int, sessions@.len() as int),
                        present,
                    ),
                    candidate matches Some(c) ==> (first_playing_key(sessions@, present) == Some(
                        c@,
                    ) && present.contains(c@)),
                decreases sessions@.len() - i,
            {
                let s = &sessions[i];
                let nonempty = !s.aumid.as_str().is_empty();
                let here = find_player(&self.players, &s.aumid).is_some();
                proof {
                    lemma_player_keys_contains(self.players@, s.aumid@);
                    assert(sessions@.subrange(i as int, sessions@.len() as int).first()
                        == sessions@[i as int]);
                }
                if nonempty && here && matches!(s.status, PlaybackStatus::Playing) {
                    candidate = Some(s.aumid.clone());
                } else {
                    proof {
                        assert(sessions@.subrange(i as int, sessions@.len() as int).drop_first()
                            =~= sessions@.subrange(i as int + 1, sessions@.len() as int));
                    }
                }
                i += 1;
            }
        }
        assert(!sticky_hit && !system_hit ==> (match first_playing_key(sessions@, present) {
            Some(k) => key_view_opt(candidate) == Some(k),
            None => candidate is None,
        }));

        if candidate.is_none() {
            proof {
                assert(sessions@.subrange(0, sessions@.len() as int) =~= sessions@);
            }
            let mut i: usize = 0;
            while i < n && candidate.is_none()
                invariant
                    i <= n,
                    candidate is None ==> first_present_key(sessions@, present) == first_present_key(
                        sessions@.subrange(i as int, sessions@.len() as int),
                        present,
                    ),
                    candidate matches Some(c) ==> (first_present_key(sessions@, present) == Some(c@)
                        && present.contains(c@)),
                decreases sessions@.len() - i,
            {
                let s = &sessions[i];
                let nonempty = !s.aumid.as_str().is_empty();
                let here = find_player(&self.players, &s.aumid).is_some();
                proof {
                    lemma_player_keys_contains(self.players@, s.aumid@);
                    assert(sessions@.subrange(i as int, sessions@.len() as int).first()
                        == sessions@[i as int]);
                }
                if nonempty && here {
                    candidate = Some(s.aumid.clone());
                } else {
                    proof {
                        assert(sessions@.subrange(i as int, sessions@.len() as int).drop_first()
                            =~= sessions@.subrange(i as int + 1, sessions@.len() as int));
                    }
                }
                i += 1;
            }
        }
        assert(key_view_opt(candidate) == sel);
        assert(key_view_opt(candidate) matches Some(k) ==> present.contains(k));

        let changed = !opt_string_eq(&self.active_player_key, &candidate);
        self.active_player_key = candidate;
        if changed {
            self.events.push(ManagerEvent::ActiveSessionChanged);
            assert(final(self).events@ =~= old(self).events@ + seq![
                ManagerEvent::ActiveSessionChanged,
            ]);
        } else {
            assert(final(self).events@ =~= old(self).events@ + Seq::<ManagerEvent>::empty());
        }
    }

    /// Delivers one host change notification into the named session's
    /// outbox; reports whether the session is held. Everything else,
    /// the session's identity and cached name included, stays as it
    /// was.
    pub fn notify_player_event(&mut self, aumid: &String, event: PlayerEvent) -> (delivered: bool)
        requires
            old(self).wf(),
        ensures
            final(self).wf(),
            delivered == old(self).contains_key(aumid@),
            !delivered ==> *final(self) == *old(self),
            delivered ==> ({
                &&& final(self).player_keys() == old(self).player_keys()
                &&& forall|k: Seq<char>|
                    k != aumid@ ==> #[trigger] lookup_player(final(self).players@, k)
                        == lookup_player(old(self).players@, k)
                &&& match (
                    lookup_player(old(self).players@, aumid@),
                    lookup_player(final(self).players@, aumid@),
                ) {
                    (Some(q), Some(p)) => p.aumid == q.aumid && p.friendly_name == q.friendly_name
                        && p.events@ == q.events@.push(event),
                    _ => false,
                }
                &&& final(self).active_player_key == old(self).active_player_key
                &&& final(self).system_player_key == old(self).system_player_key
                &&& final(self).events == old(self).events
            }),
    {
        proof {
            lemma_player_keys_contains(self.players@, aumid@);
        }
        match find_player(&self.players, aumid) {
            None => false,
            Some(i) => {
                proof {
                    lemma_lookup_first_match(self.players@, i as int, aumid@);
                }
                let ghost pre = self.players@;
                let p = &mut self.players[i];
                p.notify_event(event);
                proof {
                    self.lemma_same_key_entry_replaced(pre, i as int, aumid@);
                }
                true
            },
        }
    }

    /// Takes the oldest pending notification out of the named session's
    /// outbox; `None` when the session is not held or its outbox is
    /// empty.
    pub fn poll_player_event(&mut self, aumid: &String) -> (r: Option<PlayerEvent>)
        requires
            old(self).wf(),
        ensures
            final(self).wf(),
            !old(self).contains_key(aumid@) ==> (r is None && *final(self) == *old(self)),
            old(self).contains_key(aumid@) ==> ({
                &&& final(self).player_keys() == old(self).player_keys()
                &&& forall|k: Seq<char>|
                    k != aumid@ ==> #[trigger] lookup_player(final(self).players@, k)
                        == lookup_player(old(self).players@, k)
                &&& match (
                    lookup_player(old(self).players@, aumid@),
                    lookup_player(final(self).players@, aumid@),
                ) {
                    (Some(q), Some(p)) => {
                        &&& p.aumid == q.aumid
                        &&& p.friendly_name == q.friendly_name
                        &&& (q.events@.len() == 0 ==> (r is None && p.events == q.events))
                        &&& (q.events@.len() > 0 ==> (r == Some(q.events@[0]) && p.events@
                            == q.events@.drop_first()))
                    },
                    _ => false,
                }
                &&& final(self).active_player_key == old(self).active_player_key
                &&& final(self).system_player_key == old(self).system_player_key
                &&& final(self).events == old(self).events
            }),
    {
        proof {
            lemma_player_keys_contains(self.players@, aumid@);
        }
        match find_player(&self.players, aumid) {
            None => None,
            Some(i) => {
                proof {
                    lemma_lookup_first_match(self.players@, i as int, aumid@);
                }
                let ghost pre = self.players@;
                let p = &mut self.players[i];
                let r = p.poll_next_event();
                proof {
                    self.lemma_same_key_entry_replaced(pre, i as int, aumid@);
                }
                r
            },
        }
    }

    /// Caches a resolved display name on the named session, as
    /// [`Player::populate_friendly_name`] does; a name already present
    /// stays.
    pub fn populate_player_friendly_name(&mut self, aumid: &String, resolved: Option<String>)
        requires
            old(self).wf(),
        ensures
            final(self).wf(),
            !old(self).contains_key(aumid@) ==> *final(self) == *old(self),
            old(self).contains_key(aumid@) ==> ({
                &&& final(self).player_keys() == old(self).player_keys()
                &&& forall|k: Seq<char>|
                    k != aumid@ ==> #[trigger] lookup_player(final(self).players@, k)
                        == lookup_player(old(self).players@, k)
                &&& match (
                    lookup_player(old(self).players@, aumid@),
                    lookup_player(final(self).players@, aumid@),
                ) {
                    (Some(q), Some(p)) => p.aumid == q.aumid && p.events == q.events
                        && p.friendly_name == (if q.friendly_name is Some {
                        q.friendly_name
                    } else {
                        resolved
                    }),
                    _ => false,
                }
                &&& final(self).active_player_key == old(self).active_player_key
                &&& final(self).system_player_key == old(self).system_player_key
                &&& final(self).events == old(self).events
            }),
    {
        proof {
            lemma_player_keys_contains(self.players@, aumid@);
        }
        match find_player(&self.players, aumid) {
            None => {},
            Some(i) => {
                proof {
                    lemma_lookup_first_match(self.players@, i as int, aumid@);
                }
                let ghost pre = self.players@;
                let p = &mut self.players[i];
                p.populate_friendly_name(resolved);
                proof {
                    self.lemma_same_key_entry_replaced(pre, i as int, aumid@);
                }
            },
        }
    }

    /// After replacing the first entry that carries `k` by one with the
    /// same key: the key list is unchanged, keys stay unique, and every
    /// lookup but `k`'s is untouched.
    proof fn lemma_same_key_entry_replaced(self, pre: Seq<Player>, i: int, k: Seq<char>)
        requires
            0 <= i < pre.len(),
            pre[i].aumid@ == k,
            forall|j: int| 0 <= j < i ==> (#[trigger] pre[j]).aumid@ != k,
            unique_keys(pre),
            self.players@ == pre.update(i, self.players@[i]),
            self.players@[i].aumid@ == k,
        ensures
            unique_keys(self.players@),
            player_keys_of(self.players@) == player_keys_of(pre),
            lookup_player(self.players@, k) == Some(self.players@[i]),
            forall|q: Seq<char>|
                q != k ==> #[trigger] lookup_player(self.players@, q) == lookup_player(pre, q),
    {
        let cur = self.players@;
        let np = cur[i];
        assert forall|q: Seq<char>| true implies #[trigger] lookup_player(cur, q) == (if q == k {
            Some(np)
        } else {
            lookup_player(pre, q)
        }) by {
            lemma_lookup_player_update(pre, i, np, q);
        }
        assert(player_keys_of(cur) =~= player_keys_of(pre));
        assert forall|a: int, b: int| 0 <= a < b < cur.len() implies (#[trigger] cur[a]).aumid@
            != (#[trigger] cur[b]).aumid@ by {
            assert(player_keys_of(cur)[a] == cur[a].aumid@ && player_keys_of(pre)[a]
                == pre[a].aumid@);
            assert(player_keys_of(cur)[b] == cur[b].aumid@ && player_keys_of(pre)[b]
                == pre[b].aumid@);
        }
    }

    /// Re-synchronizes the session population with one enumeration pass
    /// and recomputes the active key.
    ///
    /// Enumeration entries with an empty key or a denied key are
    /// skipped. A surviving key already in the registry keeps its entry
    /// untouched (idempotent re-discovery); an unseen key gets a fresh
    /// entry; a held key the pass no longer reports is dropped. The
    /// active key is then re-selected by [`select_active`] with the
    /// previous active key as the sticky choice, and
    /// `ActiveSessionChanged` is emitted exactly when it changed - also
    /// on the transition to `None`.
    #[verifier::loop_isolation(false)]
    pub fn update_sessions(&mut self, sessions: &Vec<SessionSnapshot>, denylist: Option<&Vec<String>>)
        requires
            old(self).wf(),
        ensures
            final(self).wf(),
            final(self).player_keys() == admitted_unique_keys(sessions@, denylist_view(denylist)),
            forall|k: Seq<char>|
                (#[trigger] lookup_player(final(self).players@, k)) matches Some(p)
                    ==> match lookup_player(old(self).players@, k) {
                    Some(q) => p == q,
                    None => p.aumid@ == k && p.events@.len() == 0 && p.friendly_name is None,
                },
            final(self).active_key() == select_active(
                old(self).active_key(),
                old(self).system_key(),
                sessions@,
                admitted_unique_keys(sessions@, denylist_view(denylist)),
            ),
            final(self).system_player_key == old(self).system_player_key,
            final(self).events@ == old(self).events@ + (if final(self).active_key() == old(
                self,
            ).active_key() {
                Seq::<ManagerEvent>::empty()
            } else {
                seq![ManagerEvent::ActiveSessionChanged]
            }),
    {
        let ghost deny = denylist_view(denylist);
        let ghost orig = self.players@;
        let preferred: Option<String> = match &self.active_player_key {
            Some(s) => Some(s.clone()),
            None => None,
        };
        assert(key_view_opt(preferred) == old(self).active_key());

        let mut old_players: Vec<Player> = Vec::new();
        core::mem::swap(&mut old_players, &mut self.players);
        let mut new_players: Vec<Player> = Vec::new();
        proof {
            assert(sessions@.subrange(0, 0) =~= Seq::<SessionSnapshot>::empty());
        }
        let mut i: usize = 0;
        while i < sessions.len()
            invariant
                i <= sessions@.len(),
                unique_keys(old_players@),
                unique_keys(new_players@),
                player_keys_of(new_players@) == admitted_unique_keys(
                    sessions@.subrange(0, i as int),
                    deny,
                ),
                forall|k: Seq<char>|
                    #[trigger] lookup_player(old_players@, k) == (if admitted_keys(
                        sessions@.subrange(0, i as int),
                        deny,
                    ).contains(k) {
                        None::<Player>
                    } else {
                        lookup_player(orig, k)
                    }),
                forall|k: Seq<char>|
                    (#[trigger] lookup_player(new_players@, k)) matches Some(p)
                        ==> match lookup_player(orig, k) {
                        Some(q) => p == q,
                        None => p.aumid@ == k && p.events@.len() == 0 && p.friendly_name is None,
                    },
            decreases sessions@.len() - i,
        {
            let ghost prefix0 = sessions@.subrange(0, i as int);
            let ghost prefix1 = sessions@.subrange(0, i as int + 1);
            proof {
                assert(prefix1.drop_last() =~= prefix0);
                assert(prefix1.last() == sessions@[i as int]);
                lemma_admitted_unique_same_members(prefix0, deny);
            }
            let s = &sessions[i];
            let ghost key = s.aumid@;
            let nonempty = !s.aumid.as_str().is_empty();
            let denied = is_denylisted(denylist, &s.aumid);
            assert((nonempty && !denied) == admits(deny, sessions@[i as int]));
            if nonempty && !denied {
                let already = find_player(&new_players, &s.aumid).is_some();
                proof {
                    lemma_player_keys_contains(new_players@, key);
                }
                if !already {
                    assert(!admitted_keys(prefix0, deny).contains(key));
                    let ghost new_pre = new_players@;
                    let ghost old_pre = old_players@;
                    let taken = take_player(&mut old_players, &s.aumid);
                    proof {
                        lemma_lookup_player_props(old_pre, key);
                    }
                    let fresh = match taken {
                        Some(p) => p,
                        None => Player::new(s.aumid.clone()),
                    };
                    assert(fresh.aumid@ == key);
                    assert(match lookup_player(orig, key) {
                        Some(q) => fresh == q,
                        None => fresh.events@.len() == 0 && fresh.friendly_name is None,
                    });
                    new_players.push(fresh);
                    proof {
                        assert forall|k: Seq<char>| #[trigger]
                            lookup_player(new_players@, k) == (if lookup_player(new_pre, k)
                                is Some {
                                lookup_player(new_pre, k)
                            } else if k == key {
                                Some(fresh)
                            } else {
                                None::<Player>
                            }) by {
                            lemma_lookup_player_push(new_pre, fresh, k);
                        }
                        assert forall|a: int, b: int|
                            0 <= a < b < new_players@.len() implies (#[trigger] new_players@[a]).aumid@
                            != (#[trigger] new_players@[b]).aumid@ by {
                            if b == new_pre.len() {
                                assert(new_players@[a] == new_pre[a]);
                            } else {
                                assert(new_players@[a] == new_pre[a] && new_players@[b]
                                    == new_pre[b]);
                            }
                        }
                        assert(player_keys_of(new_players@) =~= player_keys_of(new_pre).push(key));
                        assert(admitted_unique_keys(prefix1, deny) == admitted_unique_keys(
                            prefix0,
                            deny,
                        ).push(key));
                        assert forall|k: Seq<char>| #[trigger]
                            admitted_keys(prefix1, deny).contains(k) == (admitted_keys(
                                prefix0,
                                deny,
                            ).contains(k) || k == key) by {
                            lemma_push_contains(admitted_keys(prefix0, deny), key, k);
                        }
                    }
                } else {
                    proof {
                        assert(admitted_unique_keys(prefix1, deny) == admitted_unique_keys(
                            prefix0,
                            deny,
                        ));
                        assert(admitted_keys(prefix0, deny).contains(key));
                        assert forall|k: Seq<char>| #[trigger]
                            admitted_keys(prefix1, deny).contains(k) == (admitted_keys(
                                prefix0,
                                deny,
                            ).contains(k) || k == key) by {
                            lemma_push_contains(admitted_keys(prefix0, deny), key, k);
                        }
                    }
                }
            } else {
                proof {
                    assert(admitted_keys(prefix1, deny) == admitted_keys(prefix0, deny));
                    assert(admitted_unique_keys(prefix1, deny) == admitted_unique_keys(
                        prefix0,
                        deny,
                    ));
                }
            }
            i += 1;
        }
        proof {
            assert(sessions@.subrange(0, sessions@.len() as int) =~= sessions@);
        }
        self.players = new_players;
        self.update_active_player(preferred, sessions);
    }

    /// The host-designated session, when the registry holds it; the
    /// designation may name a filtered-out session, and then this is
    /// `None`.
    pub fn get_system_session(&self) -> (r: Option<&Player>)
        ensures
            r is Some <==> (self.system_key() matches Some(k) && self.contains_key(k)),
            r matches Some(p) ==> (self.system_key() matches Some(k) && lookup_player(
                self.players@,
                k,
            ) == Some(*p)),
    {
        match &self.system_player_key {
            Some(k) => self.get_session(k),
            None => None,
        }
    }
}

/// What the playing scan finds: a playing, present, non-empty key when
/// there is one, nothing otherwise.
pub proof fn lemma_first_playing_key_props(sessions: Seq<SessionSnapshot>, present: Seq<Seq<char>>)
    ensures
        first_playing_key(sessions, present) matches Some(k) ==> (present.contains(k) && exists|
            i: int,
        |
            0 <= i < sessions.len() && (#[trigger] sessions[i]).aumid@ == k && sessions[i].aumid@.len()
                > 0 && sessions[i].status is Playing),
        first_playing_key(sessions, present) is None ==> forall|i: int|
            0 <= i < sessions.len() ==> !((#[trigger] sessions[i]).aumid@.len() > 0
                && present.contains(sessions[i].aumid@) && sessions[i].status is Playing),
    decreases sessions.len(),
{
    if sessions.len() > 0 {
        lemma_first_playing_key_props(sessions.drop_first(), present);
        if !(sessions.first().aumid@.len() > 0 && present.contains(sessions.first().aumid@)
            && sessions.first().status is Playing) {
            match first_playing_key(sessions.drop_first(), present) {
                Some(k) => {
                    let i = choose|i: int|
                        0 <= i < sessions.drop_first().len() && (#[trigger] sessions.drop_first()[i]).aumid@
                            == k && sessions.drop_first()[i].aumid@.len() > 0
                            && sessions.drop_first()[i].status is Playing;
                    assert(sessions[i + 1] == sessions.drop_first()[i]);
                },
                None => {
                    assert forall|i: int|
                        0 <= i < sessions.len() implies !((#[trigger] sessions[i]).aumid@.len() > 0
                        && present.contains(sessions[i].aumid@)
                        && sessions[i].status is Playing) by {
                        if i > 0 {
                            assert(sessions.drop_first()[i - 1] == sessions[i]);
                        }
                    }
                },
            }
        }
    }
}

/// What the last-resort scan finds: a present, non-empty key when there
/// is one, nothing otherwise.
pub proof fn lemma_first_present_key_props(sessions: Seq<SessionSnapshot>, present: Seq<Seq<char>>)
    ensures
        first_present_key(sessions, present) matches Some(k) ==> (present.contains(k) && exists|
            i: int,
        |
            0 <= i < sessions.len() && (#[trigger] sessions[i]).aumid@ == k && sessions[i].aumid@.len()
                > 0),
        first_present_key(sessions, present) is None ==> forall|i: int|
            0 <= i < sessions.len() ==> !((#[trigger] sessions[i]).aumid@.len() > 0
                && present.contains(sessions[i].aumid@)),
    decreases sessions.len(),
{
    if sessions.len() > 0 {
        lemma_first_present_key_props(sessions.drop_first(), present);
        if !(sessions.first().aumid@.len() > 0 && present.contains(sessions.first().aumid@)) {
            match first_present_key(sessions.drop_first(), present) {
                Some(k) => {
                    let i = choose|i: int|
                        0 <= i < sessions.drop_first().len() && (#[trigger] sessions.drop_first()[i]).aumid@
                            == k && sessions.drop_first()[i].aumid@.len() > 0;
                    assert(sessions[i + 1] == sessions.drop_first()[i]);
                },
                None => {
                    assert forall|i: int|
                        0 <= i < sessions.len() implies !((#[trigger] sessions[i]).aumid@.len() > 0
                        && present.contains(sessions[i].aumid@)) by {
                        if i > 0 {
                            assert(sessions.drop_first()[i - 1] == sessions[i]);
                        }
                    }
                },
            }
        }
    }
}

/// A surviving enumeration entry's key is among the admitted keys.
pub proof fn lemma_admitted_key_at(sessions: Seq<SessionSnapshot>, deny: Seq<Seq<char>>, i: int)
    requires
        0 <= i < sessions.len(),
        admits(deny, sessions[i]),
    ensures
        admitted_keys(sessions, deny).contains(sessions[i].aumid@),
    decreases sessions.len(),
{
    if i == sessions.len() - 1 {
        assert(sessions.last() == sessions[i]);
        assert(admitted_keys(sessions, deny).last() == sessions[i].aumid@);
    } else {
        assert(sessions.drop_last()[i] == sessions[i]);
        lemma_admitted_key_at(sessions.drop_last(), deny, i);
        if admits(deny, sessions.last()) {
            lemma_push_contains(
                admitted_keys(sessions.drop_last(), deny),
                sessions.last().aumid@,
                sessions[i].aumid@,
            );
        }
    }
}

/// Sticky active key: a previous active key that the refresh still
/// admits is selected again, whatever any other candidate's transport
/// state is.
pub proof fn lemma_refresh_sticky(
    prev: Seq<char>,
    system: Option<Seq<char>>,
    sessions: Seq<SessionSnapshot>,
    deny: Seq<Seq<char>>,
)
    requires
        admitted_keys(sessions, deny).contains(prev),
    ensures
        select_active(Some(prev), system, sessions, admitted_unique_keys(sessions, deny)) == Some(
            prev,
        ),
{
    lemma_admitted_unique_same_members(sessions, deny);
}

/// Priority of the system key: when no previous active key survives
/// and no candidate is playing, an admitted system key is selected.
pub proof fn lemma_refresh_system_priority(
    prev: Option<Seq<char>>,
    system: Seq<char>,
    sessions: Seq<SessionSnapshot>,
    deny: Seq<Seq<char>>,
)
    requires
        admitted_keys(sessions, deny).contains(system),
        match prev {
            Some(p) => !admitted_keys(sessions, deny).contains(p),
            None => true,
        },
        forall|i: int| 0 <= i < sessions.len() ==> !((#[trigger] sessions[i]).status is Playing),
    ensures
        select_active(prev, Some(system), sessions, admitted_unique_keys(sessions, deny)) == Some(
            system,
        ),
{
    lemma_admitted_unique_same_members(sessions, deny);
}

/// Playing preference: when neither the previous active key nor the
/// system key survives, and every admitted playing candidate carries
/// one key, that key is selected.
pub proof fn lemma_refresh_playing_preferred(
    prev: Option<Seq<char>>,
    system: Option<Seq<char>>,
    sessions: Seq<SessionSnapshot>,
    deny: Seq<Seq<char>>,
    j: int,
)
    requires
        match prev {
            Some(p) => !admitted_keys(sessions, deny).contains(p),
            None => true,
        },
        match system {
            Some(s) => !admitted_keys(sessions, deny).contains(s),
            None => true,
        },
        0 <= j < sessions.len(),
        admits(deny, sessions[j]),
        sessions[j].status is Playing,
        forall|i: int|
            0 <= i < sessions.len() && admits(deny, #[trigger] sessions[i])
                && sessions[i].status is Playing ==> sessions[i].aumid@ == sessions[j].aumid@,
    ensures
        select_active(prev, system, sessions, admitted_unique_keys(sessions, deny)) == Some(
            sessions[j].aumid@,
        ),
{
    let present = admitted_unique_keys(sessions, deny);
    lemma_admitted_unique_same_members(sessions, deny);
    lemma_admitted_key_at(sessions, deny, j);
    lemma_first_playing_key_props(sessions, present);
    match first_playing_key(sessions, present) {
        Some(k) => {
            let i = choose|i: int|
                0 <= i < sessions.len() && (#[trigger] sessions[i]).aumid@ == k
                    && sessions[i].aumid@.len() > 0 && sessions[i].status is Playing;
            assert(admits(deny, sessions[i])) by {
                if deny.contains(k) {
                    lemma_denied_key_not_admitted(sessions, deny, k);
                }
            }
        },
        None => {
            assert(false);
        },
    }
}

/// Denylist exclusion: a denied key never materializes an endpoint and
/// is never selected as the active key, even when it was the previous
/// active key or the system key.
pub proof fn lemma_refresh_denylist_excluded(
    prev: Option<Seq<char>>,
    system: Option<Seq<char>>,
    sessions: Seq<SessionSnapshot>,
    deny: Seq<Seq<char>>,
    k: Seq<char>,
)
    requires
        deny.contains(k),
    ensures
        !admitted_unique_keys(sessions, deny).contains(k),
        select_active(prev, system, sessions, admitted_unique_keys(sessions, deny)) != Some(k),
{
    let present = admitted_unique_keys(sessions, deny);
    lemma_denied_key_not_admitted(sessions, deny, k);
    lemma_admitted_unique_same_members(sessions, deny);
    lemma_first_playing_key_props(sessions, present);
    lemma_first_present_key_props(sessions, present);
}

/// Change-detection idempotence: feeding the selection its own outcome
/// as the sticky choice changes nothing, so a second refresh from an
/// unchanged enumeration selects the same key and emits no further
/// `ActiveSessionChanged`.
pub proof fn lemma_select_active_idempotent(
    prev: Option<Seq<char>>,
    system: Option<Seq<char>>,
    sessions: Seq<SessionSnapshot>,
    present: Seq<Seq<char>>,
)
    ensures
        select_active(
            select_active(prev, system, sessions, present),
            system,
            sessions,
            present,
        ) == select_active(prev, system, sessions, present),
{
    lemma_first_playing_key_props(sessions, present);
    lemma_first_present_key_props(sessions, present);
}

} // verus!

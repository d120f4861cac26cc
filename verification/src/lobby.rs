use vstd::prelude::*;

use crate::rng::random_below;
use crate::strutil::{push_char, spec_trim, spec_upper, to_upper, trim_substr};

verus! {

/// Grace period before removing disconnected players (seconds).
pub const PLAYER_DISCONNECT_GRACE_SECS: u64 = 60;

/// Grace period before removing empty lobbies (seconds).
pub const LOBBY_EMPTY_GRACE_SECS: u64 = 120;

/// Length of generated lobby codes.
pub const LOBBY_CODE_LENGTH: usize = 6;

/// Type of lobby.
#[derive(Debug, Clone, Copy, PartialEq, Eq, Structural)]
pub enum LobbyType {
    /// Lobby tied to a specific chat channel
    Channel,
    /// Custom lobby with a shareable code
    Custom,
}

/// Connection state for a lobby player.
#[derive(Debug, Clone, Copy, PartialEq, Eq, Structural)]
pub enum PlayerConnectionState {
    /// Player is actively connected with an open socket
    Connected,
    /// Player's socket dropped; waiting for reconnection within the grace
    /// period, still visible in the lobby
    AwaitingReconnect { since: u64 },
}

/// A member of a lobby. The member's send queue is owned by its
/// connection handler; the lobby tracks identity and connection state.
#[derive(Debug, Clone)]
pub struct LobbyPlayer {
    pub user_id: i64,
    pub username: String,
    pub avatar_url: Option<String>,
    pub connection_state: PlayerConnectionState,
}

impl LobbyPlayer {
    /// Whether the player has an active socket.
    pub fn is_connected(&self) -> (r: bool)
        ensures
            r == (self.connection_state == PlayerConnectionState::Connected),
    {
        match self.connection_state {
            PlayerConnectionState::Connected => true,
            _ => false,
        }
    }

    /// Whether the player should be listed in the lobby. Both connected
    /// players and those awaiting reconnection are visible; a player only
    /// disappears when the cleanup sweep removes them.
    pub fn is_visible(&self) -> (r: bool)
        ensures
            r,
    {
        true
    }
}

/// A player value with its connection state replaced.
pub open spec fn spec_with_state(p: LobbyPlayer, st: PlayerConnectionState) -> LobbyPlayer {
    LobbyPlayer {
        user_id: p.user_id,
        username: p.username,
        avatar_url: p.avatar_url,
        connection_state: st,
    }
}

/// Some member has this user id.
pub open spec fn has_member(ps: Seq<LobbyPlayer>, uid: i64) -> bool {
    exists|i: int| 0 <= i < ps.len() && ps[i].user_id == uid
}

/// No two members share a user id.
pub open spec fn members_unique(ps: Seq<LobbyPlayer>) -> bool {
    forall|i: int, j: int| 0 <= i < j < ps.len() ==> ps[i].user_id != ps[j].user_id
}

/// Some member is connected.
pub open spec fn any_connected(ps: Seq<LobbyPlayer>) -> bool {
    exists|i: int|
        0 <= i < ps.len() && ps[i].connection_state == PlayerConnectionState::Connected
}

/// The number of connected members.
pub open spec fn spec_connected_count(ps: Seq<LobbyPlayer>) -> int
    decreases ps.len(),
{
    if ps.len() == 0 {
        0
    } else {
        spec_connected_count(ps.drop_last()) + if ps.last().connection_state
            == PlayerConnectionState::Connected {
            1int
        } else {
            0int
        }
    }
}

/// What the member list looks like after a join: a present member is
/// reconnected in place; a new member is appended as connected.
pub open spec fn spec_join_players(
    ps: Seq<LobbyPlayer>,
    uid: i64,
    username: String,
    avatar_url: Option<String>,
) -> Seq<LobbyPlayer> {
    if has_member(ps, uid) {
        let i = choose|i: int| 0 <= i < ps.len() && ps[i].user_id == uid;
        ps.update(i, spec_with_state(ps[i], PlayerConnectionState::Connected))
    } else {
        ps.push(
            LobbyPlayer {
                user_id: uid,
                username,
                avatar_url,
                connection_state: PlayerConnectionState::Connected,
            },
        )
    }
}

/// Who hosts after a join: the joiner when there was no host, else the
/// old host.
pub open spec fn spec_join_host(host: Option<i64>, ps: Seq<LobbyPlayer>, uid: i64) -> Option<
    i64,
> {
    if host is None && !has_member(ps, uid) {
        Some(uid)
    } else {
        host
    }
}

/// Joining a lobby twice in a row changes nothing the second time:
/// the member list and the host are exactly those of the first join.
pub proof fn lemma_join_idempotent(
    ps: Seq<LobbyPlayer>,
    host: Option<i64>,
    uid: i64,
    username: String,
    avatar_url: Option<String>,
)
    requires
        members_unique(ps),
    ensures
        spec_join_players(spec_join_players(ps, uid, username, avatar_url), uid, username, avatar_url)
            =~= spec_join_players(ps, uid, username, avatar_url),
        spec_join_host(
            spec_join_host(host, ps, uid),
            spec_join_players(ps, uid, username, avatar_url),
            uid,
        ) == spec_join_host(host, ps, uid),
{
    let ps1 = spec_join_players(ps, uid, username, avatar_url);
    if has_member(ps, uid) {
        let i = choose|i: int| 0 <= i < ps.len() && ps[i].user_id == uid;
        assert(ps1[i].user_id == uid);
        assert(has_member(ps1, uid));
        let j = choose|j: int| 0 <= j < ps1.len() && ps1[j].user_id == uid;
        assert(ps1[j].user_id == uid);
        assert(j == i) by {
            if j != i {
                if j < i {
                    assert(ps[j].user_id == ps1[j].user_id);
                } else {
                    assert(ps[j].user_id == ps1[j].user_id);
                }
                assert(ps[i].user_id == ps[j].user_id);
            }
        }
        assert(spec_with_state(ps1[i], PlayerConnectionState::Connected) == ps1[i]);
        assert(ps1.update(i, ps1[i]) =~= ps1);
    } else {
        let n = ps.len() as int;
        assert(ps1[n].user_id == uid);
        assert(has_member(ps1, uid));
        let j = choose|j: int| 0 <= j < ps1.len() && ps1[j].user_id == uid;
        assert(j == n) by {
            if j < n {
                assert(ps[j].user_id == ps1[j].user_id);
                assert(has_member(ps, uid));
            }
        }
        assert(spec_with_state(ps1[n], PlayerConnectionState::Connected) == ps1[n]);
        assert(ps1.update(n, ps1[n]) =~= ps1);
    }
}

/// A game lobby that players can join.
#[derive(Debug)]
pub struct Lobby {
    pub lobby_id: String,
    pub lobby_type: LobbyType,
    /// For custom lobbies, the short shareable code
    pub lobby_code: Option<String>,
    /// For channel lobbies, the chat channel id
    pub channel_id: Option<String>,
    /// For channel lobbies, the guild id, if any
    pub guild_id: Option<String>,
    /// The host: the first joiner, allowed to start games
    pub host_id: Option<i64>,
    /// Members, visible whether connected or awaiting reconnection
    pub players: Vec<LobbyPlayer>,
    /// The running game, if one is active
    pub active_game_id: Option<u128>,
    /// Set while a start is in flight, to keep starts mutually exclusive
    pub game_starting: bool,
    /// When the lobby was created, in seconds
    pub created_at: u64,
    /// When the lobby last lost its last connected member, in seconds
    pub empty_since: Option<u64>,
}

impl Lobby {
    /// A well-formed lobby: member ids unique; at most one of an active
    /// game and a start in flight; the empty mark only while no member is
    /// connected; the id spells the lobby's kind.
    pub open spec fn wf(&self) -> bool {
        &&& members_unique(self.players@)
        &&& !(self.active_game_id is Some && self.game_starting)
        &&& self.empty_since is Some ==> !any_connected(self.players@)
        &&& match self.lobby_type {
            LobbyType::Custom => self.lobby_code is Some && self.channel_id is None
                && self.lobby_id@ == "custom:"@ + self.lobby_code->0@,
            LobbyType::Channel => self.channel_id is Some && self.lobby_code is None
                && self.lobby_id@ == "channel:"@ + self.channel_id->0@,
        }
    }

    /// Create a new channel-based lobby.
    pub fn new_channel(channel_id: String, guild_id: Option<String>, now: u64) -> (l: Lobby)
        ensures
            l.wf(),
            l.lobby_id@ == "channel:"@ + channel_id@,
            l.lobby_type == LobbyType::Channel,
            l.lobby_code is None,
            l.channel_id == Some(channel_id),
            l.guild_id == guild_id,
            l.host_id is None,
            l.players@.len() == 0,
            l.active_game_id is None,
            !l.game_starting,
            l.created_at == now,
            l.empty_since is None,
    {
        let mut lobby_id = String::new();
        lobby_id.append("channel:");
        lobby_id.append(channel_id.as_str());
        proof {
            assert(Seq::<char>::empty() + "channel:"@ + channel_id@ =~= "channel:"@
                + channel_id@);
        }
        Lobby {
            lobby_id,
            lobby_type: LobbyType::Channel,
            lobby_code: None,
            channel_id: Some(channel_id),
            guild_id,
            host_id: None,
            players: Vec::new(),
            active_game_id: None,
            game_starting: false,
            created_at: now,
            empty_since: None,
        }
    }

    /// Create a new custom lobby under the given code.
    pub fn new_custom(code: String, now: u64) -> (l: Lobby)
        ensures
            l.wf(),
            l.lobby_id@ == "custom:"@ + code@,
            l.lobby_type == LobbyType::Custom,
            l.lobby_code == Some(code),
            l.channel_id is None,
            l.guild_id is None,
            l.host_id is None,
            l.players@.len() == 0,
            l.active_game_id is None,
            !l.game_starting,
            l.created_at == now,
            l.empty_since is None,
    {
        let mut lobby_id = String::new();
        lobby_id.append("custom:");
        lobby_id.append(code.as_str());
        proof {
            assert(Seq::<char>::empty() + "custom:"@ + code@ =~= "custom:"@ + code@);
        }
        Lobby {
            lobby_id,
            lobby_type: LobbyType::Custom,
            lobby_code: Some(code),
            channel_id: None,
            guild_id: None,
            host_id: None,
            players: Vec::new(),
            active_game_id: None,
            game_starting: false,
            created_at: now,
            empty_since: None,
        }
    }

    /// Count of actively connected members (members awaiting reconnection
    /// are not counted).
    pub fn connected_player_count(&self) -> (n: usize)
        ensures
            n == spec_connected_count(self.players@),
    {
        let ghost ps = self.players@;
        let mut count: usize = 0;
        let mut i: usize = 0;
        while i < self.players.len()
            invariant
                ps == self.players@,
                0 <= i <= ps.len(),
                count == spec_connected_count(ps.take(i as int)),
                count <= i,
            decreases ps.len() - i,
        {
            proof {
                assert(ps.take(i as int + 1).drop_last() =~= ps.take(i as int));
            }
            if self.players[i].is_connected() {
                count = count + 1;
            }
            i = i + 1;
        }
        proof {
            assert(ps.take(ps.len() as int) =~= ps);
        }
        count
    }

    /// Whether the lobby has any members at all.
    pub fn has_any_players(&self) -> (r: bool)
        ensures
            r == (self.players@.len() > 0),
    {
        self.players.len() > 0
    }

    /// Whether this user is the host.
    pub fn is_host(&self, user_id: i64) -> (r: bool)
        ensures
            r == (self.host_id == Some(user_id)),
    {
        match self.host_id {
            Some(h) => h == user_id,
            None => false,
        }
    }

    /// Atomically claim the right to start a game: succeeds only when no
    /// game is active and no start is in flight, and then marks the start
    /// in flight. At most one of the two marks is ever set.
    pub fn try_start_game(&mut self) -> (r: bool)
        requires
            old(self).wf(),
        ensures
            final(self).wf(),
            r == (old(self).active_game_id is None && !old(self).game_starting),
            r ==> *final(self) == (Lobby { game_starting: true, ..*old(self) }),
            !r ==> *final(self) == *old(self),
    {
        if self.active_game_id.is_none() && !self.game_starting {
            self.game_starting = true;
            true
        } else {
            false
        }
    }

    /// Clear the start-in-flight mark (after a failed start).
    pub fn clear_game_starting(&mut self)
        requires
            old(self).wf(),
        ensures
            final(self).wf(),
            *final(self) == (Lobby { game_starting: false, ..*old(self) }),
    {
        self.game_starting = false;
    }

    /// Record the started game and clear the start-in-flight mark.
    pub fn set_active_game(&mut self, game_id: u128)
        requires
            old(self).wf(),
        ensures
            final(self).wf(),
            *final(self) == (Lobby {
                active_game_id: Some(game_id),
                game_starting: false,
                ..*old(self)
            }),
    {
        self.active_game_id = Some(game_id);
        self.game_starting = false;
    }

    /// Clear the active game (when it ends).
    pub fn clear_active_game(&mut self)
        requires
            old(self).wf(),
        ensures
            final(self).wf(),
            *final(self) == (Lobby { active_game_id: None, ..*old(self) }),
    {
        self.active_game_id = None;
    }

    /// Add a player, or reconnect one already present. A present player
    /// is set connected in place; a new player is appended, and becomes
    /// host when there was none. Either way the lobby is no longer empty.
    pub fn join_player(
        &mut self,
        user_id: i64,
        username: String,
        avatar_url: Option<String>,
    ) -> (is_host: bool)
        requires
            old(self).wf(),
        ensures
            final(self).wf(),
            final(self).players@ == spec_join_players(
                old(self).players@,
                user_id,
                username,
                avatar_url,
            ),
            final(self).host_id == spec_join_host(
                old(self).host_id,
                old(self).players@,
                user_id,
            ),
            final(self).empty_since is None,
            final(self).lobby_id == old(self).lobby_id,
            final(self).lobby_type == old(self).lobby_type,
            final(self).lobby_code == old(self).lobby_code,
            final(self).channel_id == old(self).channel_id,
            final(self).guild_id == old(self).guild_id,
            final(self).active_game_id == old(self).active_game_id,
            final(self).game_starting == old(self).game_starting,
            final(self).created_at == old(self).created_at,
            is_host == (final(self).host_id == Some(user_id)),
    {
        let ghost ps = self.players@;
        let n = self.players.len();
        let mut i: usize = 0;
        while i < n
            invariant
                *self == *old(self),
                old(self).wf(),
                ps == self.players@,
                n == ps.len(),
                0 <= i <= n,
                forall|k: int| 0 <= k < i ==> (#[trigger] ps[k]).user_id != user_id,
            decreases n - i,
        {
            if self.players[i].user_id == user_id {
                // reconnect in place
                let ghost wit = i as int;
                let p = &mut self.players[i];
                p.connection_state = PlayerConnectionState::Connected;
                proof {
                    assert(has_member(ps, user_id));
                    let c = choose|c: int| 0 <= c < ps.len() && ps[c].user_id == user_id;
                    assert(c == wit) by {
                        if c != wit {
                            assert(members_unique(ps));
                        }
                    }
                    assert(self.players@ =~= spec_join_players(
                        ps,
                        user_id,
                        username,
                        avatar_url,
                    ));
                    assert(members_unique(self.players@)) by {
                        assert(forall|k: int|
                            0 <= k < ps.len() ==> (#[trigger] self.players@[k]).user_id
                                == ps[k].user_id);
                    }
                }
                self.empty_since = None;
                let r = self.is_host(user_id);
                return r;
            }
            i = i + 1;
        }
        let new_player = LobbyPlayer {
            user_id,
            username,
            avatar_url,
            connection_state: PlayerConnectionState::Connected,
        };
        self.players.push(new_player);
        self.empty_since = None;
        let is_new_host = self.host_id.is_none();
        if is_new_host {
            self.host_id = Some(user_id);
        }
        proof {
            assert(!has_member(ps, user_id));
            assert(self.players@ =~= spec_join_players(ps, user_id, username, avatar_url));
            assert(members_unique(self.players@)) by {
                assert(forall|k: int|
                    0 <= k < ps.len() ==> (#[trigger] self.players@[k]).user_id
                        == ps[k].user_id);
                assert(self.players@.last().user_id == user_id);
            }
        }
        let r = self.is_host(user_id);
        r
    }

    /// Mark a member as awaiting reconnection (the socket dropped). The
    /// member stays visible. When no member is left connected, the lobby
    /// is marked empty from `now` (an earlier mark is kept).
    pub fn mark_awaiting_reconnect(&mut self, user_id: i64, now: u64)
        requires
            old(self).wf(),
        ensures
            final(self).wf(),
            final(self).players@.len() == old(self).players@.len(),
            forall|k: int|
                0 <= k < old(self).players@.len() ==> (#[trigger] final(self).players@[k]) == (
                if old(self).players@[k].user_id == user_id {
                    spec_with_state(
                        old(self).players@[k],
                        PlayerConnectionState::AwaitingReconnect { since: now },
                    )
                } else {
                    old(self).players@[k]
                }),
            has_member(old(self).players@, user_id) ==> has_member(
                final(self).players@,
                user_id,
            ),
            final(self).empty_since == (if !any_connected(final(self).players@) && old(self).empty_since is None {
                Some(now)
            } else {
                old(self).empty_since
            }),
            final(self).host_id == old(self).host_id,
            final(self).lobby_id == old(self).lobby_id,
            final(self).lobby_type == old(self).lobby_type,
            final(self).lobby_code == old(self).lobby_code,
            final(self).channel_id == old(self).channel_id,
            final(self).active_game_id == old(self).active_game_id,
            final(self).game_starting == old(self).game_starting,
    {
        let ghost ps = self.players@;
        let n = self.players.len();
        let mut i: usize = 0;
        while i < n
            invariant
                old(self).wf(),
                n == self.players@.len(),
                n == ps.len(),
                0 <= i <= n,
                self.players@.len() == ps.len(),
                self.host_id == old(self).host_id,
                self.lobby_id == old(self).lobby_id,
                self.lobby_type == old(self).lobby_type,
                self.lobby_code == old(self).lobby_code,
                self.channel_id == old(self).channel_id,
                self.guild_id == old(self).guild_id,
                self.active_game_id == old(self).active_game_id,
                self.game_starting == old(self).game_starting,
                self.created_at == old(self).created_at,
                self.empty_since == old(self).empty_since,
                ps == old(self).players@,
                forall|k: int|
                    0 <= k < i ==> (#[trigger] self.players@[k]) == (if ps[k].user_id == user_id {
                        spec_with_state(
                            ps[k],
                            PlayerConnectionState::AwaitingReconnect { since: now },
                        )
                    } else {
                        ps[k]
                    }),
                forall|k: int| i <= k < n ==> (#[trigger] self.players@[k]) == ps[k],
            decreases n - i,
        {
            if self.players[i].user_id == user_id {
                let p = &mut self.players[i];
                p.connection_state = PlayerConnectionState::AwaitingReconnect { since: now };
            }
            i = i + 1;
        }
        proof {
            assert(members_unique(self.players@)) by {
                assert(forall|k: int|
                    0 <= k < ps.len() ==> (#[trigger] self.players@[k]).user_id
                        == ps[k].user_id);
            }
            if has_member(ps, user_id) {
                let w = choose|w: int| 0 <= w < ps.len() && ps[w].user_id == user_id;
                assert(self.players@[w].user_id == user_id);
                assert(has_member(self.players@, user_id));
            }
        }
        let still_connected = self.any_connected_member();
        if !still_connected {
            if self.empty_since.is_none() {
                self.empty_since = Some(now);
            }
        }
        proof {
            if self.empty_since is Some {
                assert(!any_connected(self.players@)) by {
                    if old(self).empty_since is Some && still_connected {
                        let w = choose|w: int|
                            0 <= w < self.players@.len() && self.players@[w].connection_state
                                == PlayerConnectionState::Connected;
                        assert(ps[w].connection_state == PlayerConnectionState::Connected
                            || self.players@[w] == spec_with_state(
                            ps[w],
                            PlayerConnectionState::AwaitingReconnect { since: now },
                        ));
                        assert(any_connected(ps));
                    }
                }
            }
        }
    }

    /// Whether any member is connected.
    fn any_connected_member(&self) -> (r: bool)
        ensures
            r == any_connected(self.players@),
    {
        let mut i: usize = 0;
        while i < self.players.len()
            invariant
                0 <= i <= self.players@.len(),
                forall|k: int|
                    0 <= k < i ==> (#[trigger] self.players@[k]).connection_state
                        != PlayerConnectionState::Connected,
            decreases self.players@.len() - i,
        {
            if self.players[i].is_connected() {
                return true;
            }
            i = i + 1;
        }
        false
    }

    /// Remove a member who leaves on purpose. When no connected member
    /// remains afterwards, the lobby is marked empty from `now` (an
    /// earlier mark is kept).
    pub fn remove_player(&mut self, user_id: i64, now: u64)
        requires
            old(self).wf(),
        ensures
            final(self).wf(),
            !has_member(final(self).players@, user_id),
            forall|k: int|
                0 <= k < final(self).players@.len() ==> old(self).players@.contains(
                    #[trigger] final(self).players@[k],
                ),
            forall|k: int|
                0 <= k < old(self).players@.len() && (#[trigger] old(self).players@[k]).user_id
                    != user_id ==> final(self).players@.contains(old(self).players@[k]),
            final(self).empty_since == (if !any_connected(final(self).players@) && old(self).empty_since is None {
                Some(now)
            } else {
                old(self).empty_since
            }),
            final(self).host_id == old(self).host_id,
            final(self).lobby_id == old(self).lobby_id,
            final(self).lobby_type == old(self).lobby_type,
            final(self).lobby_code == old(self).lobby_code,
            final(self).channel_id == old(self).channel_id,
            final(self).active_game_id == old(self).active_game_id,
            final(self).game_starting == old(self).game_starting,
    {
        let ghost ps = self.players@;
        let idx = self.member_index(user_id);
        match idx {
            Some(i) => {
                let ghost wit = i as int;
                self.players.remove(i);
                proof {
                    assert(forall|a: int|
                        0 <= a < self.players@.len() ==> (#[trigger] self.players@[a]) == (if a
                            < wit {
                            ps[a]
                        } else {
                            ps[a + 1]
                        }));
                    assert(members_unique(self.players@));
                    assert(!has_member(self.players@, user_id)) by {
                        if exists|a: int|
                            0 <= a < self.players@.len() && self.players@[a].user_id == user_id {
                            let a = choose|a: int|
                                0 <= a < self.players@.len() && self.players@[a].user_id
                                    == user_id;
                            assert(members_unique(ps));
                        }
                    }
                    assert(forall|k: int|
                        0 <= k < self.players@.len() ==> ps.contains(
                            #[trigger] self.players@[k],
                        ));
                    assert forall|k: int|
                        0 <= k < ps.len() && (#[trigger] ps[k]).user_id != user_id
                        implies self.players@.contains(ps[k]) by {
                        if k < wit {
                            assert(self.players@[k] == ps[k]);
                        } else {
                            assert(k != wit);
                            assert(self.players@[k - 1] == ps[k]);
                        }
                    }
                }
            },
            None => {
                proof {
                    assert(self.players@ =~= ps);
                    assert(forall|k: int|
                        0 <= k < ps.len() ==> ps.contains(#[trigger] ps[k]));
                }
            },
        }
        let still_connected = self.any_connected_member();
        if !still_connected {
            if self.empty_since.is_none() {
                self.empty_since = Some(now);
            }
        }
        proof {
            if self.empty_since is Some && old(self).empty_since is Some {
                assert(!any_connected(self.players@)) by {
                    if any_connected(self.players@) {
                        let w = choose|w: int|
                            0 <= w < self.players@.len() && self.players@[w].connection_state
                                == PlayerConnectionState::Connected;
                        assert(ps.contains(self.players@[w]));
                        let v = choose|v: int| 0 <= v < ps.len() && ps[v] == self.players@[w];
                        assert(any_connected(ps));
                    }
                }
            }
        }
    }

    /// Remove every member whose reconnection grace has elapsed. Returns
    /// the ids of the removed members. When no connected member remains,
    /// the lobby is marked empty from `now` (an earlier mark is kept).
    pub fn remove_expired_players(&mut self, now: u64) -> (removed: Vec<i64>)
        requires
            old(self).wf(),
        ensures
            final(self).wf(),
            final(self).players@ == spec_keep_players(old(self).players@, now),
            removed@ == spec_expired_ids(old(self).players@, now),
            final(self).empty_since == (if !any_connected(final(self).players@) && old(self).empty_since is None {
                Some(now)
            } else {
                old(self).empty_since
            }),
            final(self).host_id == old(self).host_id,
            final(self).lobby_id == old(self).lobby_id,
            final(self).lobby_type == old(self).lobby_type,
            final(self).lobby_code == old(self).lobby_code,
            final(self).channel_id == old(self).channel_id,
            final(self).guild_id == old(self).guild_id,
            final(self).active_game_id == old(self).active_game_id,
            final(self).game_starting == old(self).game_starting,
            final(self).created_at == old(self).created_at,
    {
        let ghost ps = self.players@;
        let mut kept: Vec<LobbyPlayer> = Vec::new();
        let mut removed: Vec<i64> = Vec::new();
        let n = self.players.len();
        let mut i: usize = 0;
        while i < n
            invariant
                *self == *old(self),
                old(self).wf(),
                ps == old(self).players@,
                n == ps.len(),
                0 <= i <= n,
                kept@ == spec_keep_players(ps.take(i as int), now),
                removed@ == spec_expired_ids(ps.take(i as int), now),
            decreases n - i,
        {
            proof {
                assert(ps.take(i as int + 1).drop_last() =~= ps.take(i as int));
            }
            let p = &self.players[i];
            let expired = match p.connection_state {
                PlayerConnectionState::AwaitingReconnect { since } => since
                    < now && now - since > PLAYER_DISCONNECT_GRACE_SECS,
                PlayerConnectionState::Connected => false,
            };
            if expired {
                removed.push(p.user_id);
            } else {
                let q = LobbyPlayer {
                    user_id: p.user_id,
                    username: p.username.clone(),
                    avatar_url: match &p.avatar_url {
                        Some(a) => Some(a.clone()),
                        None => None,
                    },
                    connection_state: p.connection_state,
                };
                assert(q == ps[i as int]);
                kept.push(q);
            }
            i = i + 1;
        }
        proof {
            assert(ps.take(n as int) =~= ps);
            lemma_keep_players_members(ps, now);
        }
        self.players = kept;
        let still_connected = self.any_connected_member();
        if !still_connected {
            if self.empty_since.is_none() {
                self.empty_since = Some(now);
            }
        }
        proof {
            if self.empty_since is Some && old(self).empty_since is Some {
                assert(!any_connected(self.players@)) by {
                    lemma_keep_players_members(ps, now);
                }
            }
        }
        removed
    }

    /// The index of the member with this user id, if present.
    fn member_index(&self, user_id: i64) -> (r: Option<usize>)
        ensures
            match r {
                Some(i) => i < self.players@.len() && self.players@[i as int].user_id == user_id,
                None => !has_member(self.players@, user_id),
            },
    {
        let mut i: usize = 0;
        while i < self.players.len()
            invariant
                0 <= i <= self.players@.len(),
                forall|k: int| 0 <= k < i ==> (#[trigger] self.players@[k]).user_id != user_id,
            decreases self.players@.len() - i,
        {
            if self.players[i].user_id == user_id {
                return Some(i);
            }
            i = i + 1;
        }
        None
    }
}

/// A member whose reconnection grace has elapsed at `now`: the socket
/// dropped more than the grace period ago.
pub open spec fn player_expired(p: LobbyPlayer, now: u64) -> bool {
    match p.connection_state {
        PlayerConnectionState::AwaitingReconnect { since } => since + PLAYER_DISCONNECT_GRACE_SECS
            < now,
        PlayerConnectionState::Connected => false,
    }
}

/// The members that survive a cleanup sweep at `now`: exactly those whose
/// grace has not elapsed, in order.
pub open spec fn spec_keep_players(ps: Seq<LobbyPlayer>, now: u64) -> Seq<LobbyPlayer>
    decreases ps.len(),
{
    if ps.len() == 0 {
        Seq::empty()
    } else if player_expired(ps.last(), now) {
        spec_keep_players(ps.drop_last(), now)
    } else {
        spec_keep_players(ps.drop_last(), now).push(ps.last())
    }
}

/// The ids of the members a cleanup sweep at `now` removes, in order.
pub open spec fn spec_expired_ids(ps: Seq<LobbyPlayer>, now: u64) -> Seq<i64>
    decreases ps.len(),
{
    if ps.len() == 0 {
        Seq::empty()
    } else if player_expired(ps.last(), now) {
        spec_expired_ids(ps.drop_last(), now).push(ps.last().user_id)
    } else {
        spec_expired_ids(ps.drop_last(), now)
    }
}

/// The sweep only drops expired members: every survivor was a member, a
/// member within grace survives, uniqueness is kept, and no connection
/// appears out of nowhere. This is the grace-period guarantee: a player
/// awaiting reconnection stays in the lobby until the grace elapses.
pub proof fn lemma_keep_players_members(ps: Seq<LobbyPlayer>, now: u64)
    ensures
        forall|k: int|
            0 <= k < spec_keep_players(ps, now).len() ==> ps.contains(
                #[trigger] spec_keep_players(ps, now)[k],
            ),
        forall|k: int|
            0 <= k < ps.len() && !player_expired(#[trigger] ps[k], now) ==> spec_keep_players(
                ps,
                now,
            ).contains(ps[k]),
        members_unique(ps) ==> members_unique(spec_keep_players(ps, now)),
        any_connected(spec_keep_players(ps, now)) ==> any_connected(ps),
    decreases ps.len(),
{
    if ps.len() > 0 {
        let d = ps.drop_last();
        lemma_keep_players_members(d, now);
        let kd = spec_keep_players(d, now);
        let kp = spec_keep_players(ps, now);
        assert(forall|k: int| 0 <= k < d.len() ==> d[k] == ps[k]);
        assert(forall|k: int| 0 <= k < kd.len() && d.contains(#[trigger] kd[k]) ==> ps.contains(
            kd[k],
        ));
        if members_unique(ps) {
            assert(members_unique(d));
            if !player_expired(ps.last(), now) {
                assert(members_unique(kp)) by {
                    assert(forall|k: int| 0 <= k < kd.len() ==> kp[k] == kd[k]);
                    assert(kp.last() == ps.last());
                    assert forall|a: int, b: int| 0 <= a < b < kp.len() implies kp[a].user_id
                        != kp[b].user_id by {
                        if b == kp.len() - 1 {
                            assert(d.contains(kd[a]));
                            let w = choose|w: int| 0 <= w < d.len() && d[w] == kd[a];
                            assert(ps[w] == kd[a]);
                            assert(ps[w].user_id != ps.last().user_id);
                        }
                    }
                }
            }
        }
        assert forall|k: int|
            0 <= k < ps.len() && !player_expired(#[trigger] ps[k], now) implies kp.contains(
            ps[k],
        ) by {
            if k < ps.len() - 1 {
                assert(d[k] == ps[k]);
                assert(kd.contains(d[k]));
                let w = choose|w: int| 0 <= w < kd.len() && kd[w] == d[k];
                if player_expired(ps.last(), now) {
                    assert(kp[w] == ps[k]);
                } else {
                    assert(kp[w] == ps[k]);
                }
            } else {
                assert(kp.last() == ps[k]);
            }
        }
        if any_connected(kp) {
            let w = choose|w: int|
                0 <= w < kp.len() && kp[w].connection_state == PlayerConnectionState::Connected;
            assert(ps.contains(kp[w]));
            let v = choose|v: int| 0 <= v < ps.len() && ps[v] == kp[w];
            assert(any_connected(ps));
        }
    }
}

/// A lobby whose empty grace has elapsed at `now`: it lost its last
/// connected member more than the grace period ago.
pub open spec fn lobby_expired(l: Lobby, now: u64) -> bool {
    match l.empty_since {
        Some(since) => since + LOBBY_EMPTY_GRACE_SECS < now,
        None => false,
    }
}

/// The lobbies that survive a cleanup sweep at `now`: exactly those whose
/// empty grace has not elapsed, in order. An empty lobby stays in the
/// registry until the grace elapses.
pub open spec fn spec_keep_lobbies(s: Seq<Lobby>, now: u64) -> Seq<Lobby>
    decreases s.len(),
{
    if s.len() == 0 {
        Seq::empty()
    } else if lobby_expired(s[0], now) {
        spec_keep_lobbies(s.drop_first(), now)
    } else {
        seq![s[0]] + spec_keep_lobbies(s.drop_first(), now)
    }
}

/// The sweep only drops expired lobbies: a lobby whose empty grace has
/// not elapsed (an empty lobby within its grace, or any lobby with a
/// connected member) stays in the registry, and every survivor was
/// there before.
pub proof fn lemma_keep_lobbies_members(s: Seq<Lobby>, now: u64)
    ensures
        forall|k: int|
            0 <= k < s.len() && !lobby_expired(#[trigger] s[k], now) ==> spec_keep_lobbies(
                s,
                now,
            ).contains(s[k]),
        forall|k: int|
            0 <= k < spec_keep_lobbies(s, now).len() ==> s.contains(
                #[trigger] spec_keep_lobbies(s, now)[k],
            ),
    decreases s.len(),
{
    if s.len() > 0 {
        let d = s.drop_first();
        lemma_keep_lobbies_members(d, now);
        let kd = spec_keep_lobbies(d, now);
        let kp = spec_keep_lobbies(s, now);
        assert(forall|k: int| 0 <= k < d.len() ==> d[k] == s[k + 1]);
        assert forall|k: int|
            0 <= k < s.len() && !lobby_expired(#[trigger] s[k], now) implies kp.contains(
            s[k],
        ) by {
            if k == 0 {
                assert(kp[0] == s[0]);
            } else {
                assert(d[k - 1] == s[k]);
                assert(kd.contains(d[k - 1]));
                let w = choose|w: int| 0 <= w < kd.len() && kd[w] == d[k - 1];
                if lobby_expired(s[0], now) {
                    assert(kp[w] == s[k]);
                } else {
                    assert(kp[w + 1] == s[k]);
                }
            }
        }
        assert forall|k: int| 0 <= k < kp.len() implies s.contains(#[trigger] kp[k]) by {
            if lobby_expired(s[0], now) {
                assert(kp[k] == kd[k]);
                assert(d.contains(kd[k]));
                let w = choose|w: int| 0 <= w < d.len() && d[w] == kd[k];
                assert(s[w + 1] == kp[k]);
            } else {
                if k == 0 {
                    assert(s[0] == kp[0]);
                } else {
                    assert(kp[k] == kd[k - 1]);
                    assert(d.contains(kd[k - 1]));
                    let w = choose|w: int| 0 <= w < d.len() && d[w] == kd[k - 1];
                    assert(s[w + 1] == kp[k]);
                }
            }
        }
    }
}

/// One lobby after a cleanup sweep of its members.
pub open spec fn spec_swept(l0: Lobby, l1: Lobby, now: u64) -> bool {
    &&& l1.players@ == spec_keep_players(l0.players@, now)
    &&& l1.empty_since == (if !any_connected(l1.players@) && l0.empty_since is None {
        Some(now)
    } else {
        l0.empty_since
    })
    &&& l1.host_id == l0.host_id
    &&& l1.lobby_id == l0.lobby_id
    &&& l1.lobby_type == l0.lobby_type
    &&& l1.lobby_code == l0.lobby_code
    &&& l1.channel_id == l0.channel_id
    &&& l1.guild_id == l0.guild_id
    &&& l1.active_game_id == l0.active_game_id
    &&& l1.game_starting == l0.game_starting
    &&& l1.created_at == l0.created_at
}

/// One lobby after a member joined (or reconnected).
pub open spec fn spec_joined(
    l0: Lobby,
    l1: Lobby,
    uid: i64,
    username: String,
    avatar_url: Option<String>,
) -> bool {
    &&& l1.players@ == spec_join_players(l0.players@, uid, username, avatar_url)
    &&& l1.host_id == spec_join_host(l0.host_id, l0.players@, uid)
    &&& l1.empty_since is None
    &&& l1.lobby_id == l0.lobby_id
    &&& l1.lobby_type == l0.lobby_type
    &&& l1.lobby_code == l0.lobby_code
    &&& l1.channel_id == l0.channel_id
    &&& l1.guild_id == l0.guild_id
    &&& l1.active_game_id == l0.active_game_id
    &&& l1.game_starting == l0.game_starting
    &&& l1.created_at == l0.created_at
}

/// A character allowed in lobby codes: an upper-case letter other than
/// `I` and `O`, or a digit from `2` to `9`.
pub open spec fn is_code_char(c: char) -> bool {
    ('A' <= c && c <= 'Z' && c != 'I' && c != 'O') || ('2' <= c && c <= '9')
}

/// A well-formed lobby code: six characters of the readable alphabet.
pub open spec fn code_wf(s: Seq<char>) -> bool {
    s.len() == LOBBY_CODE_LENGTH && forall|i: int| 0 <= i < s.len() ==> is_code_char(#[trigger] s[i])
}

/// The character of the code alphabet at an index.
fn code_char_at(i: usize) -> (c: char)
    requires
        i < 32,
    ensures
        is_code_char(c),
{
    match i {
        0 => 'A',
        1 => 'B',
        2 => 'C',
        3 => 'D',
        4 => 'E',
        5 => 'F',
        6 => 'G',
        7 => 'H',
        8 => 'J',
        9 => 'K',
        10 => 'L',
        11 => 'M',
        12 => 'N',
        13 => 'P',
        14 => 'Q',
        15 => 'R',
        16 => 'S',
        17 => 'T',
        18 => 'U',
        19 => 'V',
        20 => 'W',
        21 => 'X',
        22 => 'Y',
        23 => 'Z',
        24 => '2',
        25 => '3',
        26 => '4',
        27 => '5',
        28 => '6',
        29 => '7',
        30 => '8',
        _ => '9',
    }
}

/// Generate a short, readable lobby code: six characters drawn uniformly
/// from an alphabet that leaves out `I`, `O`, `0` and `1`.
pub fn generate_lobby_code() -> (code: String)
    ensures
        code_wf(code@),
{
    let mut code = String::new();
    let mut i: usize = 0;
    while i < LOBBY_CODE_LENGTH
        invariant
            0 <= i <= LOBBY_CODE_LENGTH,
            code@.len() == i,
            forall|k: int| 0 <= k < i ==> is_code_char(#[trigger] code@[k]),
        decreases LOBBY_CODE_LENGTH - i,
    {
        let idx = random_below(32);
        push_char(&mut code, code_char_at(idx));
        i = i + 1;
    }
    code
}

/// A well-formed registry: each lobby well-formed, no two lobbies under
/// one id, and no two live lobbies under one code.
pub open spec fn registry_wf(s: Seq<Lobby>) -> bool {
    &&& forall|i: int| 0 <= i < s.len() ==> (#[trigger] s[i]).wf()
    &&& forall|i: int, j: int|
        0 <= i < j < s.len() ==> s[i].lobby_id@ != s[j].lobby_id@
    &&& forall|i: int, j: int|
        0 <= i < j < s.len() && s[i].lobby_code is Some && s[j].lobby_code is Some
            ==> s[i].lobby_code->0@ != s[j].lobby_code->0@
}

/// Replacing one lobby while keeping its id and code keeps the registry
/// well-formed.
proof fn lemma_registry_wf_update(s: Seq<Lobby>, i: int, l: Lobby)
    requires
        registry_wf(s),
        0 <= i < s.len(),
        l.wf(),
        l.lobby_id == s[i].lobby_id,
        l.lobby_code == s[i].lobby_code,
    ensures
        registry_wf(s.update(i, l)),
{
    let u = s.update(i, l);
    assert(forall|k: int| 0 <= k < u.len() ==> (#[trigger] u[k]) == (if k == i {
        l
    } else {
        s[k]
    }));
}

/// What a join through the registry reports back.
pub struct JoinInfo {
    pub lobby_type: LobbyType,
    pub lobby_code: Option<String>,
    pub is_host: bool,
    pub active_game_id: Option<u128>,
}

/// The process-wide registry of lobbies.
pub struct LobbyRegistry {
    pub lobbies: Vec<Lobby>,
}

impl LobbyRegistry {
    pub open spec fn wf(&self) -> bool {
        registry_wf(self.lobbies@)
    }

    /// Some lobby carries this id.
    pub open spec fn spec_has_lobby(&self, id: Seq<char>) -> bool {
        exists|i: int| 0 <= i < self.lobbies@.len() && (#[trigger] self.lobbies@[i]).lobby_id@ == id
    }

    /// Some lobby carries this code.
    pub open spec fn spec_has_code(&self, code: Seq<char>) -> bool {
        exists|i: int|
            0 <= i < self.lobbies@.len() && (#[trigger] self.lobbies@[i]).lobby_code is Some
                && self.lobbies@[i].lobby_code->0@ == code
    }

    pub fn new() -> (r: Self)
        ensures
            r.wf(),
            r.lobbies@.len() == 0,
    {
        LobbyRegistry { lobbies: Vec::new() }
    }

    /// The index of the lobby with this id, if present.
    pub fn find_index(&self, lobby_id: &str) -> (r: Option<usize>)
        ensures
            match r {
                Some(i) => i < self.lobbies@.len() && self.lobbies@[i as int].lobby_id@
                    == lobby_id@,
                None => !self.spec_has_lobby(lobby_id@),
            },
    {
        let key = lobby_id.to_owned();
        let mut i: usize = 0;
        while i < self.lobbies.len()
            invariant
                key@ == lobby_id@,
                0 <= i <= self.lobbies@.len(),
                forall|k: int|
                    0 <= k < i ==> (#[trigger] self.lobbies@[k]).lobby_id@ != lobby_id@,
            decreases self.lobbies@.len() - i,
        {
            if self.lobbies[i].lobby_id.eq(&key) {
                return Some(i);
            }
            i = i + 1;
        }
        None
    }

    /// Get the lobby for a chat channel, creating it on first use. A
    /// second call for the same channel finds the lobby it made.
    pub fn get_or_create_channel_lobby(
        &mut self,
        channel_id: &str,
        guild_id: Option<String>,
        now: u64,
    ) -> (id: String)
        requires
            old(self).wf(),
        ensures
            final(self).wf(),
            id@ == "channel:"@ + channel_id@,
            final(self).spec_has_lobby(id@),
            old(self).spec_has_lobby(id@) ==> *final(self) == *old(self),
            !old(self).spec_has_lobby(id@) ==> final(self).lobbies@.len() == old(self).lobbies@.len() + 1 && final(self).lobbies@.drop_last() == old(self).lobbies@
                && final(self).lobbies@.last().players@.len() == 0 && final(self).lobbies@.last().host_id is None && final(self).lobbies@.last().active_game_id
                is None,
    {
        let mut id = String::new();
        id.append("channel:");
        id.append(channel_id);
        proof {
            assert(Seq::<char>::empty() + "channel:"@ + channel_id@ =~= "channel:"@
                + channel_id@);
        }
        match self.find_index(id.as_str()) {
            Some(i) => {
                assert(self.spec_has_lobby(id@));
                id
            },
            None => {
                let lobby = Lobby::new_channel(channel_id.to_owned(), guild_id, now);
                let ghost s0 = self.lobbies@;
                self.lobbies.push(lobby);
                proof {
                    assert(self.lobbies@.drop_last() =~= s0);
                    assert(self.lobbies@.last().lobby_id@ == id@);
                    assert(forall|k: int|
                        0 <= k < s0.len() ==> (#[trigger] self.lobbies@[k]) == s0[k]);
                    assert(self.spec_has_lobby(id@));
                }
                id
            },
        }
    }

    /// Register a custom lobby under a specific code, if the code (and
    /// its id) is free. On a collision nothing changes and the caller
    /// retries with a fresh code. Afterwards the lobby is reachable by
    /// its code, and by no other live lobby's code.
    pub fn create_custom_lobby_with_code(&mut self, code: &str, now: u64) -> (r: Option<String>)
        requires
            old(self).wf(),
        ensures
            final(self).wf(),
            match r {
                Some(id) => {
                    &&& !old(self).spec_has_code(code@)
                    &&& id@ == "custom:"@ + code@
                    &&& final(self).spec_has_code(code@)
                    &&& final(self).spec_has_lobby(id@)
                    &&& final(self).lobbies@.len() == old(self).lobbies@.len() + 1
                    &&& final(self).lobbies@.drop_last() == old(self).lobbies@
                    &&& final(self).lobbies@.last().lobby_code == Some(
                        final(self).lobbies@.last().lobby_code->0,
                    )
                    &&& final(self).lobbies@.last().lobby_code->0@ == code@
                    &&& final(self).lobbies@.last().lobby_id@ == id@
                    &&& final(self).lobbies@.last().players@.len() == 0
                },
                None => *final(self) == *old(self) && (old(self).spec_has_code(code@) || old(self).spec_has_lobby("custom:"@ + code@)),
            },
    {
        let mut id = String::new();
        id.append("custom:");
        id.append(code);
        proof {
            assert(Seq::<char>::empty() + "custom:"@ + code@ =~= "custom:"@ + code@);
        }
        if self.has_code_inner(code) {
            return None;
        }
        if self.find_index(id.as_str()).is_some() {
            return None;
        }
        let lobby = Lobby::new_custom(code.to_owned(), now);
        let ghost s0 = self.lobbies@;
        self.lobbies.push(lobby);
        proof {
            assert(self.lobbies@.drop_last() =~= s0);
            assert(forall|k: int| 0 <= k < s0.len() ==> (#[trigger] self.lobbies@[k]) == s0[k]);
            assert(self.lobbies@.last().lobby_code->0@ == code@);
            assert(self.spec_has_code(code@));
            assert(self.spec_has_lobby(id@));
        }
        Some(id)
    }

    /// Whether some lobby carries this exact code.
    fn has_code_inner(&self, code: &str) -> (r: bool)
        ensures
            r == self.spec_has_code(code@),
    {
        let key = code.to_owned();
        let mut i: usize = 0;
        while i < self.lobbies.len()
            invariant
                key@ == code@,
                0 <= i <= self.lobbies@.len(),
                forall|k: int|
                    0 <= k < i ==> !((#[trigger] self.lobbies@[k]).lobby_code is Some
                        && self.lobbies@[k].lobby_code->0@ == code@),
            decreases self.lobbies@.len() - i,
        {
            match &self.lobbies[i].lobby_code {
                Some(c) => {
                    if c.eq(&key) {
                        assert(self.lobbies@[i as int].lobby_code->0@ == code@);
                        return true;
                    }
                },
                None => {},
            }
            i = i + 1;
        }
        false
    }

    /// Create a custom lobby under a freshly generated code, drawing new
    /// codes until one is free. Gives up after very many collisions in a
    /// row, which a registry of practical size cannot produce.
    pub fn create_custom_lobby(&mut self, now: u64) -> (r: Option<(String, String)>)
        requires
            old(self).wf(),
        ensures
            final(self).wf(),
            match r {
                Some(pair) => {
                    &&& code_wf(pair.1@)
                    &&& pair.0@ == "custom:"@ + pair.1@
                    &&& !old(self).spec_has_code(pair.1@)
                    &&& final(self).spec_has_code(pair.1@)
                    &&& final(self).spec_has_lobby(pair.0@)
                    &&& final(self).lobbies@.len() == old(self).lobbies@.len() + 1
                    &&& final(self).lobbies@.drop_last() == old(self).lobbies@
                    &&& final(self).lobbies@.last().lobby_code is Some
                    &&& final(self).lobbies@.last().lobby_code->0@ == pair.1@
                    &&& final(self).lobbies@.last().lobby_id@ == pair.0@
                    &&& final(self).lobbies@.last().players@.len() == 0
                },
                None => *final(self) == *old(self),
            },
    {
        let mut attempts: usize = 0;
        while attempts < 4096
            invariant
                self.wf(),
                *self == *old(self),
            decreases 4096 - attempts,
        {
            let code = generate_lobby_code();
            match self.create_custom_lobby_with_code(code.as_str(), now) {
                Some(id) => {
                    return Some((id, code));
                },
                None => {},
            }
            attempts = attempts + 1;
        }
        None
    }

    /// Find a custom lobby by its code, after trimming and upper-casing.
    pub fn find_lobby_by_code(&self, code: &str) -> (r: Option<String>)
        ensures
            match r {
                Some(id) => exists|i: int|
                    0 <= i < self.lobbies@.len() && (#[trigger] self.lobbies@[i]).lobby_code
                        is Some && self.lobbies@[i].lobby_code->0@ == spec_upper(
                        spec_trim(code@),
                    ) && id@ == self.lobbies@[i].lobby_id@,
                None => !self.spec_has_code(spec_upper(spec_trim(code@))),
            },
    {
        let normalized = to_upper(trim_substr(code));
        let mut i: usize = 0;
        while i < self.lobbies.len()
            invariant
                normalized@ == spec_upper(spec_trim(code@)),
                0 <= i <= self.lobbies@.len(),
                forall|k: int|
                    0 <= k < i ==> !((#[trigger] self.lobbies@[k]).lobby_code is Some
                        && self.lobbies@[k].lobby_code->0@ == normalized@),
            decreases self.lobbies@.len() - i,
        {
            match &self.lobbies[i].lobby_code {
                Some(c) => {
                    if c.eq(&normalized) {
                        return Some(self.lobbies[i].lobby_id.clone());
                    }
                },
                None => {},
            }
            i = i + 1;
        }
        None
    }

    /// Join a lobby (or reconnect to it). Reports the lobby's kind, code,
    /// whether the joiner now hosts it, and its running game.
    pub fn join(
        &mut self,
        lobby_id: &str,
        user_id: i64,
        username: String,
        avatar_url: Option<String>,
    ) -> (r: Option<JoinInfo>)
        requires
            old(self).wf(),
        ensures
            final(self).wf(),
            match r {
                Some(info) => exists|i: int|
                    {
                        &&& 0 <= i < old(self).lobbies@.len()
                        &&& (#[trigger] old(self).lobbies@[i]).lobby_id@ == lobby_id@
                        &&& final(self).lobbies@ == old(self).lobbies@.update(
                            i,
                            final(self).lobbies@[i],
                        )
                        &&& spec_joined(
                            old(self).lobbies@[i],
                            final(self).lobbies@[i],
                            user_id,
                            username,
                            avatar_url,
                        )
                        &&& info.lobby_type == old(self).lobbies@[i].lobby_type
                        &&& info.lobby_code == old(self).lobbies@[i].lobby_code
                        &&& info.active_game_id == old(self).lobbies@[i].active_game_id
                        &&& info.is_host == (final(self).lobbies@[i].host_id == Some(user_id))
                    },
                None => *final(self) == *old(self) && !old(self).spec_has_lobby(lobby_id@),
            },
    {
        match self.find_index(lobby_id) {
            None => None,
            Some(i) => {
                let ghost s0 = self.lobbies@;
                let l = &mut self.lobbies[i];
                let is_host = l.join_player(user_id, username, avatar_url);
                let info = JoinInfo {
                    lobby_type: l.lobby_type,
                    lobby_code: match &l.lobby_code {
                        Some(c) => Some(c.clone()),
                        None => None,
                    },
                    is_host,
                    active_game_id: l.active_game_id,
                };
                proof {
                    lemma_registry_wf_update(s0, i as int, self.lobbies@[i as int]);
                    assert(self.lobbies@ =~= s0.update(i as int, self.lobbies@[i as int]));
                }
                Some(info)
            },
        }
    }

    /// Mark a member of a lobby as awaiting reconnection.
    pub fn mark_awaiting_reconnect(&mut self, lobby_id: &str, user_id: i64, now: u64)
        requires
            old(self).wf(),
        ensures
            final(self).wf(),
            old(self).spec_has_lobby(lobby_id@) ==> exists|i: int|
                {
                    &&& 0 <= i < old(self).lobbies@.len()
                    &&& (#[trigger] old(self).lobbies@[i]).lobby_id@ == lobby_id@
                    &&& final(self).lobbies@ == old(self).lobbies@.update(
                        i,
                        final(self).lobbies@[i],
                    )
                    &&& has_member(old(self).lobbies@[i].players@, user_id) ==> has_member(
                        final(self).lobbies@[i].players@,
                        user_id,
                    )
                },
            !old(self).spec_has_lobby(lobby_id@) ==> *final(self) == *old(self),
    {
        match self.find_index(lobby_id) {
            None => {},
            Some(i) => {
                let ghost s0 = self.lobbies@;
                let l = &mut self.lobbies[i];
                l.mark_awaiting_reconnect(user_id, now);
                proof {
                    lemma_registry_wf_update(s0, i as int, self.lobbies@[i as int]);
                    assert(self.lobbies@ =~= s0.update(i as int, self.lobbies@[i as int]));
                    assert(s0[i as int].lobby_id@ == lobby_id@);
                    assert(old(self).spec_has_lobby(lobby_id@));
                }
            },
        }
    }

    /// Remove a member who leaves a lobby on purpose.
    pub fn remove_player(&mut self, lobby_id: &str, user_id: i64, now: u64)
        requires
            old(self).wf(),
        ensures
            final(self).wf(),
            old(self).spec_has_lobby(lobby_id@) ==> exists|i: int|
                {
                    &&& 0 <= i < old(self).lobbies@.len()
                    &&& (#[trigger] old(self).lobbies@[i]).lobby_id@ == lobby_id@
                    &&& final(self).lobbies@ == old(self).lobbies@.update(
                        i,
                        final(self).lobbies@[i],
                    )
                    &&& !has_member(final(self).lobbies@[i].players@, user_id)
                },
            !old(self).spec_has_lobby(lobby_id@) ==> *final(self) == *old(self),
    {
        match self.find_index(lobby_id) {
            None => {},
            Some(i) => {
                let ghost s0 = self.lobbies@;
                let l = &mut self.lobbies[i];
                l.remove_player(user_id, now);
                proof {
                    lemma_registry_wf_update(s0, i as int, self.lobbies@[i as int]);
                    assert(self.lobbies@ =~= s0.update(i as int, self.lobbies@[i as int]));
                    assert(s0[i as int].lobby_id@ == lobby_id@);
                    assert(old(self).spec_has_lobby(lobby_id@));
                }
            },
        }
    }

    /// Atomically claim the right to start a game in a lobby.
    pub fn try_start_game(&mut self, lobby_id: &str) -> (r: bool)
        requires
            old(self).wf(),
        ensures
            final(self).wf(),
            r ==> exists|i: int|
                {
                    &&& 0 <= i < old(self).lobbies@.len()
                    &&& (#[trigger] old(self).lobbies@[i]).lobby_id@ == lobby_id@
                    &&& old(self).lobbies@[i].active_game_id is None
                    &&& !old(self).lobbies@[i].game_starting
                    &&& final(self).lobbies@ == old(self).lobbies@.update(
                        i,
                        Lobby { game_starting: true, ..old(self).lobbies@[i] },
                    )
                },
            !r ==> final(self).lobbies@ == old(self).lobbies@ && (forall|i: int|
                0 <= i < old(self).lobbies@.len() && (#[trigger] old(self).lobbies@[i]).lobby_id@
                    == lobby_id@ ==> (old(self).lobbies@[i].active_game_id is Some || old(
                    self,
                ).lobbies@[i].game_starting)),
    {
        match self.find_index(lobby_id) {
            None => {
                assert(forall|i: int|
                    0 <= i < self.lobbies@.len() ==> (#[trigger] self.lobbies@[i]).lobby_id@
                        != lobby_id@);
                false
            },
            Some(i) => {
                let ghost s0 = self.lobbies@;
                let l = &mut self.lobbies[i];
                let r = l.try_start_game();
                proof {
                    lemma_registry_wf_update(s0, i as int, self.lobbies@[i as int]);
                    assert(self.lobbies@ =~= s0.update(i as int, self.lobbies@[i as int]));
                    if !r {
                        assert(self.lobbies@ =~= s0);
                        assert forall|j: int|
                            0 <= j < s0.len() && (#[trigger] s0[j]).lobby_id@ == lobby_id@
                            implies (s0[j].active_game_id is Some || s0[j].game_starting) by {
                            if j != i as int {
                                assert(s0[j].lobby_id@ != s0[i as int].lobby_id@);
                            }
                        }
                    }
                }
                r
            },
        }
    }

    /// Clear a lobby's start-in-flight mark.
    pub fn clear_game_starting(&mut self, lobby_id: &str)
        requires
            old(self).wf(),
        ensures
            final(self).wf(),
            old(self).spec_has_lobby(lobby_id@) ==> exists|i: int|
                {
                    &&& 0 <= i < old(self).lobbies@.len()
                    &&& (#[trigger] old(self).lobbies@[i]).lobby_id@ == lobby_id@
                    &&& final(self).lobbies@ == old(self).lobbies@.update(
                        i,
                        Lobby { game_starting: false, ..old(self).lobbies@[i] },
                    )
                },
            !old(self).spec_has_lobby(lobby_id@) ==> *final(self) == *old(self),
    {
        match self.find_index(lobby_id) {
            None => {},
            Some(i) => {
                let ghost s0 = self.lobbies@;
                let l = &mut self.lobbies[i];
                l.clear_game_starting();
                proof {
                    lemma_registry_wf_update(s0, i as int, self.lobbies@[i as int]);
                    assert(self.lobbies@ =~= s0.update(i as int, self.lobbies@[i as int]));
                    assert(s0[i as int].lobby_id@ == lobby_id@);
                    assert(old(self).spec_has_lobby(lobby_id@));
                }
            },
        }
    }

    /// Record a lobby's started game and clear its start-in-flight mark.
    pub fn set_active_game(&mut self, lobby_id: &str, game_id: u128)
        requires
            old(self).wf(),
        ensures
            final(self).wf(),
            old(self).spec_has_lobby(lobby_id@) ==> exists|i: int|
                {
                    &&& 0 <= i < old(self).lobbies@.len()
                    &&& (#[trigger] old(self).lobbies@[i]).lobby_id@ == lobby_id@
                    &&& final(self).lobbies@ == old(self).lobbies@.update(
                        i,
                        Lobby {
                            active_game_id: Some(game_id),
                            game_starting: false,
                            ..old(self).lobbies@[i]
                        },
                    )
                },
            !old(self).spec_has_lobby(lobby_id@) ==> *final(self) == *old(self),
    {
        match self.find_index(lobby_id) {
            None => {},
            Some(i) => {
                let ghost s0 = self.lobbies@;
                let l = &mut self.lobbies[i];
                l.set_active_game(game_id);
                proof {
                    lemma_registry_wf_update(s0, i as int, self.lobbies@[i as int]);
                    assert(self.lobbies@ =~= s0.update(i as int, self.lobbies@[i as int]));
                    assert(s0[i as int].lobby_id@ == lobby_id@);
                    assert(old(self).spec_has_lobby(lobby_id@));
                }
            },
        }
    }

    /// Clear a lobby's active game (when it ends).
    pub fn clear_active_game(&mut self, lobby_id: &str)
        requires
            old(self).wf(),
        ensures
            final(self).wf(),
            old(self).spec_has_lobby(lobby_id@) ==> exists|i: int|
                {
                    &&& 0 <= i < old(self).lobbies@.len()
                    &&& (#[trigger] old(self).lobbies@[i]).lobby_id@ == lobby_id@
                    &&& final(self).lobbies@ == old(self).lobbies@.update(
                        i,
                        Lobby { active_game_id: None, ..old(self).lobbies@[i] },
                    )
                },
            !old(self).spec_has_lobby(lobby_id@) ==> *final(self) == *old(self),
    {
        match self.find_index(lobby_id) {
            None => {},
            Some(i) => {
                let ghost s0 = self.lobbies@;
                let l = &mut self.lobbies[i];
                l.clear_active_game();
                proof {
                    lemma_registry_wf_update(s0, i as int, self.lobbies@[i as int]);
                    assert(self.lobbies@ =~= s0.update(i as int, self.lobbies@[i as int]));
                    assert(s0[i as int].lobby_id@ == lobby_id@);
                    assert(old(self).spec_has_lobby(lobby_id@));
                }
            },
        }
    }

    /// The periodic cleanup sweep: drop members whose reconnection grace
    /// has elapsed, then drop lobbies whose empty grace has elapsed.
    /// Returns the removed members with their lobby ids, and the ids of
    /// the removed lobbies.
    #[verifier::loop_isolation(false)]
    #[verifier::rlimit(50)]
    pub fn cleanup(&mut self, now: u64) -> (r: (Vec<(String, i64)>, Vec<String>))
        requires
            old(self).wf(),
        ensures
            final(self).wf(),
            exists|mid: Seq<Lobby>|
                {
                    &&& mid.len() == old(self).lobbies@.len()
                    &&& (forall|i: int|
                        0 <= i < mid.len() ==> spec_swept(
                            old(self).lobbies@[i],
                            #[trigger] mid[i],
                            now,
                        ))
                    &&& final(self).lobbies@ == spec_keep_lobbies(mid, now)
                },
    {
        let mut removed_players: Vec<(String, i64)> = Vec::new();
        let n = self.lobbies.len();
        let ghost s0 = self.lobbies@;
        let mut i: usize = 0;
        while i < n
            invariant
                registry_wf(self.lobbies@),
                s0 == old(self).lobbies@,
                n == s0.len(),
                self.lobbies@.len() == n,
                0 <= i <= n,
                forall|k: int|
                    0 <= k < i ==> spec_swept(s0[k], #[trigger] self.lobbies@[k], now),
                forall|k: int| i <= k < n ==> (#[trigger] self.lobbies@[k]) == s0[k],
            decreases n - i,
        {
            let ghost sc = self.lobbies@;
            let l = &mut self.lobbies[i];
            let removed = l.remove_expired_players(now);
            let mut j: usize = 0;
            while j < removed.len()
                invariant
                    0 <= j <= removed@.len(),
                decreases removed@.len() - j,
            {
                removed_players.push((l.lobby_id.clone(), removed[j]));
                j = j + 1;
            }
            proof {
                lemma_registry_wf_update(sc, i as int, self.lobbies@[i as int]);
                assert(self.lobbies@ =~= sc.update(i as int, self.lobbies@[i as int]));
            }
            i = i + 1;
        }
        let ghost mid = self.lobbies@;
        proof {
            assert(mid.take(n as int) =~= mid);
            assert(mid.skip(n as int) =~= Seq::<Lobby>::empty());
            assert(mid.take(n as int) + spec_keep_lobbies(mid.skip(n as int), now) =~= mid);
        }
        // second pass: drop lobbies whose empty grace has elapsed
        let mut removed_lobbies: Vec<String> = Vec::new();
        let mut k: usize = n;
        while k > 0
            invariant
                registry_wf(self.lobbies@),
                mid.len() == n,
                0 <= k <= n,
                self.lobbies@ =~= mid.take(k as int) + spec_keep_lobbies(mid.skip(k as int), now),
            decreases k,
        {
            k = k - 1;
            let expired = match self.lobbies[k].empty_since {
                Some(since) => since < now && now - since > LOBBY_EMPTY_GRACE_SECS,
                None => false,
            };
            proof {
                assert(self.lobbies@[k as int] == mid[k as int]);
                assert(mid.skip(k as int).drop_first() =~= mid.skip(k as int + 1));
                assert(mid.skip(k as int)[0] == mid[k as int]);
            }
            if expired {
                let ghost prev = self.lobbies@;
                let l = self.lobbies.remove(k);
                removed_lobbies.push(l.lobby_id);
                proof {
                    lemma_registry_wf_remove(prev, k as int);
                    assert(self.lobbies@ =~= mid.take(k as int) + spec_keep_lobbies(
                        mid.skip(k as int),
                        now,
                    )) by {
                        assert(prev =~= mid.take(k as int + 1) + spec_keep_lobbies(
                            mid.skip(k as int + 1),
                            now,
                        ));
                        assert(self.lobbies@ =~= prev.remove(k as int));
                        assert(spec_keep_lobbies(mid.skip(k as int), now) == spec_keep_lobbies(
                            mid.skip(k as int + 1),
                            now,
                        ));
                        assert(forall|a: int|
                            0 <= a < self.lobbies@.len() ==> (#[trigger] self.lobbies@[a]) == (
                            if a < k as int {
                                prev[a]
                            } else {
                                prev[a + 1]
                            }));
                    }
                }
            } else {
                proof {
                    assert(self.lobbies@ =~= mid.take(k as int) + (seq![mid[k as int]]
                        + spec_keep_lobbies(mid.skip(k as int + 1), now)));
                }
            }
        }
        proof {
            assert(self.lobbies@ =~= spec_keep_lobbies(mid, now)) by {
                assert(mid.take(0) =~= Seq::<Lobby>::empty());
                assert(mid.skip(0) =~= mid);
                assert(Seq::<Lobby>::empty() + spec_keep_lobbies(mid, now) =~= spec_keep_lobbies(
                    mid,
                    now,
                ));
            }
        }
        (removed_players, removed_lobbies)
    }
}

/// Removing one lobby keeps the registry well-formed.
proof fn lemma_registry_wf_remove(s: Seq<Lobby>, k: int)
    requires
        registry_wf(s),
        0 <= k < s.len(),
    ensures
        registry_wf(s.remove(k)),
{
    let r = s.remove(k);
    assert(forall|a: int|
        0 <= a < r.len() ==> (#[trigger] r[a]) == (if a < k {
            s[a]
        } else {
            s[a + 1]
        }));
    assert forall|a: int, b: int| 0 <= a < b < r.len() implies r[a].lobby_id@
        != r[b].lobby_id@ by {
        let a2 = if a < k {
            a
        } else {
            a + 1
        };
        let b2 = if b < k {
            b
        } else {
            b + 1
        };
        assert(r[a] == s[a2]);
        assert(r[b] == s[b2]);
        assert(0 <= a2 < b2 < s.len());
    }
    assert forall|a: int, b: int|
        0 <= a < b < r.len() && r[a].lobby_code is Some && r[b].lobby_code is Some implies r[a].lobby_code->0@
        != r[b].lobby_code->0@ by {
        let a2 = if a < k {
            a
        } else {
            a + 1
        };
        let b2 = if b < k {
            b
        } else {
            b + 1
        };
        assert(r[a] == s[a2]);
        assert(r[b] == s[b2]);
        assert(0 <= a2 < b2 < s.len());
    }
}

} // verus!

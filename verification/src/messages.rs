use vstd::prelude::*;

use crate::grid::{GridCell, Multiplier, Position};
use crate::json::{obj_get, spec_obj_get, str_is, Json};
use crate::lobby::LobbyType;
use crate::session::GameMode;

verus! {

/// Messages sent from client to server.
#[derive(Debug)]
pub enum ClientMessage {
    /// Join a channel-based lobby
    JoinChannelLobby { channel_id: String, guild_id: Option<String> },
    /// Create a new custom lobby with a shareable code
    CreateCustomLobby,
    /// Join an existing custom lobby by its code
    JoinCustomLobby { lobby_code: String },
    /// Leave the current lobby
    LeaveLobby,
    StartGame,
    SubmitWord { word: String, positions: Vec<Position> },
    PassTurn,
    Heartbeat,
}

/// A JSON value holding exactly this position.
pub open spec fn pos_encoding(j: Json, p: Position) -> bool {
    &&& j is Obj
    &&& spec_obj_get(j->Obj_0@, "row"@) matches Some(Json::Int(r)) && r == p.row
    &&& spec_obj_get(j->Obj_0@, "col"@) matches Some(Json::Int(c)) && c == p.col
    &&& p.row <= 0x7fffffff
    &&& p.col <= 0x7fffffff
}

/// A JSON value holding exactly this list of positions.
pub open spec fn positions_encoding(j: Json, ps: Seq<Position>) -> bool {
    &&& j is Arr
    &&& j->Arr_0@.len() == ps.len()
    &&& forall|k: int| 0 <= k < ps.len() ==> pos_encoding(#[trigger] j->Arr_0@[k], ps[k])
}

/// An optional string member: absent or null for none.
pub open spec fn opt_str_encoding(v: Option<Json>, o: Option<String>) -> bool {
    match o {
        Some(s) => v matches Some(Json::Str(t)) && t@ == s@,
        None => v is None || v == Some(Json::Null),
    }
}

/// The tag a client message carries on the wire.
pub open spec fn client_tag(m: ClientMessage) -> Seq<char> {
    match m {
        ClientMessage::JoinChannelLobby { .. } => "join_channel_lobby"@,
        ClientMessage::CreateCustomLobby => "create_custom_lobby"@,
        ClientMessage::JoinCustomLobby { .. } => "join_custom_lobby"@,
        ClientMessage::LeaveLobby => "leave_lobby"@,
        ClientMessage::StartGame => "start_game"@,
        ClientMessage::SubmitWord { .. } => "submit_word"@,
        ClientMessage::PassTurn => "pass_turn"@,
        ClientMessage::Heartbeat => "heartbeat"@,
    }
}

/// A JSON value carrying exactly this client message: a tagged object
/// whose `type` member names the variant and whose members hold the
/// fields.
pub open spec fn client_decoding(j: Json, m: ClientMessage) -> bool {
    &&& j is Obj
    &&& spec_obj_get(j->Obj_0@, "type"@) matches Some(Json::Str(tag)) && tag@ == client_tag(m)
    &&& match m {
        ClientMessage::JoinChannelLobby { channel_id, guild_id } => {
            &&& spec_obj_get(j->Obj_0@, "channel_id"@) matches Some(Json::Str(c)) && c@
                == channel_id@
            &&& opt_str_encoding(spec_obj_get(j->Obj_0@, "guild_id"@), guild_id)
        },
        ClientMessage::JoinCustomLobby { lobby_code } => spec_obj_get(j->Obj_0@, "lobby_code"@)
            matches Some(Json::Str(c)) && c@ == lobby_code@,
        ClientMessage::SubmitWord { word, positions } => {
            &&& spec_obj_get(j->Obj_0@, "word"@) matches Some(Json::Str(w)) && w@ == word@
            &&& spec_obj_get(j->Obj_0@, "positions"@) matches Some(arr) && positions_encoding(
                arr,
                positions@,
            )
        },
        _ => true,
    }
}

/// Two messages carried by one JSON value agree in every observable part.
/// Together with the codec contracts this is the round-trip law: what a
/// decode returns for an encoding is the encoded message itself.
pub proof fn lemma_client_decoding_functional(j: Json, m1: ClientMessage, m2: ClientMessage)
    requires
        client_decoding(j, m1),
        client_decoding(j, m2),
    ensures
        client_messages_match(m1, m2),
{
    reveal_strlit("join_channel_lobby");
    reveal_strlit("create_custom_lobby");
    reveal_strlit("join_custom_lobby");
    reveal_strlit("leave_lobby");
    reveal_strlit("start_game");
    reveal_strlit("submit_word");
    reveal_strlit("pass_turn");
    reveal_strlit("heartbeat");
    assert("join_channel_lobby"@.len() == 18);
    assert("create_custom_lobby"@.len() == 19);
    assert("join_custom_lobby"@.len() == 17);
    assert("leave_lobby"@.len() == 11);
    assert("start_game"@.len() == 10);
    assert("submit_word"@.len() == 11);
    assert("pass_turn"@.len() == 9);
    assert("heartbeat"@.len() == 9);
    assert("leave_lobby"@[0] == 'l' && "submit_word"@[0] == 's');
    assert("pass_turn"@[0] == 'p' && "heartbeat"@[0] == 'h');
    assert(client_tag(m1) == client_tag(m2));
    match (m1, m2) {
        (
            ClientMessage::SubmitWord { word: w1, positions: p1 },
            ClientMessage::SubmitWord { word: w2, positions: p2 },
        ) => {
            let arrj = spec_obj_get(j->Obj_0@, "positions"@)->0;
            assert(positions_encoding(arrj, p1@));
            assert(positions_encoding(arrj, p2@));
            assert(p1@ =~= p2@) by {
                assert forall|k: int| 0 <= k < p1@.len() implies p1@[k] == p2@[k] by {
                    assert(pos_encoding(arrj->Arr_0@[k], p1@[k]));
                    assert(pos_encoding(arrj->Arr_0@[k], p2@[k]));
                }
            }
        },
        _ => {},
    }
}

/// Two client messages agree in every observable part: same variant,
/// and field views equal.
pub open spec fn client_messages_match(m1: ClientMessage, m2: ClientMessage) -> bool {
    match (m1, m2) {
        (
            ClientMessage::JoinChannelLobby { channel_id: c1, guild_id: g1 },
            ClientMessage::JoinChannelLobby { channel_id: c2, guild_id: g2 },
        ) => c1@ == c2@ && match (g1, g2) {
            (Some(a), Some(b)) => a@ == b@,
            (None, None) => true,
            _ => false,
        },
        (ClientMessage::CreateCustomLobby, ClientMessage::CreateCustomLobby) => true,
        (
            ClientMessage::JoinCustomLobby { lobby_code: c1 },
            ClientMessage::JoinCustomLobby { lobby_code: c2 },
        ) => c1@ == c2@,
        (ClientMessage::LeaveLobby, ClientMessage::LeaveLobby) => true,
        (ClientMessage::StartGame, ClientMessage::StartGame) => true,
        (
            ClientMessage::SubmitWord { word: w1, positions: p1 },
            ClientMessage::SubmitWord { word: w2, positions: p2 },
        ) => w1@ == w2@ && p1@ == p2@,
        (ClientMessage::PassTurn, ClientMessage::PassTurn) => true,
        (ClientMessage::Heartbeat, ClientMessage::Heartbeat) => true,
        _ => false,
    }
}

/// Looking a key up in an object finds the member at the first index
/// whose name matches.
proof fn lemma_obj_get_at(fields: Seq<(String, Json)>, k: Seq<char>, i: int)
    requires
        0 <= i < fields.len(),
        fields[i].0@ == k,
        forall|w: int| 0 <= w < i ==> (#[trigger] fields[w]).0@ != k,
    ensures
        spec_obj_get(fields, k) == Some(fields[i].1),
    decreases i,
{
    if i > 0 {
        let d = fields.drop_first();
        assert(forall|w: int| 0 <= w < i - 1 ==> (#[trigger] d[w]).0@ != k);
        assert(d[i - 1] == fields[i]);
        lemma_obj_get_at(d, k, i - 1);
    }
}

/// A fresh string value of a literal.
fn key(k: &str) -> (r: String)
    ensures
        r@ == k@,
{
    k.to_owned()
}

/// Encode one position.
fn encode_position(p: &Position) -> (j: Json)
    requires
        p.row <= 0x7fffffff,
        p.col <= 0x7fffffff,
    ensures
        pos_encoding(j, *p),
{
    let mut fields: Vec<(String, Json)> = Vec::new();
    fields.push((key("row"), Json::Int(p.row as i64)));
    fields.push((key("col"), Json::Int(p.col as i64)));
    let j = Json::Obj(fields);
    proof {
        reveal_strlit("row");
        reveal_strlit("col");
        assert("row"@ != "col"@) by {
            reveal_strlit("row");
            reveal_strlit("col");
            assert("row"@[0] == 'r' && "col"@[0] == 'c');
        }
        lemma_obj_get_at(j->Obj_0@, "row"@, 0);
        lemma_obj_get_at(j->Obj_0@, "col"@, 1);
    }
    j
}

/// Decode one position.
fn decode_position(j: &Json) -> (r: Option<Position>)
    ensures
        match r {
            Some(p) => pos_encoding(*j, p),
            None => forall|p: Position| !pos_encoding(*j, p),
        },
{
    let fields = match j {
        Json::Obj(fields) => fields,
        _ => {
            return None;
        },
    };
    let row = match obj_get(fields, "row") {
        Some(Json::Int(n)) => {
            if *n < 0 || *n > 0x7fffffff {
                return None;
            }
            *n as usize
        },
        _ => {
            return None;
        },
    };
    let col = match obj_get(fields, "col") {
        Some(Json::Int(n)) => {
            if *n < 0 || *n > 0x7fffffff {
                return None;
            }
            *n as usize
        },
        _ => {
            return None;
        },
    };
    Some(Position { row, col })
}

/// Encode a path of positions.
pub fn encode_positions(ps: &Vec<Position>) -> (j: Json)
    requires
        forall|k: int|
            0 <= k < ps@.len() ==> (#[trigger] ps@[k]).row <= 0x7fffffff && ps@[k].col
                <= 0x7fffffff,
    ensures
        positions_encoding(j, ps@),
{
    let mut items: Vec<Json> = Vec::new();
    let mut i: usize = 0;
    while i < ps.len()
        invariant
            forall|k: int|
                0 <= k < ps@.len() ==> (#[trigger] ps@[k]).row <= 0x7fffffff && ps@[k].col
                    <= 0x7fffffff,
            0 <= i <= ps@.len(),
            items@.len() == i,
            forall|k: int| 0 <= k < i ==> pos_encoding(#[trigger] items@[k], ps@[k]),
        decreases ps@.len() - i,
    {
        items.push(encode_position(&ps[i]));
        i = i + 1;
    }
    Json::Arr(items)
}

/// Decode a path of positions.
fn decode_positions(j: &Json) -> (r: Option<Vec<Position>>)
    ensures
        match r {
            Some(ps) => positions_encoding(*j, ps@),
            None => forall|ps: Seq<Position>| !positions_encoding(*j, ps),
        },
{
    let items = match j {
        Json::Arr(items) => items,
        _ => {
            return None;
        },
    };
    let mut out: Vec<Position> = Vec::new();
    let mut i: usize = 0;
    while i < items.len()
        invariant
            *j == Json::Arr(*items),
            0 <= i <= items@.len(),
            out@.len() == i,
            forall|k: int| 0 <= k < i ==> pos_encoding(#[trigger] items@[k], out@[k]),
        decreases items@.len() - i,
    {
        match decode_position(&items[i]) {
            Some(p) => {
                out.push(p);
            },
            None => {
                proof {
                    assert forall|ps: Seq<Position>| !positions_encoding(*j, ps) by {
                        if positions_encoding(*j, ps) {
                            assert(pos_encoding(items@[i as int], ps[i as int]));
                        }
                    }
                }
                return None;
            },
        }
        i = i + 1;
    }
    Some(out)
}

/// Encode a client message as a tagged JSON object.
pub fn encode_client(m: &ClientMessage) -> (j: Json)
    requires
        m matches ClientMessage::SubmitWord { positions, .. } ==> forall|k: int|
            0 <= k < positions@.len() ==> (#[trigger] positions@[k]).row <= 0x7fffffff
                && positions@[k].col <= 0x7fffffff,
    ensures
        client_decoding(j, *m),
{
    proof {
        reveal_strlit("type");
        reveal_strlit("channel_id");
        reveal_strlit("guild_id");
        reveal_strlit("lobby_code");
        reveal_strlit("word");
        reveal_strlit("positions");
        reveal_strlit("join_channel_lobby");
        reveal_strlit("create_custom_lobby");
        reveal_strlit("join_custom_lobby");
        reveal_strlit("leave_lobby");
        reveal_strlit("start_game");
        reveal_strlit("submit_word");
        reveal_strlit("pass_turn");
        reveal_strlit("heartbeat");
    }
    let mut fields: Vec<(String, Json)> = Vec::new();
    match m {
        ClientMessage::JoinChannelLobby { channel_id, guild_id } => {
            fields.push((key("type"), Json::Str(key("join_channel_lobby"))));
            fields.push((key("channel_id"), Json::Str(channel_id.clone())));
            match guild_id {
                Some(g) => {
                    fields.push((key("guild_id"), Json::Str(g.clone())));
                },
                None => {
                    fields.push((key("guild_id"), Json::Null));
                },
            }
            let j = Json::Obj(fields);
            proof {
                let fs = j->Obj_0@;
                assert("type"@ != "channel_id"@) by {
                    reveal_strlit("type");
                    reveal_strlit("channel_id");
                    assert("type"@.len() == 4 && "channel_id"@.len() == 10);
                }
                assert("type"@ != "guild_id"@) by {
                    reveal_strlit("type");
                    reveal_strlit("guild_id");
                    assert("type"@.len() == 4 && "guild_id"@.len() == 8);
                }
                assert("channel_id"@ != "guild_id"@) by {
                    reveal_strlit("channel_id");
                    reveal_strlit("guild_id");
                    assert("channel_id"@.len() == 10 && "guild_id"@.len() == 8);
                }
                lemma_obj_get_at(fs, "type"@, 0);
                lemma_obj_get_at(fs, "channel_id"@, 1);
                lemma_obj_get_at(fs, "guild_id"@, 2);
            }
            j
        },
        ClientMessage::CreateCustomLobby => {
            fields.push((key("type"), Json::Str(key("create_custom_lobby"))));
            let j = Json::Obj(fields);
            proof {
                lemma_obj_get_at(j->Obj_0@, "type"@, 0);
            }
            j
        },
        ClientMessage::JoinCustomLobby { lobby_code } => {
            fields.push((key("type"), Json::Str(key("join_custom_lobby"))));
            fields.push((key("lobby_code"), Json::Str(lobby_code.clone())));
            let j = Json::Obj(fields);
            proof {
                let fs = j->Obj_0@;
                assert("type"@ != "lobby_code"@) by {
                    reveal_strlit("type");
                    reveal_strlit("lobby_code");
                    assert("type"@.len() == 4 && "lobby_code"@.len() == 10);
                }
                lemma_obj_get_at(fs, "type"@, 0);
                lemma_obj_get_at(fs, "lobby_code"@, 1);
            }
            j
        },
        ClientMessage::LeaveLobby => {
            fields.push((key("type"), Json::Str(key("leave_lobby"))));
            let j = Json::Obj(fields);
            proof {
                lemma_obj_get_at(j->Obj_0@, "type"@, 0);
            }
            j
        },
        ClientMessage::StartGame => {
            fields.push((key("type"), Json::Str(key("start_game"))));
            let j = Json::Obj(fields);
            proof {
                lemma_obj_get_at(j->Obj_0@, "type"@, 0);
            }
            j
        },
        ClientMessage::SubmitWord { word, positions } => {
            fields.push((key("type"), Json::Str(key("submit_word"))));
            fields.push((key("word"), Json::Str(word.clone())));
            fields.push((key("positions"), encode_positions(positions)));
            let j = Json::Obj(fields);
            proof {
                let fs = j->Obj_0@;
                assert("type"@ != "word"@) by {
                    reveal_strlit("type");
                    reveal_strlit("word");
                    assert("type"@[0] == 't' && "word"@[0] == 'w');
                }
                assert("type"@ != "positions"@) by {
                    reveal_strlit("type");
                    reveal_strlit("positions");
                    assert("type"@.len() == 4 && "positions"@.len() == 9);
                }
                assert("word"@ != "positions"@) by {
                    reveal_strlit("word");
                    reveal_strlit("positions");
                    assert("word"@.len() == 4 && "positions"@.len() == 9);
                }
                lemma_obj_get_at(fs, "type"@, 0);
                lemma_obj_get_at(fs, "word"@, 1);
                lemma_obj_get_at(fs, "positions"@, 2);
            }
            j
        },
        ClientMessage::PassTurn => {
            fields.push((key("type"), Json::Str(key("pass_turn"))));
            let j = Json::Obj(fields);
            proof {
                lemma_obj_get_at(j->Obj_0@, "type"@, 0);
            }
            j
        },
        ClientMessage::Heartbeat => {
            fields.push((key("type"), Json::Str(key("heartbeat"))));
            let j = Json::Obj(fields);
            proof {
                lemma_obj_get_at(j->Obj_0@, "type"@, 0);
            }
            j
        },
    }
}

/// Every client tag is one of the eight variant names.
proof fn lemma_client_tag_cases(m: ClientMessage)
    ensures
        client_tag(m) == "join_channel_lobby"@ || client_tag(m) == "create_custom_lobby"@
            || client_tag(m) == "join_custom_lobby"@ || client_tag(m) == "leave_lobby"@
            || client_tag(m) == "start_game"@ || client_tag(m) == "submit_word"@ || client_tag(m)
            == "pass_turn"@ || client_tag(m) == "heartbeat"@,
{
}

/// A tag names at most one variant.
proof fn lemma_client_tag_inversion(m: ClientMessage)
    ensures
        client_tag(m) == "join_channel_lobby"@ ==> m is JoinChannelLobby,
        client_tag(m) == "join_custom_lobby"@ ==> m is JoinCustomLobby,
        client_tag(m) == "submit_word"@ ==> m is SubmitWord,
{
    reveal_strlit("join_channel_lobby");
    reveal_strlit("create_custom_lobby");
    reveal_strlit("join_custom_lobby");
    reveal_strlit("leave_lobby");
    reveal_strlit("start_game");
    reveal_strlit("submit_word");
    reveal_strlit("pass_turn");
    reveal_strlit("heartbeat");
    assert("join_channel_lobby"@.len() == 18);
    assert("create_custom_lobby"@.len() == 19);
    assert("join_custom_lobby"@.len() == 17);
    assert("leave_lobby"@.len() == 11);
    assert("start_game"@.len() == 10);
    assert("submit_word"@.len() == 11);
    assert("pass_turn"@.len() == 9);
    assert("heartbeat"@.len() == 9);
    assert("leave_lobby"@[0] == 'l' && "submit_word"@[0] == 's');
}

/// Decode a client message from a tagged JSON object. Every value that
/// carries a message decodes to it; an unknown or malformed message
/// decodes to nothing (and the connection stays open; the caller answers
/// with a generic error).
pub fn decode_client(j: &Json) -> (r: Option<ClientMessage>)
    ensures
        match r {
            Some(m) => client_decoding(*j, m),
            None => forall|m: ClientMessage| !client_decoding(*j, m),
        },
{
    proof {
        reveal_strlit("join_channel_lobby");
        reveal_strlit("create_custom_lobby");
        reveal_strlit("join_custom_lobby");
        reveal_strlit("leave_lobby");
        reveal_strlit("start_game");
        reveal_strlit("submit_word");
        reveal_strlit("pass_turn");
        reveal_strlit("heartbeat");
    }
    let fields = match j {
        Json::Obj(fields) => fields,
        _ => {
            return None;
        },
    };
    let tag = match obj_get(fields, "type") {
        Some(Json::Str(tag)) => tag,
        _ => {
            return None;
        },
    };
    if str_is(tag, "join_channel_lobby") {
        let channel_id = match obj_get(fields, "channel_id") {
            Some(Json::Str(c)) => c.clone(),
            _ => {
                proof {
                    assert forall|m: ClientMessage| !client_decoding(*j, m) by {
                        if client_decoding(*j, m) {
                            lemma_client_tag_inversion(m);
                        }
                    }
                }
                return None;
            },
        };
        let guild_id = match obj_get(fields, "guild_id") {
            Some(Json::Str(g)) => Some(g.clone()),
            Some(Json::Null) => None,
            None => None,
            _ => {
                proof {
                    assert forall|m: ClientMessage| !client_decoding(*j, m) by {
                        if client_decoding(*j, m) {
                            lemma_client_tag_inversion(m);
                        }
                    }
                }
                return None;
            },
        };
        Some(ClientMessage::JoinChannelLobby { channel_id, guild_id })
    } else if str_is(tag, "create_custom_lobby") {
        Some(ClientMessage::CreateCustomLobby)
    } else if str_is(tag, "join_custom_lobby") {
        let lobby_code = match obj_get(fields, "lobby_code") {
            Some(Json::Str(c)) => c.clone(),
            _ => {
                proof {
                    assert forall|m: ClientMessage| !client_decoding(*j, m) by {
                        if client_decoding(*j, m) {
                            lemma_client_tag_inversion(m);
                        }
                    }
                }
                return None;
            },
        };
        Some(ClientMessage::JoinCustomLobby { lobby_code })
    } else if str_is(tag, "leave_lobby") {
        Some(ClientMessage::LeaveLobby)
    } else if str_is(tag, "start_game") {
        Some(ClientMessage::StartGame)
    } else if str_is(tag, "submit_word") {
        let word = match obj_get(fields, "word") {
            Some(Json::Str(w)) => w.clone(),
            _ => {
                proof {
                    assert forall|m: ClientMessage| !client_decoding(*j, m) by {
                        if client_decoding(*j, m) {
                            lemma_client_tag_inversion(m);
                        }
                    }
                }
                return None;
            },
        };
        let positions = match obj_get(fields, "positions") {
            Some(arr) => match decode_positions(arr) {
                Some(ps) => ps,
                None => {
                    proof {
                        assert forall|m: ClientMessage| !client_decoding(*j, m) by {
                            if client_decoding(*j, m) {
                                lemma_client_tag_inversion(m);
                            }
                        }
                    }
                    return None;
                },
            },
            None => {
                proof {
                    assert forall|m: ClientMessage| !client_decoding(*j, m) by {
                        if client_decoding(*j, m) {
                            lemma_client_tag_inversion(m);
                        }
                    }
                }
                return None;
            },
        };
        Some(ClientMessage::SubmitWord { word, positions })
    } else if str_is(tag, "pass_turn") {
        Some(ClientMessage::PassTurn)
    } else if str_is(tag, "heartbeat") {
        Some(ClientMessage::Heartbeat)
    } else {
        proof {
            assert forall|m: ClientMessage| !client_decoding(*j, m) by {
                if client_decoding(*j, m) {
                    lemma_client_tag_cases(m);
                }
            }
        }
        None
    }
}

/// Player information for game broadcasts.
#[derive(Debug)]
pub struct PlayerInfo {
    pub user_id: i64,
    pub username: String,
    pub avatar_url: Option<String>,
    pub score: i32,
    pub team: Option<i32>,
}

/// Simplified player info for lobby display. The id travels as a string
/// so that clients in languages without 64-bit integers keep it intact.
#[derive(Debug)]
pub struct LobbyPlayerInfo {
    pub user_id: String,
    pub username: String,
    pub avatar_url: Option<String>,
}

/// A player's seat at game start.
#[derive(Debug)]
pub struct GamePlayerInfo {
    pub user_id: String,
    pub username: String,
    pub avatar_url: Option<String>,
    pub turn_order: u8,
}

/// A player's final or running score.
#[derive(Debug)]
pub struct ScoreInfo {
    pub user_id: i64,
    pub username: String,
    pub score: i32,
}

/// Messages sent from server to client.
#[derive(Debug)]
pub enum ServerMessage {
    /// Confirmation that the user has joined a lobby
    LobbyJoined { lobby_id: String, lobby_type: LobbyType, lobby_code: Option<String> },
    /// Answer to a lobby creation: the code to share
    LobbyCreated { lobby_code: String },
    /// Sent to all connected clients when the lobby player list changes
    LobbyPlayerList { players: Vec<LobbyPlayerInfo>, lobby_code: Option<String> },
    /// A game began: the board, the seats, and who moves first
    GameStarted {
        game_id: String,
        grid: Vec<Vec<GridCell>>,
        players: Vec<GamePlayerInfo>,
        current_player_id: String,
        total_rounds: u8,
    },
    /// The authoritative snapshot of a running game
    GameState {
        game_id: String,
        mode: GameMode,
        round: i32,
        max_rounds: i32,
        grid: Vec<Vec<GridCell>>,
        players: Vec<PlayerInfo>,
        current_turn: Option<i64>,
        used_words: Vec<String>,
        timer_enabled: bool,
        time_remaining: Option<u32>,
    },
    /// A word submission was refused, with the reason
    InvalidWord { reason: String },
    /// The game ended, with the winner and the final scores
    GameOver { winner: Option<i64>, final_scores: Vec<ScoreInfo> },
    /// A game command was refused
    GameError { code: String, message: String },
    /// A generic error; the connection stays open
    Error { message: String },
    HeartbeatAck,
}

/// The name a lobby type travels under.
pub open spec fn lobby_type_name(t: LobbyType) -> Seq<char> {
    match t {
        LobbyType::Channel => "channel"@,
        LobbyType::Custom => "custom"@,
    }
}

/// The name a game mode travels under.
pub open spec fn mode_name(m: GameMode) -> Seq<char> {
    match m {
        GameMode::Multiplayer => "Multiplayer"@,
        GameMode::TwoVTwo => "2v2"@,
        GameMode::Adventure => "Adventure"@,
    }
}

/// The name a multiplier travels under.
pub open spec fn multiplier_name(m: Multiplier) -> Seq<char> {
    match m {
        Multiplier::DoubleLetter => "DL"@,
        Multiplier::TripleLetter => "TL"@,
        Multiplier::DoubleWord => "DW"@,
    }
}

/// One member of a canonical object: the name, and the value.
pub open spec fn member(f: (String, Json), name: Seq<char>, v: Json) -> bool {
    f.0@ == name && f.1 == v
}

/// A member holding a string value.
pub open spec fn str_member(f: (String, Json), name: Seq<char>, s: Seq<char>) -> bool {
    f.0@ == name && (f.1 matches Json::Str(t) && t@ == s)
}

/// A member holding a string or null.
pub open spec fn opt_str_member(f: (String, Json), name: Seq<char>, o: Option<String>) -> bool {
    f.0@ == name && match o {
        Some(s) => (f.1 matches Json::Str(t) && t@ == s@),
        None => f.1 == Json::Null,
    }
}

/// A member holding an integer or null.
pub open spec fn opt_int_member(f: (String, Json), name: Seq<char>, o: Option<int>) -> bool {
    f.0@ == name && match o {
        Some(v) => (f.1 matches Json::Int(n) && n == v),
        None => f.1 == Json::Null,
    }
}

/// A JSON value holding exactly this cell, in canonical member order.
pub open spec fn cell_encoding(j: Json, c: GridCell) -> bool {
    &&& j is Obj
    &&& j->Obj_0@.len() == 4
    &&& str_member(j->Obj_0@[0], "letter"@, seq![c.letter])
    &&& member(j->Obj_0@[1], "value"@, Json::Int(c.value as i64))
    &&& match c.multiplier {
        Some(m) => str_member(j->Obj_0@[2], "multiplier"@, multiplier_name(m)),
        None => member(j->Obj_0@[2], "multiplier"@, Json::Null),
    }
    &&& member(j->Obj_0@[3], "has_gem"@, Json::Bool(c.has_gem))
}

/// A JSON value holding exactly this grid: an array of rows of cells.
pub open spec fn grid_encoding(j: Json, g: Seq<Seq<GridCell>>) -> bool {
    &&& j is Arr
    &&& j->Arr_0@.len() == g.len()
    &&& forall|r: int|
        0 <= r < g.len() ==> {
            &&& (#[trigger] j->Arr_0@[r]) is Arr
            &&& j->Arr_0@[r]->Arr_0@.len() == g[r].len()
            &&& forall|c: int|
                0 <= c < g[r].len() ==> cell_encoding(#[trigger] j->Arr_0@[r]->Arr_0@[c], g[r][c])
        }
}

/// A JSON value holding exactly these words.
pub open spec fn words_encoding(j: Json, ws: Seq<Seq<char>>) -> bool {
    &&& j is Arr
    &&& j->Arr_0@.len() == ws.len()
    &&& forall|k: int|
        0 <= k < ws.len() ==> ((#[trigger] j->Arr_0@[k]) matches Json::Str(s) && s@ == ws[k])
}

/// A JSON value holding exactly this player entry.
pub open spec fn player_info_encoding(j: Json, p: PlayerInfo) -> bool {
    &&& j is Obj
    &&& j->Obj_0@.len() == 5
    &&& member(j->Obj_0@[0], "user_id"@, Json::Int(p.user_id))
    &&& str_member(j->Obj_0@[1], "username"@, p.username@)
    &&& opt_str_member(j->Obj_0@[2], "avatar_url"@, p.avatar_url)
    &&& member(j->Obj_0@[3], "score"@, Json::Int(p.score as i64))
    &&& opt_int_member(j->Obj_0@[4], "team"@, match p.team {
        Some(t) => Some(t as int),
        None => None,
    })
}

/// A JSON value holding exactly this lobby player entry.
pub open spec fn lobby_player_info_encoding(j: Json, p: LobbyPlayerInfo) -> bool {
    &&& j is Obj
    &&& j->Obj_0@.len() == 3
    &&& str_member(j->Obj_0@[0], "user_id"@, p.user_id@)
    &&& str_member(j->Obj_0@[1], "username"@, p.username@)
    &&& opt_str_member(j->Obj_0@[2], "avatar_url"@, p.avatar_url)
}

/// A JSON value holding exactly this seat entry.
pub open spec fn game_player_info_encoding(j: Json, p: GamePlayerInfo) -> bool {
    &&& j is Obj
    &&& j->Obj_0@.len() == 4
    &&& str_member(j->Obj_0@[0], "user_id"@, p.user_id@)
    &&& str_member(j->Obj_0@[1], "username"@, p.username@)
    &&& opt_str_member(j->Obj_0@[2], "avatar_url"@, p.avatar_url)
    &&& member(j->Obj_0@[3], "turn_order"@, Json::Int(p.turn_order as i64))
}

/// A JSON value holding exactly this score entry.
pub open spec fn score_info_encoding(j: Json, p: ScoreInfo) -> bool {
    &&& j is Obj
    &&& j->Obj_0@.len() == 3
    &&& member(j->Obj_0@[0], "user_id"@, Json::Int(p.user_id))
    &&& str_member(j->Obj_0@[1], "username"@, p.username@)
    &&& member(j->Obj_0@[2], "score"@, Json::Int(p.score as i64))
}

/// The tag a server message carries on the wire.
pub open spec fn server_tag(m: ServerMessage) -> Seq<char> {
    match m {
        ServerMessage::LobbyJoined { .. } => "lobby_joined"@,
        ServerMessage::LobbyCreated { .. } => "lobby_created"@,
        ServerMessage::LobbyPlayerList { .. } => "lobby_player_list"@,
        ServerMessage::GameStarted { .. } => "game_started"@,
        ServerMessage::GameState { .. } => "game_state"@,
        ServerMessage::InvalidWord { .. } => "invalid_word"@,
        ServerMessage::GameOver { .. } => "game_over"@,
        ServerMessage::GameError { .. } => "game_error"@,
        ServerMessage::Error { .. } => "error"@,
        ServerMessage::HeartbeatAck => "heartbeat_ack"@,
    }
}

/// A JSON value carrying exactly this server message, in canonical
/// member order: the `type` member names the variant, the members that
/// follow hold the fields.
pub open spec fn server_decoding(j: Json, m: ServerMessage) -> bool {
    &&& j is Obj
    &&& j->Obj_0@.len() >= 1
    &&& str_member(j->Obj_0@[0], "type"@, server_tag(m))
    &&& match m {
        ServerMessage::LobbyJoined { lobby_id, lobby_type, lobby_code } => {
            &&& j->Obj_0@.len() == 4
            &&& str_member(j->Obj_0@[1], "lobby_id"@, lobby_id@)
            &&& str_member(j->Obj_0@[2], "lobby_type"@, lobby_type_name(lobby_type))
            &&& opt_str_member(j->Obj_0@[3], "lobby_code"@, lobby_code)
        },
        ServerMessage::LobbyCreated { lobby_code } => {
            &&& j->Obj_0@.len() == 2
            &&& str_member(j->Obj_0@[1], "lobby_code"@, lobby_code@)
        },
        ServerMessage::LobbyPlayerList { players, lobby_code } => {
            &&& j->Obj_0@.len() == 3
            &&& j->Obj_0@[1].0@ == "players"@
            &&& j->Obj_0@[1].1 is Arr
            &&& j->Obj_0@[1].1->Arr_0@.len() == players@.len()
            &&& forall|k: int|
                0 <= k < players@.len() ==> lobby_player_info_encoding(
                    #[trigger] j->Obj_0@[1].1->Arr_0@[k],
                    players@[k],
                )
            &&& opt_str_member(j->Obj_0@[2], "lobby_code"@, lobby_code)
        },
        ServerMessage::GameStarted { game_id, grid, players, current_player_id, total_rounds } => {
            &&& j->Obj_0@.len() == 6
            &&& str_member(j->Obj_0@[1], "game_id"@, game_id@)
            &&& j->Obj_0@[2].0@ == "grid"@
            &&& grid_encoding(j->Obj_0@[2].1, grid.deep_view())
            &&& j->Obj_0@[3].0@ == "players"@
            &&& j->Obj_0@[3].1 is Arr
            &&& j->Obj_0@[3].1->Arr_0@.len() == players@.len()
            &&& forall|k: int|
                0 <= k < players@.len() ==> game_player_info_encoding(
                    #[trigger] j->Obj_0@[3].1->Arr_0@[k],
                    players@[k],
                )
            &&& str_member(j->Obj_0@[4], "current_player_id"@, current_player_id@)
            &&& member(j->Obj_0@[5], "total_rounds"@, Json::Int(total_rounds as i64))
        },
        ServerMessage::GameState {
            game_id,
            mode,
            round,
            max_rounds,
            grid,
            players,
            current_turn,
            used_words,
            timer_enabled,
            time_remaining,
        } => {
            &&& j->Obj_0@.len() == 11
            &&& str_member(j->Obj_0@[1], "game_id"@, game_id@)
            &&& str_member(j->Obj_0@[2], "mode"@, mode_name(mode))
            &&& member(j->Obj_0@[3], "round"@, Json::Int(round as i64))
            &&& member(j->Obj_0@[4], "max_rounds"@, Json::Int(max_rounds as i64))
            &&& j->Obj_0@[5].0@ == "grid"@
            &&& grid_encoding(j->Obj_0@[5].1, grid.deep_view())
            &&& j->Obj_0@[6].0@ == "players"@
            &&& j->Obj_0@[6].1 is Arr
            &&& j->Obj_0@[6].1->Arr_0@.len() == players@.len()
            &&& forall|k: int|
                0 <= k < players@.len() ==> player_info_encoding(
                    #[trigger] j->Obj_0@[6].1->Arr_0@[k],
                    players@[k],
                )
            &&& opt_int_member(j->Obj_0@[7], "current_turn"@, match current_turn {
                Some(t) => Some(t as int),
                None => None,
            })
            &&& j->Obj_0@[8].0@ == "used_words"@
            &&& words_encoding(j->Obj_0@[8].1, used_words@.map_values(|w: String| w@))
            &&& member(j->Obj_0@[9], "timer_enabled"@, Json::Bool(timer_enabled))
            &&& opt_int_member(j->Obj_0@[10], "time_remaining"@, match time_remaining {
                Some(t) => Some(t as int),
                None => None,
            })
        },
        ServerMessage::InvalidWord { reason } => {
            &&& j->Obj_0@.len() == 2
            &&& str_member(j->Obj_0@[1], "reason"@, reason@)
        },
        ServerMessage::GameOver { winner, final_scores } => {
            &&& j->Obj_0@.len() == 3
            &&& opt_int_member(j->Obj_0@[1], "winner"@, match winner {
                Some(w) => Some(w as int),
                None => None,
            })
            &&& j->Obj_0@[2].0@ == "final_scores"@
            &&& j->Obj_0@[2].1 is Arr
            &&& j->Obj_0@[2].1->Arr_0@.len() == final_scores@.len()
            &&& forall|k: int|
                0 <= k < final_scores@.len() ==> score_info_encoding(
                    #[trigger] j->Obj_0@[2].1->Arr_0@[k],
                    final_scores@[k],
                )
        },
        ServerMessage::GameError { code, message } => {
            &&& j->Obj_0@.len() == 3
            &&& str_member(j->Obj_0@[1], "code"@, code@)
            &&& str_member(j->Obj_0@[2], "message"@, message@)
        },
        ServerMessage::Error { message } => {
            &&& j->Obj_0@.len() == 2
            &&& str_member(j->Obj_0@[1], "message"@, message@)
        },
        ServerMessage::HeartbeatAck => j->Obj_0@.len() == 1,
    }
}

/// Two server messages agree in every observable part: same variant,
/// field views equal, and list fields equal entry by entry.
pub open spec fn server_messages_match(m1: ServerMessage, m2: ServerMessage) -> bool {
    match (m1, m2) {
        (
            ServerMessage::LobbyJoined { lobby_id: a1, lobby_type: t1, lobby_code: c1 },
            ServerMessage::LobbyJoined { lobby_id: a2, lobby_type: t2, lobby_code: c2 },
        ) => a1@ == a2@ && t1 == t2 && opt_strings_match(c1, c2),
        (
            ServerMessage::LobbyCreated { lobby_code: c1 },
            ServerMessage::LobbyCreated { lobby_code: c2 },
        ) => c1@ == c2@,
        (
            ServerMessage::LobbyPlayerList { players: p1, lobby_code: c1 },
            ServerMessage::LobbyPlayerList { players: p2, lobby_code: c2 },
        ) => {
            &&& p1@.len() == p2@.len()
            &&& forall|k: int|
                0 <= k < p1@.len() ==> {
                    &&& (#[trigger] p1@[k]).user_id@ == p2@[k].user_id@
                    &&& p1@[k].username@ == p2@[k].username@
                    &&& opt_strings_match(p1@[k].avatar_url, p2@[k].avatar_url)
                }
            &&& opt_strings_match(c1, c2)
        },
        (
            ServerMessage::GameStarted {
                game_id: g1,
                grid: b1,
                players: p1,
                current_player_id: u1,
                total_rounds: r1,
            },
            ServerMessage::GameStarted {
                game_id: g2,
                grid: b2,
                players: p2,
                current_player_id: u2,
                total_rounds: r2,
            },
        ) => {
            &&& g1@ == g2@
            &&& b1.deep_view() == b2.deep_view()
            &&& p1@.len() == p2@.len()
            &&& forall|k: int|
                0 <= k < p1@.len() ==> {
                    &&& (#[trigger] p1@[k]).user_id@ == p2@[k].user_id@
                    &&& p1@[k].username@ == p2@[k].username@
                    &&& opt_strings_match(p1@[k].avatar_url, p2@[k].avatar_url)
                    &&& p1@[k].turn_order == p2@[k].turn_order
                }
            &&& u1@ == u2@
            &&& r1 == r2
        },
        (
            ServerMessage::GameState {
                game_id: g1,
                mode: m1,
                round: r1,
                max_rounds: x1,
                grid: b1,
                players: p1,
                current_turn: t1,
                used_words: w1,
                timer_enabled: e1,
                time_remaining: z1,
            },
            ServerMessage::GameState {
                game_id: g2,
                mode: m2,
                round: r2,
                max_rounds: x2,
                grid: b2,
                players: p2,
                current_turn: t2,
                used_words: w2,
                timer_enabled: e2,
                time_remaining: z2,
            },
        ) => {
            &&& g1@ == g2@
            &&& m1 == m2
            &&& r1 == r2
            &&& x1 == x2
            &&& b1.deep_view() == b2.deep_view()
            &&& p1@.len() == p2@.len()
            &&& forall|k: int|
                0 <= k < p1@.len() ==> {
                    &&& (#[trigger] p1@[k]).user_id == p2@[k].user_id
                    &&& p1@[k].username@ == p2@[k].username@
                    &&& opt_strings_match(p1@[k].avatar_url, p2@[k].avatar_url)
                    &&& p1@[k].score == p2@[k].score
                    &&& p1@[k].team == p2@[k].team
                }
            &&& t1 == t2
            &&& w1@.map_values(|w: String| w@) == w2@.map_values(|w: String| w@)
            &&& e1 == e2
            &&& z1 == z2
        },
        (
            ServerMessage::InvalidWord { reason: a1 },
            ServerMessage::InvalidWord { reason: a2 },
        ) => a1@ == a2@,
        (
            ServerMessage::GameOver { winner: w1, final_scores: s1 },
            ServerMessage::GameOver { winner: w2, final_scores: s2 },
        ) => {
            &&& w1 == w2
            &&& s1@.len() == s2@.len()
            &&& forall|k: int|
                0 <= k < s1@.len() ==> {
                    &&& (#[trigger] s1@[k]).user_id == s2@[k].user_id
                    &&& s1@[k].username@ == s2@[k].username@
                    &&& s1@[k].score == s2@[k].score
                }
        },
        (
            ServerMessage::GameError { code: c1, message: a1 },
            ServerMessage::GameError { code: c2, message: a2 },
        ) => c1@ == c2@ && a1@ == a2@,
        (ServerMessage::Error { message: a1 }, ServerMessage::Error { message: a2 }) => a1@
            == a2@,
        (ServerMessage::HeartbeatAck, ServerMessage::HeartbeatAck) => true,
        _ => false,
    }
}

/// Two optional strings agree by view.
pub open spec fn opt_strings_match(a: Option<String>, b: Option<String>) -> bool {
    match (a, b) {
        (Some(x), Some(y)) => x@ == y@,
        (None, None) => true,
        _ => false,
    }
}

/// Two messages carried by one JSON value agree in every observable
/// part. Together with the codec contracts this is the round-trip law
/// for server messages.
#[verifier::rlimit(100)]
pub proof fn lemma_server_decoding_functional(j: Json, m1: ServerMessage, m2: ServerMessage)
    requires
        server_decoding(j, m1),
        server_decoding(j, m2),
    ensures
        server_messages_match(m1, m2),
{
    reveal_strlit("lobby_joined");
    reveal_strlit("lobby_created");
    reveal_strlit("lobby_player_list");
    reveal_strlit("game_started");
    reveal_strlit("game_state");
    reveal_strlit("invalid_word");
    reveal_strlit("game_over");
    reveal_strlit("game_error");
    reveal_strlit("error");
    reveal_strlit("heartbeat_ack");
    assert("lobby_joined"@.len() == 12);
    assert("lobby_created"@.len() == 13);
    assert("lobby_player_list"@.len() == 17);
    assert("game_started"@.len() == 12);
    assert("game_state"@.len() == 10);
    assert("invalid_word"@.len() == 12);
    assert("game_over"@.len() == 9);
    assert("game_error"@.len() == 10);
    assert("error"@.len() == 5);
    assert("heartbeat_ack"@.len() == 13);
    assert("lobby_joined"@[0] == 'l' && "game_started"@[0] == 'g' && "invalid_word"@[0] == 'i');
    assert("lobby_created"@[0] == 'l' && "heartbeat_ack"@[0] == 'h');
    assert("game_state"@[5] == 's' && "game_error"@[5] == 'e');
    assert("game_over"@[0] == 'g');
    reveal_strlit("channel");
    reveal_strlit("custom");
    assert("channel"@.len() == 7 && "custom"@.len() == 6);
    reveal_strlit("Multiplayer");
    reveal_strlit("2v2");
    reveal_strlit("Adventure");
    assert("Multiplayer"@.len() == 11 && "2v2"@.len() == 3 && "Adventure"@.len() == 9);
    assert(server_tag(m1) == server_tag(m2));
    match (m1, m2) {
        (
            ServerMessage::LobbyPlayerList { players: p1, .. },
            ServerMessage::LobbyPlayerList { players: p2, .. },
        ) => {
            let arr = j->Obj_0@[1].1;
            assert forall|k: int| 0 <= k < p1@.len() implies {
                &&& (#[trigger] p1@[k]).user_id@ == p2@[k].user_id@
                &&& p1@[k].username@ == p2@[k].username@
                &&& opt_strings_match(p1@[k].avatar_url, p2@[k].avatar_url)
            } by {
                assert(lobby_player_info_encoding(arr->Arr_0@[k], p1@[k]));
                assert(lobby_player_info_encoding(arr->Arr_0@[k], p2@[k]));
            }
        },
        (
            ServerMessage::GameStarted { grid: b1, players: p1, .. },
            ServerMessage::GameStarted { grid: b2, players: p2, .. },
        ) => {
            lemma_grid_encoding_functional(j->Obj_0@[2].1, b1.deep_view(), b2.deep_view());
            let arr = j->Obj_0@[3].1;
            assert forall|k: int| 0 <= k < p1@.len() implies {
                &&& (#[trigger] p1@[k]).user_id@ == p2@[k].user_id@
                &&& p1@[k].username@ == p2@[k].username@
                &&& opt_strings_match(p1@[k].avatar_url, p2@[k].avatar_url)
                &&& p1@[k].turn_order == p2@[k].turn_order
            } by {
                assert(game_player_info_encoding(arr->Arr_0@[k], p1@[k]));
                assert(game_player_info_encoding(arr->Arr_0@[k], p2@[k]));
            }
        },
        (
            ServerMessage::GameState { grid: b1, players: p1, used_words: w1, .. },
            ServerMessage::GameState { grid: b2, players: p2, used_words: w2, .. },
        ) => {
            lemma_grid_encoding_functional(j->Obj_0@[5].1, b1.deep_view(), b2.deep_view());
            let arr = j->Obj_0@[6].1;
            assert forall|k: int| 0 <= k < p1@.len() implies {
                &&& (#[trigger] p1@[k]).user_id == p2@[k].user_id
                &&& p1@[k].username@ == p2@[k].username@
                &&& opt_strings_match(p1@[k].avatar_url, p2@[k].avatar_url)
                &&& p1@[k].score == p2@[k].score
                &&& p1@[k].team == p2@[k].team
            } by {
                assert(player_info_encoding(arr->Arr_0@[k], p1@[k]));
                assert(player_info_encoding(arr->Arr_0@[k], p2@[k]));
            }
            let wj = j->Obj_0@[8].1;
            let v1 = w1@.map_values(|w: String| w@);
            let v2 = w2@.map_values(|w: String| w@);
            assert(v1 =~= v2) by {
                assert(words_encoding(wj, v1));
                assert(words_encoding(wj, v2));
                assert forall|k: int| 0 <= k < v1.len() implies v1[k] == v2[k] by {
                    let e = wj->Arr_0@[k];
                    assert(e matches Json::Str(s) && s@ == v1[k]);
                    assert(e matches Json::Str(s) && s@ == v2[k]);
                }
            }
        },
        (
            ServerMessage::GameOver { final_scores: s1, .. },
            ServerMessage::GameOver { final_scores: s2, .. },
        ) => {
            let arr = j->Obj_0@[2].1;
            assert forall|k: int| 0 <= k < s1@.len() implies {
                &&& (#[trigger] s1@[k]).user_id == s2@[k].user_id
                &&& s1@[k].username@ == s2@[k].username@
                &&& s1@[k].score == s2@[k].score
            } by {
                assert(score_info_encoding(arr->Arr_0@[k], s1@[k]));
                assert(score_info_encoding(arr->Arr_0@[k], s2@[k]));
            }
        },
        _ => {},
    }
}

/// One JSON value carries at most one grid, up to cell equality.
proof fn lemma_grid_encoding_functional(j: Json, g1: Seq<Seq<GridCell>>, g2: Seq<Seq<GridCell>>)
    requires
        grid_encoding(j, g1),
        grid_encoding(j, g2),
    ensures
        g1 == g2,
{
    reveal_strlit("DL");
    reveal_strlit("TL");
    reveal_strlit("DW");
    assert("DL"@.len() == 2 && "TL"@.len() == 2 && "DW"@.len() == 2);
    assert("DL"@[0] == 'D' && "TL"@[0] == 'T' && "DW"@[0] == 'D');
    assert("DL"@[1] == 'L' && "DW"@[1] == 'W');
    assert(g1 =~~= g2) by {
        assert forall|r: int| 0 <= r < g1.len() implies g1[r] =~= g2[r] by {
            assert forall|c: int| 0 <= c < g1[r].len() implies g1[r][c] == g2[r][c] by {
                let cj = j->Arr_0@[r]->Arr_0@[c];
                assert(cell_encoding(cj, g1[r][c]));
                assert(cell_encoding(cj, g2[r][c]));
                let t = cj->Obj_0@[0].1->Str_0;
                assert(t@ == seq![g1[r][c].letter] && t@ == seq![g2[r][c].letter]);
                assert(g1[r][c].letter == g2[r][c].letter) by {
                    assert(seq![g1[r][c].letter][0] == g1[r][c].letter);
                    assert(seq![g2[r][c].letter][0] == g2[r][c].letter);
                }
                match (g1[r][c].multiplier, g2[r][c].multiplier) {
                    (Some(a), Some(b)) => {
                        assert(multiplier_name(a) == multiplier_name(b));
                        assert(a == b);
                    },
                    _ => {},
                }
            }
        }
    }
}

/// Encode one cell.
pub fn encode_cell(c: &GridCell) -> (j: Json)
    ensures
        cell_encoding(j, *c),
{
    let mut letter = String::new();
    crate::strutil::push_char(&mut letter, c.letter);
    proof {
        assert(letter@ =~= seq![c.letter]);
    }
    let mut fields: Vec<(String, Json)> = Vec::new();
    fields.push((key("letter"), Json::Str(letter)));
    fields.push((key("value"), Json::Int(c.value as i64)));
    match c.multiplier {
        Some(Multiplier::DoubleLetter) => {
            fields.push((key("multiplier"), Json::Str(key("DL"))));
        },
        Some(Multiplier::TripleLetter) => {
            fields.push((key("multiplier"), Json::Str(key("TL"))));
        },
        Some(Multiplier::DoubleWord) => {
            fields.push((key("multiplier"), Json::Str(key("DW"))));
        },
        None => {
            fields.push((key("multiplier"), Json::Null));
        },
    }
    fields.push((key("has_gem"), Json::Bool(c.has_gem)));
    Json::Obj(fields)
}

/// Decode one cell.
pub fn decode_cell(j: &Json) -> (r: Option<GridCell>)
    ensures
        match r {
            Some(c) => cell_encoding(*j, c),
            None => forall|c: GridCell| !cell_encoding(*j, c),
        },
{
    let fields = match j {
        Json::Obj(fields) => fields,
        _ => {
            return None;
        },
    };
    if fields.len() != 4 {
        return None;
    }
    let letter = match &fields[0].1 {
        Json::Str(s) => {
            if !str_is(&fields[0].0, "letter") || s.unicode_len() != 1 {
                return None;
            }
            let c = s.as_str().get_char(0);
            proof {
                assert(s@ =~= seq![s@[0]]);
            }
            c
        },
        _ => {
            return None;
        },
    };
    let value = match &fields[1].1 {
        Json::Int(v) => {
            if !str_is(&fields[1].0, "value") || *v < 0 || *v > 255 {
                return None;
            }
            *v as u8
        },
        _ => {
            return None;
        },
    };
    let multiplier = match &fields[2].1 {
        Json::Null => {
            if !str_is(&fields[2].0, "multiplier") {
                return None;
            }
            None
        },
        Json::Str(s) => {
            if !str_is(&fields[2].0, "multiplier") {
                return None;
            }
            if str_is(s, "DL") {
                Some(Multiplier::DoubleLetter)
            } else if str_is(s, "TL") {
                Some(Multiplier::TripleLetter)
            } else if str_is(s, "DW") {
                Some(Multiplier::DoubleWord)
            } else {
                return None;
            }
        },
        _ => {
            return None;
        },
    };
    let has_gem = match &fields[3].1 {
        Json::Bool(b) => {
            if !str_is(&fields[3].0, "has_gem") {
                return None;
            }
            *b
        },
        _ => {
            return None;
        },
    };
    Some(GridCell { letter, value, multiplier, has_gem })
}

/// Encode a grid as rows of cells.
pub fn encode_grid(g: &Vec<Vec<GridCell>>) -> (j: Json)
    ensures
        grid_encoding(j, g.deep_view()),
{
    let mut rows: Vec<Json> = Vec::new();
    let mut r: usize = 0;
    while r < g.len()
        invariant
            0 <= r <= g@.len(),
            rows@.len() == r,
            forall|a: int|
                0 <= a < r ==> {
                    &&& (#[trigger] rows@[a]) is Arr
                    &&& rows@[a]->Arr_0@.len() == g.deep_view()[a].len()
                    &&& forall|b: int|
                        0 <= b < g.deep_view()[a].len() ==> cell_encoding(
                            #[trigger] rows@[a]->Arr_0@[b],
                            g.deep_view()[a][b],
                        )
                },
        decreases g@.len() - r,
    {
        let row = &g[r];
        let mut cells: Vec<Json> = Vec::new();
        let mut c: usize = 0;
        while c < row.len()
            invariant
                row == &g[r as int],
                r < g@.len(),
                0 <= c <= row@.len(),
                cells@.len() == c,
                forall|b: int|
                    0 <= b < c ==> cell_encoding(#[trigger] cells@[b], g.deep_view()[r as int][b]),
            decreases row@.len() - c,
        {
            cells.push(encode_cell(&row[c]));
            c = c + 1;
        }
        rows.push(Json::Arr(cells));
        r = r + 1;
    }
    Json::Arr(rows)
}

/// Decode a grid. Every value that carries a grid decodes to it.
pub fn decode_grid(j: &Json) -> (r: Option<Vec<Vec<GridCell>>>)
    ensures
        match r {
            Some(g) => grid_encoding(*j, g.deep_view()),
            None => forall|g: Seq<Seq<GridCell>>| !grid_encoding(*j, g),
        },
{
    let rows = match j {
        Json::Arr(rows) => rows,
        _ => {
            return None;
        },
    };
    let mut g: Vec<Vec<GridCell>> = Vec::new();
    let mut r: usize = 0;
    while r < rows.len()
        invariant
            *j == Json::Arr(*rows),
            0 <= r <= rows@.len(),
            g.deep_view().len() == r,
            forall|a: int|
                0 <= a < r ==> {
                    &&& (#[trigger] rows@[a]) is Arr
                    &&& rows@[a]->Arr_0@.len() == g.deep_view()[a].len()
                    &&& forall|b: int|
                        0 <= b < g.deep_view()[a].len() ==> cell_encoding(
                            #[trigger] rows@[a]->Arr_0@[b],
                            g.deep_view()[a][b],
                        )
                },
        decreases rows@.len() - r,
    {
        let cells = match &rows[r] {
            Json::Arr(cells) => cells,
            _ => {
                proof {
                    assert forall|gs: Seq<Seq<GridCell>>| !grid_encoding(*j, gs) by {
                        if grid_encoding(*j, gs) {
                            assert(rows@[r as int] is Arr);
                        }
                    }
                }
                return None;
            },
        };
        let mut row: Vec<GridCell> = Vec::new();
        let mut c: usize = 0;
        while c < cells.len()
            invariant
                *j == Json::Arr(*rows),
                cells == &rows@[r as int]->Arr_0,
                r < rows@.len(),
                rows@[r as int] is Arr,
                0 <= c <= cells@.len(),
                row@.len() == c,
                forall|b: int|
                    0 <= b < c ==> cell_encoding(#[trigger] cells@[b], row@[b]),
            decreases cells@.len() - c,
        {
            match decode_cell(&cells[c]) {
                Some(cell) => {
                    row.push(cell);
                },
                None => {
                    proof {
                        assert forall|gs: Seq<Seq<GridCell>>| !grid_encoding(*j, gs) by {
                            if grid_encoding(*j, gs) {
                                assert(cell_encoding(
                                    rows@[r as int]->Arr_0@[c as int],
                                    gs[r as int][c as int],
                                ));
                            }
                        }
                    }
                    return None;
                },
            }
            c = c + 1;
        }
        let ghost gprev = g.deep_view();
        let ghost rowq = row@;
        let ghost rowv = row.deep_view();
        g.push(row);
        proof {
            assert(rowv =~= rowq);
            assert(g.deep_view() =~= gprev.push(rowv));
        }
        r = r + 1;
    }
    Some(g)
}

/// Encode a list of words.
pub fn encode_words(ws: &Vec<String>) -> (j: Json)
    ensures
        words_encoding(j, ws@.map_values(|w: String| w@)),
{
    let mut items: Vec<Json> = Vec::new();
    let mut i: usize = 0;
    while i < ws.len()
        invariant
            0 <= i <= ws@.len(),
            items@.len() == i,
            forall|k: int|
                0 <= k < i ==> ((#[trigger] items@[k]) matches Json::Str(s) && s@ == ws@[k]@),
        decreases ws@.len() - i,
    {
        items.push(Json::Str(ws[i].clone()));
        i = i + 1;
    }
    Json::Arr(items)
}

/// Decode a list of words.
pub fn decode_words(j: &Json) -> (r: Option<Vec<String>>)
    ensures
        match r {
            Some(ws) => words_encoding(*j, ws@.map_values(|w: String| w@)),
            None => forall|ws: Seq<Seq<char>>| !words_encoding(*j, ws),
        },
{
    let items = match j {
        Json::Arr(items) => items,
        _ => {
            return None;
        },
    };
    let mut out: Vec<String> = Vec::new();
    let mut i: usize = 0;
    while i < items.len()
        invariant
            *j == Json::Arr(*items),
            0 <= i <= items@.len(),
            out@.len() == i,
            forall|k: int|
                0 <= k < i ==> ((#[trigger] items@[k]) matches Json::Str(s) && s@ == out@[k]@),
        decreases items@.len() - i,
    {
        match &items[i] {
            Json::Str(s) => {
                out.push(s.clone());
            },
            _ => {
                proof {
                    assert forall|ws: Seq<Seq<char>>| !words_encoding(*j, ws) by {
                        if words_encoding(*j, ws) {
                            assert(items@[i as int] matches Json::Str(t) && t@ == ws[i as int]);
                        }
                    }
                }
                return None;
            },
        }
        i = i + 1;
    }
    Some(out)
}

/// A cloned optional string.
fn clone_opt_str(o: &Option<String>) -> (r: Option<String>)
    ensures
        r == *o,
{
    match o {
        Some(s) => Some(s.clone()),
        None => None,
    }
}

/// The JSON member value of an optional string.
fn opt_str_json(o: &Option<String>) -> (j: Json)
    ensures
        match o {
            Some(s) => (j matches Json::Str(t) && t@ == s@),
            None => j == Json::Null,
        },
{
    match o {
        Some(s) => Json::Str(s.clone()),
        None => Json::Null,
    }
}

/// Encode one player entry.
fn encode_player_info(p: &PlayerInfo) -> (j: Json)
    ensures
        player_info_encoding(j, *p),
{
    let mut fields: Vec<(String, Json)> = Vec::new();
    fields.push((key("user_id"), Json::Int(p.user_id)));
    fields.push((key("username"), Json::Str(p.username.clone())));
    fields.push((key("avatar_url"), opt_str_json(&p.avatar_url)));
    fields.push((key("score"), Json::Int(p.score as i64)));
    match p.team {
        Some(t) => {
            fields.push((key("team"), Json::Int(t as i64)));
        },
        None => {
            fields.push((key("team"), Json::Null));
        },
    }
    Json::Obj(fields)
}

/// Encode one lobby player entry.
pub fn encode_lobby_player_info(p: &LobbyPlayerInfo) -> (j: Json)
    ensures
        lobby_player_info_encoding(j, *p),
{
    let mut fields: Vec<(String, Json)> = Vec::new();
    fields.push((key("user_id"), Json::Str(p.user_id.clone())));
    fields.push((key("username"), Json::Str(p.username.clone())));
    fields.push((key("avatar_url"), opt_str_json(&p.avatar_url)));
    Json::Obj(fields)
}

/// Encode one seat entry.
fn encode_game_player_info(p: &GamePlayerInfo) -> (j: Json)
    ensures
        game_player_info_encoding(j, *p),
{
    let mut fields: Vec<(String, Json)> = Vec::new();
    fields.push((key("user_id"), Json::Str(p.user_id.clone())));
    fields.push((key("username"), Json::Str(p.username.clone())));
    fields.push((key("avatar_url"), opt_str_json(&p.avatar_url)));
    fields.push((key("turn_order"), Json::Int(p.turn_order as i64)));
    Json::Obj(fields)
}

/// Encode one score entry.
fn encode_score_info(p: &ScoreInfo) -> (j: Json)
    ensures
        score_info_encoding(j, *p),
{
    let mut fields: Vec<(String, Json)> = Vec::new();
    fields.push((key("user_id"), Json::Int(p.user_id)));
    fields.push((key("username"), Json::Str(p.username.clone())));
    fields.push((key("score"), Json::Int(p.score as i64)));
    Json::Obj(fields)
}

/// Encode a server message as a tagged JSON object, in canonical member
/// order.
pub fn encode_server(m: &ServerMessage) -> (j: Json)
    ensures
        server_decoding(j, *m),
{
    let mut fields: Vec<(String, Json)> = Vec::new();
    match m {
        ServerMessage::LobbyJoined { lobby_id, lobby_type, lobby_code } => {
            fields.push((key("type"), Json::Str(key("lobby_joined"))));
            fields.push((key("lobby_id"), Json::Str(lobby_id.clone())));
            match lobby_type {
                LobbyType::Channel => {
                    fields.push((key("lobby_type"), Json::Str(key("channel"))));
                },
                LobbyType::Custom => {
                    fields.push((key("lobby_type"), Json::Str(key("custom"))));
                },
            }
            fields.push((key("lobby_code"), opt_str_json(lobby_code)));
            Json::Obj(fields)
        },
        ServerMessage::LobbyCreated { lobby_code } => {
            fields.push((key("type"), Json::Str(key("lobby_created"))));
            fields.push((key("lobby_code"), Json::Str(lobby_code.clone())));
            Json::Obj(fields)
        },
        ServerMessage::LobbyPlayerList { players, lobby_code } => {
            fields.push((key("type"), Json::Str(key("lobby_player_list"))));
            let mut items: Vec<Json> = Vec::new();
            let mut i: usize = 0;
            while i < players.len()
                invariant
                    0 <= i <= players@.len(),
                    items@.len() == i,
                    forall|k: int|
                        0 <= k < i ==> lobby_player_info_encoding(
                            #[trigger] items@[k],
                            players@[k],
                        ),
                decreases players@.len() - i,
            {
                items.push(encode_lobby_player_info(&players[i]));
                i = i + 1;
            }
            fields.push((key("players"), Json::Arr(items)));
            fields.push((key("lobby_code"), opt_str_json(lobby_code)));
            Json::Obj(fields)
        },
        ServerMessage::GameStarted { game_id, grid, players, current_player_id, total_rounds } => {
            fields.push((key("type"), Json::Str(key("game_started"))));
            fields.push((key("game_id"), Json::Str(game_id.clone())));
            fields.push((key("grid"), encode_grid(grid)));
            let mut items: Vec<Json> = Vec::new();
            let mut i: usize = 0;
            while i < players.len()
                invariant
                    0 <= i <= players@.len(),
                    items@.len() == i,
                    forall|k: int|
                        0 <= k < i ==> game_player_info_encoding(
                            #[trigger] items@[k],
                            players@[k],
                        ),
                decreases players@.len() - i,
            {
                items.push(encode_game_player_info(&players[i]));
                i = i + 1;
            }
            fields.push((key("players"), Json::Arr(items)));
            fields.push((key("current_player_id"), Json::Str(current_player_id.clone())));
            fields.push((key("total_rounds"), Json::Int(*total_rounds as i64)));
            Json::Obj(fields)
        },
        ServerMessage::GameState {
            game_id,
            mode,
            round,
            max_rounds,
            grid,
            players,
            current_turn,
            used_words,
            timer_enabled,
            time_remaining,
        } => {
            fields.push((key("type"), Json::Str(key("game_state"))));
            fields.push((key("game_id"), Json::Str(game_id.clone())));
            match mode {
                GameMode::Multiplayer => {
                    fields.push((key("mode"), Json::Str(key("Multiplayer"))));
                },
                GameMode::TwoVTwo => {
                    fields.push((key("mode"), Json::Str(key("2v2"))));
                },
                GameMode::Adventure => {
                    fields.push((key("mode"), Json::Str(key("Adventure"))));
                },
            }
            fields.push((key("round"), Json::Int(*round as i64)));
            fields.push((key("max_rounds"), Json::Int(*max_rounds as i64)));
            fields.push((key("grid"), encode_grid(grid)));
            let mut items: Vec<Json> = Vec::new();
            let mut i: usize = 0;
            while i < players.len()
                invariant
                    0 <= i <= players@.len(),
                    items@.len() == i,
                    forall|k: int|
                        0 <= k < i ==> player_info_encoding(#[trigger] items@[k], players@[k]),
                decreases players@.len() - i,
            {
                items.push(encode_player_info(&players[i]));
                i = i + 1;
            }
            fields.push((key("players"), Json::Arr(items)));
            match current_turn {
                Some(t) => {
                    fields.push((key("current_turn"), Json::Int(*t)));
                },
                None => {
                    fields.push((key("current_turn"), Json::Null));
                },
            }
            fields.push((key("used_words"), encode_words(used_words)));
            fields.push((key("timer_enabled"), Json::Bool(*timer_enabled)));
            match time_remaining {
                Some(t) => {
                    fields.push((key("time_remaining"), Json::Int(*t as i64)));
                },
                None => {
                    fields.push((key("time_remaining"), Json::Null));
                },
            }
            Json::Obj(fields)
        },
        ServerMessage::InvalidWord { reason } => {
            fields.push((key("type"), Json::Str(key("invalid_word"))));
            fields.push((key("reason"), Json::Str(reason.clone())));
            Json::Obj(fields)
        },
        ServerMessage::GameOver { winner, final_scores } => {
            fields.push((key("type"), Json::Str(key("game_over"))));
            match winner {
                Some(w) => {
                    fields.push((key("winner"), Json::Int(*w)));
                },
                None => {
                    fields.push((key("winner"), Json::Null));
                },
            }
            let mut items: Vec<Json> = Vec::new();
            let mut i: usize = 0;
            while i < final_scores.len()
                invariant
                    0 <= i <= final_scores@.len(),
                    items@.len() == i,
                    forall|k: int|
                        0 <= k < i ==> score_info_encoding(#[trigger] items@[k], final_scores@[k]),
                decreases final_scores@.len() - i,
            {
                items.push(encode_score_info(&final_scores[i]));
                i = i + 1;
            }
            fields.push((key("final_scores"), Json::Arr(items)));
            Json::Obj(fields)
        },
        ServerMessage::GameError { code, message } => {
            fields.push((key("type"), Json::Str(key("game_error"))));
            fields.push((key("code"), Json::Str(code.clone())));
            fields.push((key("message"), Json::Str(message.clone())));
            Json::Obj(fields)
        },
        ServerMessage::Error { message } => {
            fields.push((key("type"), Json::Str(key("error"))));
            fields.push((key("message"), Json::Str(message.clone())));
            Json::Obj(fields)
        },
        ServerMessage::HeartbeatAck => {
            fields.push((key("type"), Json::Str(key("heartbeat_ack"))));
            Json::Obj(fields)
        },
    }
}

/// Every server tag is one of the ten variant names.
proof fn lemma_server_tag_cases(m: ServerMessage)
    ensures
        server_tag(m) == "lobby_joined"@ || server_tag(m) == "lobby_created"@ || server_tag(m)
            == "lobby_player_list"@ || server_tag(m) == "game_started"@ || server_tag(m)
            == "game_state"@ || server_tag(m) == "invalid_word"@ || server_tag(m) == "game_over"@
            || server_tag(m) == "game_error"@ || server_tag(m) == "error"@ || server_tag(m)
            == "heartbeat_ack"@,
{
}

/// A tag names at most one variant.
proof fn lemma_server_tag_inversion(m: ServerMessage)
    ensures
        server_tag(m) == "lobby_joined"@ ==> m is LobbyJoined,
        server_tag(m) == "lobby_created"@ ==> m is LobbyCreated,
        server_tag(m) == "lobby_player_list"@ ==> m is LobbyPlayerList,
        server_tag(m) == "game_started"@ ==> m is GameStarted,
        server_tag(m) == "game_state"@ ==> m is GameState,
        server_tag(m) == "invalid_word"@ ==> m is InvalidWord,
        server_tag(m) == "game_over"@ ==> m is GameOver,
        server_tag(m) == "game_error"@ ==> m is GameError,
        server_tag(m) == "error"@ ==> m is Error,
        server_tag(m) == "heartbeat_ack"@ ==> m is HeartbeatAck,
{
    reveal_strlit("lobby_joined");
    reveal_strlit("lobby_created");
    reveal_strlit("lobby_player_list");
    reveal_strlit("game_started");
    reveal_strlit("game_state");
    reveal_strlit("invalid_word");
    reveal_strlit("game_over");
    reveal_strlit("game_error");
    reveal_strlit("error");
    reveal_strlit("heartbeat_ack");
    assert("lobby_joined"@.len() == 12);
    assert("lobby_created"@.len() == 13);
    assert("lobby_player_list"@.len() == 17);
    assert("game_started"@.len() == 12);
    assert("game_state"@.len() == 10);
    assert("invalid_word"@.len() == 12);
    assert("game_over"@.len() == 9);
    assert("game_error"@.len() == 10);
    assert("error"@.len() == 5);
    assert("heartbeat_ack"@.len() == 13);
    assert("lobby_joined"@[0] == 'l' && "game_started"@[0] == 'g' && "invalid_word"@[0] == 'i');
    assert("lobby_created"@[0] == 'l' && "heartbeat_ack"@[0] == 'h');
    assert("game_state"@[5] == 's' && "game_error"@[5] == 'e');
    assert("game_over"@[0] == 'g');
}

/// Decode one player entry.
fn decode_player_info(j: &Json) -> (r: Option<PlayerInfo>)
    ensures
        match r {
            Some(p) => player_info_encoding(*j, p),
            None => forall|p: PlayerInfo| !player_info_encoding(*j, p),
        },
{
    let fields = match j {
        Json::Obj(fields) => fields,
        _ => {
            return None;
        },
    };
    if fields.len() != 5 {
        return None;
    }
    if !(str_is(&fields[0].0, "user_id") && str_is(&fields[1].0, "username") && str_is(
        &fields[2].0,
        "avatar_url",
    ) && str_is(&fields[3].0, "score") && str_is(&fields[4].0, "team")) {
        return None;
    }
    let user_id = match &fields[0].1 {
        Json::Int(v) => *v,
        _ => {
            return None;
        },
    };
    let username = match &fields[1].1 {
        Json::Str(s) => s.clone(),
        _ => {
            return None;
        },
    };
    let avatar_url = match &fields[2].1 {
        Json::Str(s) => Some(s.clone()),
        Json::Null => None,
        _ => {
            return None;
        },
    };
    let score = match &fields[3].1 {
        Json::Int(v) => {
            if *v < -0x80000000 || *v > 0x7fffffff {
                return None;
            }
            *v as i32
        },
        _ => {
            return None;
        },
    };
    let team = match &fields[4].1 {
        Json::Int(v) => {
            if *v < -0x80000000 || *v > 0x7fffffff {
                return None;
            }
            Some(*v as i32)
        },
        Json::Null => None,
        _ => {
            return None;
        },
    };
    Some(PlayerInfo { user_id, username, avatar_url, score, team })
}

/// Decode one score entry.
fn decode_score_info(j: &Json) -> (r: Option<ScoreInfo>)
    ensures
        match r {
            Some(p) => score_info_encoding(*j, p),
            None => forall|p: ScoreInfo| !score_info_encoding(*j, p),
        },
{
    let fields = match j {
        Json::Obj(fields) => fields,
        _ => {
            return None;
        },
    };
    if fields.len() != 3 {
        return None;
    }
    if !(str_is(&fields[0].0, "user_id") && str_is(&fields[1].0, "username") && str_is(
        &fields[2].0,
        "score",
    )) {
        return None;
    }
    let user_id = match &fields[0].1 {
        Json::Int(v) => *v,
        _ => {
            return None;
        },
    };
    let username = match &fields[1].1 {
        Json::Str(s) => s.clone(),
        _ => {
            return None;
        },
    };
    let score = match &fields[2].1 {
        Json::Int(v) => {
            if *v < -0x80000000 || *v > 0x7fffffff {
                return None;
            }
            *v as i32
        },
        _ => {
            return None;
        },
    };
    Some(ScoreInfo { user_id, username, score })
}

/// Decode one lobby player entry.
fn decode_lobby_player_info(j: &Json) -> (r: Option<LobbyPlayerInfo>)
    ensures
        match r {
            Some(p) => lobby_player_info_encoding(*j, p),
            None => forall|p: LobbyPlayerInfo| !lobby_player_info_encoding(*j, p),
        },
{
    let fields = match j {
        Json::Obj(fields) => fields,
        _ => {
            return None;
        },
    };
    if fields.len() != 3 {
        return None;
    }
    if !(str_is(&fields[0].0, "user_id") && str_is(&fields[1].0, "username") && str_is(
        &fields[2].0,
        "avatar_url",
    )) {
        return None;
    }
    let user_id = match &fields[0].1 {
        Json::Str(s) => s.clone(),
        _ => {
            return None;
        },
    };
    let username = match &fields[1].1 {
        Json::Str(s) => s.clone(),
        _ => {
            return None;
        },
    };
    let avatar_url = match &fields[2].1 {
        Json::Str(s) => Some(s.clone()),
        Json::Null => None,
        _ => {
            return None;
        },
    };
    Some(LobbyPlayerInfo { user_id, username, avatar_url })
}

/// Decode one seat entry.
fn decode_game_player_info(j: &Json) -> (r: Option<GamePlayerInfo>)
    ensures
        match r {
            Some(p) => game_player_info_encoding(*j, p),
            None => forall|p: GamePlayerInfo| !game_player_info_encoding(*j, p),
        },
{
    let fields = match j {
        Json::Obj(fields) => fields,
        _ => {
            return None;
        },
    };
    if fields.len() != 4 {
        return None;
    }
    if !(str_is(&fields[0].0, "user_id") && str_is(&fields[1].0, "username") && str_is(
        &fields[2].0,
        "avatar_url",
    ) && str_is(&fields[3].0, "turn_order")) {
        return None;
    }
    let user_id = match &fields[0].1 {
        Json::Str(s) => s.clone(),
        _ => {
            return None;
        },
    };
    let username = match &fields[1].1 {
        Json::Str(s) => s.clone(),
        _ => {
            return None;
        },
    };
    let avatar_url = match &fields[2].1 {
        Json::Str(s) => Some(s.clone()),
        Json::Null => None,
        _ => {
            return None;
        },
    };
    let turn_order = match &fields[3].1 {
        Json::Int(v) => {
            if *v < 0 || *v > 255 {
                return None;
            }
            *v as u8
        },
        _ => {
            return None;
        },
    };
    Some(GamePlayerInfo { user_id, username, avatar_url, turn_order })
}

/// Decode a server message from its canonical JSON object. Every value
/// that carries a message decodes to it; an unknown shape decodes to
/// nothing.
#[verifier::loop_isolation(false)]
pub fn decode_server(j: &Json) -> (r: Option<ServerMessage>)
    ensures
        match r {
            Some(m) => server_decoding(*j, m),
            None => forall|m: ServerMessage| !server_decoding(*j, m),
        },
{
    let fields = match j {
        Json::Obj(fields) => fields,
        _ => {
            return None;
        },
    };
    if fields.len() == 0 {
        return None;
    }
    if !str_is(&fields[0].0, "type") {
        return None;
    }
    let tag = match &fields[0].1 {
        Json::Str(tag) => tag,
        _ => {
            return None;
        },
    };
    if str_is(tag, "lobby_joined") {
        if fields.len() != 4 {
            proof {
                assert forall|m: ServerMessage| !server_decoding(*j, m) by {
                    if server_decoding(*j, m) {
                        lemma_server_tag_inversion(m);
                    }
                }
            }
            return None;
        }
        if !(str_is(&fields[1].0, "lobby_id") && str_is(&fields[2].0, "lobby_type") && str_is(
            &fields[3].0,
            "lobby_code",
        )) {
            proof {
                assert forall|m: ServerMessage| !server_decoding(*j, m) by {
                    if server_decoding(*j, m) {
                        lemma_server_tag_inversion(m);
                    }
                }
            }
            return None;
        }
        let lobby_id = match &fields[1].1 {
            Json::Str(s) => s.clone(),
            _ => {
                proof {
                    assert forall|m: ServerMessage| !server_decoding(*j, m) by {
                        if server_decoding(*j, m) {
                            lemma_server_tag_inversion(m);
                        }
                    }
                }
                return None;
            },
        };
        let lobby_type = match &fields[2].1 {
            Json::Str(s) => {
                if str_is(s, "channel") {
                    LobbyType::Channel
                } else if str_is(s, "custom") {
                    LobbyType::Custom
                } else {
                    proof {
                        assert forall|m: ServerMessage| !server_decoding(*j, m) by {
                            if server_decoding(*j, m) {
                                lemma_server_tag_inversion(m);
                            }
                        }
                    }
                    return None;
                }
            },
            _ => {
                proof {
                    assert forall|m: ServerMessage| !server_decoding(*j, m) by {
                        if server_decoding(*j, m) {
                            lemma_server_tag_inversion(m);
                        }
                    }
                }
                return None;
            },
        };
        let lobby_code = match &fields[3].1 {
            Json::Str(s) => Some(s.clone()),
            Json::Null => None,
            _ => {
                proof {
                    assert forall|m: ServerMessage| !server_decoding(*j, m) by {
                        if server_decoding(*j, m) {
                            lemma_server_tag_inversion(m);
                        }
                    }
                }
                return None;
            },
        };
        proof {
            assert("channel"@ != "custom"@) by {
                reveal_strlit("channel");
                reveal_strlit("custom");
                assert("channel"@.len() == 7 && "custom"@.len() == 6);
            }
        }
        Some(ServerMessage::LobbyJoined { lobby_id, lobby_type, lobby_code })
    } else if str_is(tag, "lobby_created") {
        if fields.len() != 2 {
            proof {
                assert forall|m: ServerMessage| !server_decoding(*j, m) by {
                    if server_decoding(*j, m) {
                        lemma_server_tag_inversion(m);
                    }
                }
            }
            return None;
        }
        if !str_is(&fields[1].0, "lobby_code") {
            proof {
                assert forall|m: ServerMessage| !server_decoding(*j, m) by {
                    if server_decoding(*j, m) {
                        lemma_server_tag_inversion(m);
                    }
                }
            }
            return None;
        }
        let lobby_code = match &fields[1].1 {
            Json::Str(s) => s.clone(),
            _ => {
                proof {
                    assert forall|m: ServerMessage| !server_decoding(*j, m) by {
                        if server_decoding(*j, m) {
                            lemma_server_tag_inversion(m);
                        }
                    }
                }
                return None;
            },
        };
        Some(ServerMessage::LobbyCreated { lobby_code })
    } else if str_is(tag, "invalid_word") {
        if fields.len() != 2 {
            proof {
                assert forall|m: ServerMessage| !server_decoding(*j, m) by {
                    if server_decoding(*j, m) {
                        lemma_server_tag_inversion(m);
                    }
                }
            }
            return None;
        }
        if !str_is(&fields[1].0, "reason") {
            proof {
                assert forall|m: ServerMessage| !server_decoding(*j, m) by {
                    if server_decoding(*j, m) {
                        lemma_server_tag_inversion(m);
                    }
                }
            }
            return None;
        }
        let reason = match &fields[1].1 {
            Json::Str(s) => s.clone(),
            _ => {
                proof {
                    assert forall|m: ServerMessage| !server_decoding(*j, m) by {
                        if server_decoding(*j, m) {
                            lemma_server_tag_inversion(m);
                        }
                    }
                }
                return None;
            },
        };
        Some(ServerMessage::InvalidWord { reason })
    } else if str_is(tag, "game_over") {
        if fields.len() != 3 {
            proof {
                assert forall|m: ServerMessage| !server_decoding(*j, m) by {
                    if server_decoding(*j, m) {
                        lemma_server_tag_inversion(m);
                    }
                }
            }
            return None;
        }
        if !(str_is(&fields[1].0, "winner") && str_is(&fields[2].0, "final_scores")) {
            proof {
                assert forall|m: ServerMessage| !server_decoding(*j, m) by {
                    if server_decoding(*j, m) {
                        lemma_server_tag_inversion(m);
                    }
                }
            }
            return None;
        }
        let winner = match &fields[1].1 {
            Json::Int(v) => Some(*v),
            Json::Null => None,
            _ => {
                proof {
                    assert forall|m: ServerMessage| !server_decoding(*j, m) by {
                        if server_decoding(*j, m) {
                            lemma_server_tag_inversion(m);
                        }
                    }
                }
                return None;
            },
        };
        let items = match &fields[2].1 {
            Json::Arr(items) => items,
            _ => {
                proof {
                    assert forall|m: ServerMessage| !server_decoding(*j, m) by {
                        if server_decoding(*j, m) {
                            lemma_server_tag_inversion(m);
                        }
                    }
                }
                return None;
            },
        };
        let mut final_scores: Vec<ScoreInfo> = Vec::new();
        let mut i: usize = 0;
        while i < items.len()
            invariant
                0 <= i <= items@.len(),
                final_scores@.len() == i,
                forall|k: int|
                    0 <= k < i ==> score_info_encoding(#[trigger] items@[k], final_scores@[k]),
            decreases items@.len() - i,
        {
            match decode_score_info(&items[i]) {
                Some(p) => {
                    final_scores.push(p);
                },
                None => {
                    proof {
                        assert forall|m: ServerMessage| !server_decoding(*j, m) by {
                            if server_decoding(*j, m) {
                                lemma_server_tag_inversion(m);
                            }
                        }
                    }
                    return None;
                },
            }
            i = i + 1;
        }
        Some(ServerMessage::GameOver { winner, final_scores })
    } else if str_is(tag, "game_error") {
        if fields.len() != 3 {
            proof {
                assert forall|m: ServerMessage| !server_decoding(*j, m) by {
                    if server_decoding(*j, m) {
                        lemma_server_tag_inversion(m);
                    }
                }
            }
            return None;
        }
        if !(str_is(&fields[1].0, "code") && str_is(&fields[2].0, "message")) {
            proof {
                assert forall|m: ServerMessage| !server_decoding(*j, m) by {
                    if server_decoding(*j, m) {
                        lemma_server_tag_inversion(m);
                    }
                }
            }
            return None;
        }
        let code = match &fields[1].1 {
            Json::Str(s) => s.clone(),
            _ => {
                proof {
                    assert forall|m: ServerMessage| !server_decoding(*j, m) by {
                        if server_decoding(*j, m) {
                            lemma_server_tag_inversion(m);
                        }
                    }
                }
                return None;
            },
        };
        let message = match &fields[2].1 {
            Json::Str(s) => s.clone(),
            _ => {
                proof {
                    assert forall|m: ServerMessage| !server_decoding(*j, m) by {
                        if server_decoding(*j, m) {
                            lemma_server_tag_inversion(m);
                        }
                    }
                }
                return None;
            },
        };
        Some(ServerMessage::GameError { code, message })
    } else if str_is(tag, "error") {
        if fields.len() != 2 {
            proof {
                assert forall|m: ServerMessage| !server_decoding(*j, m) by {
                    if server_decoding(*j, m) {
                        lemma_server_tag_inversion(m);
                    }
                }
            }
            return None;
        }
        if !str_is(&fields[1].0, "message") {
            proof {
                assert forall|m: ServerMessage| !server_decoding(*j, m) by {
                    if server_decoding(*j, m) {
                        lemma_server_tag_inversion(m);
                    }
                }
            }
            return None;
        }
        let message = match &fields[1].1 {
            Json::Str(s) => s.clone(),
            _ => {
                proof {
                    assert forall|m: ServerMessage| !server_decoding(*j, m) by {
                        if server_decoding(*j, m) {
                            lemma_server_tag_inversion(m);
                        }
                    }
                }
                return None;
            },
        };
        Some(ServerMessage::Error { message })
    } else if str_is(tag, "heartbeat_ack") {
        if fields.len() != 1 {
            proof {
                assert forall|m: ServerMessage| !server_decoding(*j, m) by {
                    if server_decoding(*j, m) {
                        lemma_server_tag_inversion(m);
                    }
                }
            }
            return None;
        }
        Some(ServerMessage::HeartbeatAck)
    } else if str_is(tag, "lobby_player_list") {
        if fields.len() != 3 {
            proof {
                assert forall|m: ServerMessage| !server_decoding(*j, m) by {
                    if server_decoding(*j, m) {
                        lemma_server_tag_inversion(m);
                    }
                }
            }
            return None;
        }
        if !(str_is(&fields[1].0, "players") && str_is(&fields[2].0, "lobby_code")) {
            proof {
                assert forall|m: ServerMessage| !server_decoding(*j, m) by {
                    if server_decoding(*j, m) {
                        lemma_server_tag_inversion(m);
                    }
                }
            }
            return None;
        }
        let items = match &fields[1].1 {
            Json::Arr(items) => items,
            _ => {
                proof {
                    assert forall|m: ServerMessage| !server_decoding(*j, m) by {
                        if server_decoding(*j, m) {
                            lemma_server_tag_inversion(m);
                        }
                    }
                }
                return None;
            },
        };
        let mut players: Vec<LobbyPlayerInfo> = Vec::new();
        let mut i: usize = 0;
        while i < items.len()
            invariant
                0 <= i <= items@.len(),
                players@.len() == i,
                forall|k: int|
                    0 <= k < i ==> lobby_player_info_encoding(#[trigger] items@[k], players@[k]),
            decreases items@.len() - i,
        {
            match decode_lobby_player_info(&items[i]) {
                Some(p) => {
                    players.push(p);
                },
                None => {
                    proof {
                        assert forall|m: ServerMessage| !server_decoding(*j, m) by {
                            if server_decoding(*j, m) {
                                lemma_server_tag_inversion(m);
                            }
                        }
                    }
                    return None;
                },
            }
            i = i + 1;
        }
        let lobby_code = match &fields[2].1 {
            Json::Str(s) => Some(s.clone()),
            Json::Null => None,
            _ => {
                proof {
                    assert forall|m: ServerMessage| !server_decoding(*j, m) by {
                        if server_decoding(*j, m) {
                            lemma_server_tag_inversion(m);
                        }
                    }
                }
                return None;
            },
        };
        Some(ServerMessage::LobbyPlayerList { players, lobby_code })
    } else if str_is(tag, "game_started") {
        if fields.len() != 6 {
            proof {
                assert forall|m: ServerMessage| !server_decoding(*j, m) by {
                    if server_decoding(*j, m) {
                        lemma_server_tag_inversion(m);
                    }
                }
            }
            return None;
        }
        if !(str_is(&fields[1].0, "game_id") && str_is(&fields[2].0, "grid") && str_is(
            &fields[3].0,
            "players",
        ) && str_is(&fields[4].0, "current_player_id") && str_is(
            &fields[5].0,
            "total_rounds",
        )) {
            proof {
                assert forall|m: ServerMessage| !server_decoding(*j, m) by {
                    if server_decoding(*j, m) {
                        lemma_server_tag_inversion(m);
                    }
                }
            }
            return None;
        }
        let game_id = match &fields[1].1 {
            Json::Str(s) => s.clone(),
            _ => {
                proof {
                    assert forall|m: ServerMessage| !server_decoding(*j, m) by {
                        if server_decoding(*j, m) {
                            lemma_server_tag_inversion(m);
                        }
                    }
                }
                return None;
            },
        };
        let grid = match decode_grid(&fields[2].1) {
            Some(g) => g,
            None => {
                proof {
                    assert forall|m: ServerMessage| !server_decoding(*j, m) by {
                        if server_decoding(*j, m) {
                            lemma_server_tag_inversion(m);
                        }
                    }
                }
                return None;
            },
        };
        let items = match &fields[3].1 {
            Json::Arr(items) => items,
            _ => {
                proof {
                    assert forall|m: ServerMessage| !server_decoding(*j, m) by {
                        if server_decoding(*j, m) {
                            lemma_server_tag_inversion(m);
                        }
                    }
                }
                return None;
            },
        };
        let mut players: Vec<GamePlayerInfo> = Vec::new();
        let mut i: usize = 0;
        while i < items.len()
            invariant
                0 <= i <= items@.len(),
                players@.len() == i,
                forall|k: int|
                    0 <= k < i ==> game_player_info_encoding(#[trigger] items@[k], players@[k]),
            decreases items@.len() - i,
        {
            match decode_game_player_info(&items[i]) {
                Some(p) => {
                    players.push(p);
                },
                None => {
                    proof {
                        assert forall|m: ServerMessage| !server_decoding(*j, m) by {
                            if server_decoding(*j, m) {
                                lemma_server_tag_inversion(m);
                            }
                        }
                    }
                    return None;
                },
            }
            i = i + 1;
        }
        let current_player_id = match &fields[4].1 {
            Json::Str(s) => s.clone(),
            _ => {
                proof {
                    assert forall|m: ServerMessage| !server_decoding(*j, m) by {
                        if server_decoding(*j, m) {
                            lemma_server_tag_inversion(m);
                        }
                    }
                }
                return None;
            },
        };
        let total_rounds = match &fields[5].1 {
            Json::Int(v) => {
                if *v < 0 || *v > 255 {
                    proof {
                        assert forall|m: ServerMessage| !server_decoding(*j, m) by {
                            if server_decoding(*j, m) {
                                lemma_server_tag_inversion(m);
                            }
                        }
                    }
                    return None;
                }
                *v as u8
            },
            _ => {
                proof {
                    assert forall|m: ServerMessage| !server_decoding(*j, m) by {
                        if server_decoding(*j, m) {
                            lemma_server_tag_inversion(m);
                        }
                    }
                }
                return None;
            },
        };
        Some(
            ServerMessage::GameStarted {
                game_id,
                grid,
                players,
                current_player_id,
                total_rounds,
            },
        )
    } else if str_is(tag, "game_state") {
        if fields.len() != 11 {
            proof {
                assert forall|m: ServerMessage| !server_decoding(*j, m) by {
                    if server_decoding(*j, m) {
                        lemma_server_tag_inversion(m);
                    }
                }
            }
            return None;
        }
        if !(str_is(&fields[1].0, "game_id") && str_is(&fields[2].0, "mode") && str_is(
            &fields[3].0,
            "round",
        ) && str_is(&fields[4].0, "max_rounds") && str_is(&fields[5].0, "grid") && str_is(
            &fields[6].0,
            "players",
        ) && str_is(&fields[7].0, "current_turn") && str_is(&fields[8].0, "used_words")
            && str_is(&fields[9].0, "timer_enabled") && str_is(
            &fields[10].0,
            "time_remaining",
        )) {
            proof {
                assert forall|m: ServerMessage| !server_decoding(*j, m) by {
                    if server_decoding(*j, m) {
                        lemma_server_tag_inversion(m);
                    }
                }
            }
            return None;
        }
        let game_id = match &fields[1].1 {
            Json::Str(s) => s.clone(),
            _ => {
                proof {
                    assert forall|m: ServerMessage| !server_decoding(*j, m) by {
                        if server_decoding(*j, m) {
                            lemma_server_tag_inversion(m);
                        }
                    }
                }
                return None;
            },
        };
        let mode = match &fields[2].1 {
            Json::Str(s) => {
                if str_is(s, "Multiplayer") {
                    GameMode::Multiplayer
                } else if str_is(s, "2v2") {
                    GameMode::TwoVTwo
                } else if str_is(s, "Adventure") {
                    GameMode::Adventure
                } else {
                    proof {
                        assert forall|m: ServerMessage| !server_decoding(*j, m) by {
                            if server_decoding(*j, m) {
                                lemma_server_tag_inversion(m);
                            }
                        }
                    }
                    return None;
                }
            },
            _ => {
                proof {
                    assert forall|m: ServerMessage| !server_decoding(*j, m) by {
                        if server_decoding(*j, m) {
                            lemma_server_tag_inversion(m);
                        }
                    }
                }
                return None;
            },
        };
        let round = match &fields[3].1 {
            Json::Int(v) => {
                if *v < -0x80000000 || *v > 0x7fffffff {
                    proof {
                        assert forall|m: ServerMessage| !server_decoding(*j, m) by {
                            if server_decoding(*j, m) {
                                lemma_server_tag_inversion(m);
                            }
                        }
                    }
                    return None;
                }
                *v as i32
            },
            _ => {
                proof {
                    assert forall|m: ServerMessage| !server_decoding(*j, m) by {
                        if server_decoding(*j, m) {
                            lemma_server_tag_inversion(m);
                        }
                    }
                }
                return None;
            },
        };
        let max_rounds = match &fields[4].1 {
            Json::Int(v) => {
                if *v < -0x80000000 || *v > 0x7fffffff {
                    proof {
                        assert forall|m: ServerMessage| !server_decoding(*j, m) by {
                            if server_decoding(*j, m) {
                                lemma_server_tag_inversion(m);
                            }
                        }
                    }
                    return None;
                }
                *v as i32
            },
            _ => {
                proof {
                    assert forall|m: ServerMessage| !server_decoding(*j, m) by {
                        if server_decoding(*j, m) {
                            lemma_server_tag_inversion(m);
                        }
                    }
                }
                return None;
            },
        };
        let grid = match decode_grid(&fields[5].1) {
            Some(g) => g,
            None => {
                proof {
                    assert forall|m: ServerMessage| !server_decoding(*j, m) by {
                        if server_decoding(*j, m) {
                            lemma_server_tag_inversion(m);
                        }
                    }
                }
                return None;
            },
        };
        let items = match &fields[6].1 {
            Json::Arr(items) => items,
            _ => {
                proof {
                    assert forall|m: ServerMessage| !server_decoding(*j, m) by {
                        if server_decoding(*j, m) {
                            lemma_server_tag_inversion(m);
                        }
                    }
                }
                return None;
            },
        };
        let mut players: Vec<PlayerInfo> = Vec::new();
        let mut i: usize = 0;
        while i < items.len()
            invariant
                0 <= i <= items@.len(),
                players@.len() == i,
                forall|k: int|
                    0 <= k < i ==> player_info_encoding(#[trigger] items@[k], players@[k]),
            decreases items@.len() - i,
        {
            match decode_player_info(&items[i]) {
                Some(p) => {
                    players.push(p);
                },
                None => {
                    proof {
                        assert forall|m: ServerMessage| !server_decoding(*j, m) by {
                            if server_decoding(*j, m) {
                                lemma_server_tag_inversion(m);
                            }
                        }
                    }
                    return None;
                },
            }
            i = i + 1;
        }
        let current_turn = match &fields[7].1 {
            Json::Int(v) => Some(*v),
            Json::Null => None,
            _ => {
                proof {
                    assert forall|m: ServerMessage| !server_decoding(*j, m) by {
                        if server_decoding(*j, m) {
                            lemma_server_tag_inversion(m);
                        }
                    }
                }
                return None;
            },
        };
        let used_words = match decode_words(&fields[8].1) {
            Some(ws) => ws,
            None => {
                proof {
                    assert forall|m: ServerMessage| !server_decoding(*j, m) by {
                        if server_decoding(*j, m) {
                            lemma_server_tag_inversion(m);
                        }
                    }
                }
                return None;
            },
        };
        let timer_enabled = match &fields[9].1 {
            Json::Bool(b) => *b,
            _ => {
                proof {
                    assert forall|m: ServerMessage| !server_decoding(*j, m) by {
                        if server_decoding(*j, m) {
                            lemma_server_tag_inversion(m);
                        }
                    }
                }
                return None;
            },
        };
        let time_remaining = match &fields[10].1 {
            Json::Int(v) => {
                if *v < 0 || *v > 0xffffffff {
                    proof {
                        assert forall|m: ServerMessage| !server_decoding(*j, m) by {
                            if server_decoding(*j, m) {
                                lemma_server_tag_inversion(m);
                            }
                        }
                    }
                    return None;
                }
                Some(*v as u32)
            },
            Json::Null => None,
            _ => {
                proof {
                    assert forall|m: ServerMessage| !server_decoding(*j, m) by {
                        if server_decoding(*j, m) {
                            lemma_server_tag_inversion(m);
                        }
                    }
                }
                return None;
            },
        };
        proof {
            assert("Multiplayer"@ != "2v2"@ && "Multiplayer"@ != "Adventure"@ && "2v2"@
                != "Adventure"@) by {
                reveal_strlit("Multiplayer");
                reveal_strlit("2v2");
                reveal_strlit("Adventure");
                assert("Multiplayer"@.len() == 11 && "2v2"@.len() == 3 && "Adventure"@.len()
                    == 9);
            }
        }
        Some(
            ServerMessage::GameState {
                game_id,
                mode,
                round,
                max_rounds,
                grid,
                players,
                current_turn,
                used_words,
                timer_enabled,
                time_remaining,
            },
        )
    } else {
        proof {
            assert forall|m: ServerMessage| !server_decoding(*j, m) by {
                if server_decoding(*j, m) {
                    lemma_server_tag_cases(m);
                }
            }
        }
        None
    }
}

/// The wire text of a server message: its canonical JSON.
pub fn wire_server(m: &ServerMessage) -> (r: String)
    ensures
        exists|j: Json| server_decoding(j, *m) && r@ == crate::json::spec_print(j),
{
    let j = encode_server(m);
    let s = crate::json::print_json(&j);
    proof {
        assert(server_decoding(j, *m) && s@ == crate::json::spec_print(j));
    }
    s
}

} // verus!

//! The online client's protocol: the server's lines read as messages, and the lines the game
//! sends, queued for the connection.
use vstd::prelude::*;
use crate::text::{chars_of, eq_lit, trim, slice, string_of, push_str, owned, trim_spec};
use crate::notation::{lowercase, str_lowercase};

verus! {

/// Messages the network layer hands to the game.
#[derive(Debug, Clone)]
pub enum NetMsg {
    /// The server assigned us this room code (after CREATE).
    RoomCreated(String),
    /// We joined a room and were given this colour (`white` or `black`).
    Joined { color: String },
    /// The opponent connected: the game starts now.
    Start,
    /// The opponent made a move (UCI, such as `e2e4` or `e7e8q`).
    OpponentMove(String),
    /// The opponent offered a draw.
    DrawOffer,
    /// The opponent accepted our draw offer.
    DrawAccepted,
    /// The opponent declined our draw offer.
    DrawDeclined,
    /// The opponent resigned.
    OpponentResigned,
    /// The opponent left or the connection was lost.
    Disconnected,
    /// The server reported an error.
    Error(String),
    /// A keep-alive round trip completed.
    Pong,
}

/// Commands the game hands to the network layer.
#[derive(Debug, Clone)]
pub enum NetCmd {
    /// Disconnect cleanly.
    Disconnect,
    /// A line to send, already formatted.
    Raw(String),
}

/// A message with its strings as character sequences.
pub enum NetMsgView {
    RoomCreated(Seq<char>),
    Joined(Seq<char>),
    Start,
    OpponentMove(Seq<char>),
    DrawOffer,
    DrawAccepted,
    DrawDeclined,
    OpponentResigned,
    Disconnected,
    Error(Seq<char>),
    Pong,
}

pub open spec fn msg_view(m: NetMsg) -> NetMsgView {
    match m {
        NetMsg::RoomCreated(s) => NetMsgView::RoomCreated(s@),
        NetMsg::Joined { color } => NetMsgView::Joined(color@),
        NetMsg::Start => NetMsgView::Start,
        NetMsg::OpponentMove(s) => NetMsgView::OpponentMove(s@),
        NetMsg::DrawOffer => NetMsgView::DrawOffer,
        NetMsg::DrawAccepted => NetMsgView::DrawAccepted,
        NetMsg::DrawDeclined => NetMsgView::DrawDeclined,
        NetMsg::OpponentResigned => NetMsgView::OpponentResigned,
        NetMsg::Disconnected => NetMsgView::Disconnected,
        NetMsg::Error(s) => NetMsgView::Error(s@),
        NetMsg::Pong => NetMsgView::Pong,
    }
}

/// A command as plain values: `None` to disconnect, or the line to send.
pub open spec fn cmd_view(c: NetCmd) -> Option<Seq<char>> {
    match c { NetCmd::Disconnect => None, NetCmd::Raw(s) => Some(s@) }
}

pub open spec fn starts_with_lit(s: Seq<char>, p: Seq<char>) -> bool {
    s.len() >= p.len() && s.take(p.len() as int) == p
}

/// What a server line means: `ROOM:`, `JOINED:` (colour lowercased), `MOVE:` and `ERROR:`
/// carry their trimmed rest, the bare words name their events; any other line counts as a pong.
pub open spec fn parse_line_spec(line: Seq<char>) -> NetMsgView {
    if starts_with_lit(line, "ROOM:"@) {
        NetMsgView::RoomCreated(trim_spec(line.skip(5)))
    } else if starts_with_lit(line, "JOINED:"@) {
        NetMsgView::Joined(str_lowercase(trim_spec(line.skip(7))))
    } else if line == "START"@ {
        NetMsgView::Start
    } else if starts_with_lit(line, "MOVE:"@) {
        NetMsgView::OpponentMove(trim_spec(line.skip(5)))
    } else if line == "DRAW_OFFER"@ {
        NetMsgView::DrawOffer
    } else if line == "DRAW_ACCEPTED"@ {
        NetMsgView::DrawAccepted
    } else if line == "DRAW_DECLINED"@ {
        NetMsgView::DrawDeclined
    } else if line == "RESIGNED"@ {
        NetMsgView::OpponentResigned
    } else if line == "PONG"@ {
        NetMsgView::Pong
    } else if line == "DISCONNECTED"@ {
        NetMsgView::Disconnected
    } else if starts_with_lit(line, "ERROR:"@) {
        NetMsgView::Error(trim_spec(line.skip(6)))
    } else {
        NetMsgView::Pong
    }
}

/// Whether `s` starts with `p`.
pub fn has_prefix(s: &Vec<char>, p: &str) -> (r: bool)
    ensures r == starts_with_lit(s@, p@),
{
    let pc = chars_of(p);
    if pc.len() > s.len() {
        return false;
    }
    let head = slice(s, 0, pc.len());
    assert(head@ =~= s@.take(pc@.len() as int));
    eq_lit(&head, p)
}

/// The rest of `s` after `n` characters, trimmed.
fn rest_trimmed(s: &Vec<char>, n: usize) -> (r: String)
    requires n <= s@.len(),
    ensures r@ == trim_spec(s@.skip(n as int)),
{
    let t = slice(s, n, s.len());
    assert(t@ =~= s@.skip(n as int));
    string_of(&trim(&t))
}

/// Reads one line from the server.
pub fn parse_server_line(line: &str) -> (m: NetMsg)
    ensures msg_view(m) == parse_line_spec(line@),
{
    let s = chars_of(line);
    if has_prefix(&s, "ROOM:") {
        proof { reveal_strlit("ROOM:"); }
        return NetMsg::RoomCreated(rest_trimmed(&s, 5));
    }
    if has_prefix(&s, "JOINED:") {
        proof { reveal_strlit("JOINED:"); }
        let t = slice(&s, 7, s.len());
        assert(t@ =~= s@.skip(7));
        let low = lowercase(&trim(&t));
        return NetMsg::Joined { color: string_of(&low) };
    }
    if eq_lit(&s, "START") {
        return NetMsg::Start;
    }
    if has_prefix(&s, "MOVE:") {
        proof { reveal_strlit("MOVE:"); }
        return NetMsg::OpponentMove(rest_trimmed(&s, 5));
    }
    if eq_lit(&s, "DRAW_OFFER") {
        return NetMsg::DrawOffer;
    }
    if eq_lit(&s, "DRAW_ACCEPTED") {
        return NetMsg::DrawAccepted;
    }
    if eq_lit(&s, "DRAW_DECLINED") {
        return NetMsg::DrawDeclined;
    }
    if eq_lit(&s, "RESIGNED") {
        return NetMsg::OpponentResigned;
    }
    if eq_lit(&s, "PONG") {
        return NetMsg::Pong;
    }
    if eq_lit(&s, "DISCONNECTED") {
        return NetMsg::Disconnected;
    }
    if has_prefix(&s, "ERROR:") {
        proof { reveal_strlit("ERROR:"); }
        return NetMsg::Error(rest_trimmed(&s, 6));
    }
    NetMsg::Pong
}

/// The client's side of a connection: the lines waiting to be written and the messages
/// waiting to be read. The connection's threads move them to and from the socket.
pub struct NetClient {
    /// Commands not yet handed to the writer.
    pub outbox: Vec<NetCmd>,
    /// Messages read from the server and not yet drained.
    pub inbox: Vec<NetMsg>,
    pub connected: bool,
    /// The reader has stopped: the server closed the connection or it broke.
    pub hung_up: bool,
}

impl NetClient {
    /// A client for a connection just made.
    pub fn new() -> (c: NetClient)
        ensures c.outbox@.len() == 0, c.inbox@.len() == 0, c.connected, !c.hung_up,
    {
        NetClient { outbox: Vec::new(), inbox: Vec::new(), connected: true, hung_up: false }
    }

    /// The reader has stopped: from now on every drain ends with `Disconnected`.
    pub fn hang_up(&mut self)
        ensures final(self).hung_up, final(self).inbox == old(self).inbox, final(self).outbox == old(self).outbox,
            final(self).connected == old(self).connected,
    {
        self.hung_up = true;
    }

    pub open spec fn sent(&self) -> Seq<Option<Seq<char>>> {
        self.outbox@.map_values(|c: NetCmd| cmd_view(c))
    }

    fn raw(&mut self, s: String)
        ensures
            final(self).sent() == old(self).sent().push(Some(s@)),
            final(self).inbox == old(self).inbox, final(self).connected == old(self).connected,
    {
        let ghost before = self.sent();
        self.outbox.push(NetCmd::Raw(s));
        assert(self.sent() =~= before.push(Some(s@)));
    }

    /// Asks the server for a new room.
    pub fn send_create(&mut self)
        ensures final(self).sent() == old(self).sent().push(Some("CREATE"@)),
            final(self).inbox == old(self).inbox, final(self).connected == old(self).connected,
    {
        self.raw(owned("CREATE"));
    }

    /// Asks to join room `room`.
    pub fn send_join(&mut self, room: &str)
        ensures final(self).sent() == old(self).sent().push(Some("JOIN:"@ + room@)),
            final(self).inbox == old(self).inbox, final(self).connected == old(self).connected,
    {
        let mut s = owned("JOIN:");
        push_str(&mut s, room);
        self.raw(s);
    }

    /// Sends our move in UCI.
    pub fn send_move(&mut self, uci: &str)
        ensures final(self).sent() == old(self).sent().push(Some("MOVE:"@ + uci@)),
            final(self).inbox == old(self).inbox, final(self).connected == old(self).connected,
    {
        let mut s = owned("MOVE:");
        push_str(&mut s, uci);
        self.raw(s);
    }

    pub fn send_draw_offer(&mut self)
        ensures final(self).sent() == old(self).sent().push(Some("DRAW"@)),
            final(self).inbox == old(self).inbox, final(self).connected == old(self).connected,
    {
        self.raw(owned("DRAW"));
    }

    pub fn send_draw_accept(&mut self)
        ensures final(self).sent() == old(self).sent().push(Some("DRAW_ACCEPT"@)),
            final(self).inbox == old(self).inbox, final(self).connected == old(self).connected,
    {
        self.raw(owned("DRAW_ACCEPT"));
    }

    pub fn send_draw_decline(&mut self)
        ensures final(self).sent() == old(self).sent().push(Some("DRAW_DECLINE"@)),
            final(self).inbox == old(self).inbox, final(self).connected == old(self).connected,
    {
        self.raw(owned("DRAW_DECLINE"));
    }

    pub fn send_resign(&mut self)
        ensures final(self).sent() == old(self).sent().push(Some("RESIGN"@)),
            final(self).inbox == old(self).inbox, final(self).connected == old(self).connected,
    {
        self.raw(owned("RESIGN"));
    }

    pub fn send_ping(&mut self)
        ensures final(self).sent() == old(self).sent().push(Some("PING"@)),
            final(self).inbox == old(self).inbox, final(self).connected == old(self).connected,
    {
        self.raw(owned("PING"));
    }

    /// Asks the writer to close the connection, and marks the client disconnected.
    pub fn disconnect(&mut self)
        ensures final(self).sent() == old(self).sent().push(None), !final(self).connected,
            final(self).inbox == old(self).inbox,
    {
        let ghost before = self.sent();
        self.outbox.push(NetCmd::Disconnect);
        assert(self.sent() =~= before.push(None));
        self.connected = false;
    }

    /// Takes every message read so far, oldest first, followed by `Disconnected` once the
    /// reader has stopped; never waits.
    pub fn drain(&mut self) -> (msgs: Vec<NetMsg>)
        ensures
            msgs@ == old(self).inbox@ + (if old(self).hung_up { seq![NetMsg::Disconnected] } else { Seq::empty() }),
            final(self).inbox@.len() == 0,
            final(self).outbox == old(self).outbox, final(self).connected == old(self).connected,
            final(self).hung_up == old(self).hung_up,
    {
        let mut msgs: Vec<NetMsg> = Vec::new();
        std::mem::swap(&mut msgs, &mut self.inbox);
        let ghost m0 = msgs@;
        if self.hung_up {
            msgs.push(NetMsg::Disconnected);
        }
        assert(msgs@ =~= m0 + (if old(self).hung_up { seq![NetMsg::Disconnected] } else { Seq::empty() }));
        msgs
    }
}

} // verus!

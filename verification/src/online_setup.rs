//! The online setup screen as a state machine: the server address (with a warning for the
//! admin port), create, join or rejoin, and the room code or a pasted invite link. The front
//! end carries out the `OnlineAction` it gets back (connecting is I/O) and reports how a
//! connection went with `connect_result`.
use vstd::prelude::*;
use crate::game::{OnlineStep, Screen};
use crate::client_game::Key;
use crate::auth::{decode_invite, invite_parts};
use crate::network::{has_prefix, starts_with_lit};
use crate::num::{push_dec, dec_spec};
use crate::text::{chars_of, owned, push_chars, push_str, string_of, trim, trim_spec, uppercase, str_uppercase};

verus! {

/// What to ask the server for once connected.
#[derive(Clone, Debug)]
pub enum JoinRequest {
    /// Join the room with this code.
    Join(String),
    /// Rejoin a saved session: room code, colour, token.
    Rejoin(String, String, String),
}

/// What the front end has to do after a key on the setup screen.
#[derive(Clone, Debug)]
pub enum OnlineAction {
    Nothing,
    /// Back to the main menu.
    BackToMenu,
    /// Open the room-rules picker before creating a room.
    OpenLobby,
    /// Start a server on this machine and connect to it.
    LaunchLocalServer,
    /// Delete the saved session.
    ClearSession,
    /// Connect to `addr`, send the password first when there is one, then the request.
    Connect { addr: String, request: JoinRequest, password: Option<String> },
    /// Drop the connection being made.
    Disconnect,
}

/// The setup screen's state.
pub struct OnlineSetup {
    pub step: OnlineStep,
    /// What is being typed: the address, or the room code or link.
    pub buf: Vec<char>,
    pub server_addr: Vec<char>,
    pub msg: String,
    /// The server password, if one was entered.
    pub password: Vec<char>,
    /// The saved session, if any: room code, colour, token.
    pub session: Option<(String, String, String)>,
    pub screen: Screen,
}

pub enum RequestView {
    Join(Seq<char>),
    Rejoin(Seq<char>, Seq<char>, Seq<char>),
}

pub enum ActionView {
    Nothing,
    BackToMenu,
    OpenLobby,
    LaunchLocalServer,
    ClearSession,
    Connect(Seq<char>, RequestView, Option<Seq<char>>),
    Disconnect,
}

#[verifier::ext_equal]
pub struct SetupView {
    pub step: OnlineStep,
    pub buf: Seq<char>,
    pub server_addr: Seq<char>,
    pub msg: Seq<char>,
    pub password: Seq<char>,
    pub session: Option<(Seq<char>, Seq<char>, Seq<char>)>,
    pub screen: Screen,
}

pub open spec fn request_view(r: JoinRequest) -> RequestView {
    match r {
        JoinRequest::Join(c) => RequestView::Join(c@),
        JoinRequest::Rejoin(c, col, t) => RequestView::Rejoin(c@, col@, t@),
    }
}

pub open spec fn action_view(a: OnlineAction) -> ActionView {
    match a {
        OnlineAction::Nothing => ActionView::Nothing,
        OnlineAction::BackToMenu => ActionView::BackToMenu,
        OnlineAction::OpenLobby => ActionView::OpenLobby,
        OnlineAction::LaunchLocalServer => ActionView::LaunchLocalServer,
        OnlineAction::ClearSession => ActionView::ClearSession,
        OnlineAction::Connect { addr, request, password } => ActionView::Connect(addr@, request_view(request),
            match password { Some(p) => Some(p@), None => None }),
        OnlineAction::Disconnect => ActionView::Disconnect,
    }
}

impl OnlineSetup {
    pub open spec fn view(&self) -> SetupView {
        SetupView {
            step: self.step,
            buf: self.buf@,
            server_addr: self.server_addr@,
            msg: self.msg@,
            password: self.password@,
            session: match self.session { Some((c, col, t)) => Some((c@, col@, t@)), None => None },
            screen: self.screen,
        }
    }
}

pub open spec fn ends_with_text(s: Seq<char>, p: Seq<char>) -> bool {
    s.len() >= p.len() && s.skip(s.len() - p.len()) == p
}

/// The port named in an address that ends in an admin or web port, if it does.
pub open spec fn admin_port(addr: Seq<char>) -> Option<Seq<char>> {
    if ends_with_text(addr, ":9002"@) { Some("9002"@) }
    else if ends_with_text(addr, ":8080"@) { Some("8080"@) }
    else if ends_with_text(addr, ":80"@) { Some("80"@) }
    else { None }
}

pub open spec fn password_of(v: SetupView) -> Option<Seq<char>> {
    if v.password.len() > 0 { Some(v.password) } else { None }
}

/// Where and what to join for the text typed in the room step: an `rc1:` invite link gives
/// the host, port and room it encodes; anything else is a room code on the chosen server,
/// in capitals. `Err` carries the message shown instead.
pub open spec fn join_target(v: SetupView) -> Result<(Seq<char>, Seq<char>), Seq<char>> {
    let raw = trim_spec(v.buf);
    if raw.len() == 0 {
        Err("Enter a room code or invite link."@)
    } else if starts_with_lit(raw, "rc1:"@) {
        match invite_parts(raw) {
            Some((h, p, code)) => if code.len() == 0 { Err("Enter a room code."@) }
                else { Ok((h + seq![':'] + dec_spec(p as nat), code)) },
            None => Err("Invalid invite link format."@),
        }
    } else {
        let room = str_uppercase(raw);
        if room.len() == 0 { Err("Enter a room code."@) } else { Ok((v.server_addr, room)) }
    }
}

/// A key on the setup screen.
/// - Address step: Esc back to the menu; Enter takes the trimmed address, unless it ends in an
///   admin or web port (9002, 8080, 80), which is refused with a warning; Backspace and
///   characters edit.
/// - Action step: Esc back to the address; `c` create (the rules picker comes first), `j`
///   join, `l` launch a local server, `x` forget the saved session, `r` rejoin it.
/// - Room step: Esc back; Enter connects for the typed room code or pasted invite link;
///   Backspace edits; characters are typed up to 60.
/// - Connecting: Esc drops the connection and goes back to the action step.
pub open spec fn online_setup_spec(v: SetupView, key: Key) -> (SetupView, ActionView) {
    match v.step {
        OnlineStep::EnterAddr => match key {
            Key::Esc => (SetupView { screen: Screen::Menu, ..v }, ActionView::BackToMenu),
            Key::Enter => {
                let addr = trim_spec(v.buf);
                match admin_port(addr) {
                    Some(p) => (SetupView { msg: "\u{26a0} Port "@ + p + " is the admin/HTTP port. Use :9001 for the game."@, ..v },
                        ActionView::Nothing),
                    None => (SetupView { msg: Seq::empty(), server_addr: addr, step: OnlineStep::ChooseAction, ..v },
                        ActionView::Nothing),
                }
            },
            Key::Backspace => (SetupView { buf: if v.buf.len() > 0 { v.buf.drop_last() } else { v.buf }, ..v }, ActionView::Nothing),
            Key::Char(c) => (SetupView { buf: v.buf.push(c), ..v }, ActionView::Nothing),
            _ => (v, ActionView::Nothing),
        },
        OnlineStep::ChooseAction => match key {
            Key::Esc => (SetupView { step: OnlineStep::EnterAddr, ..v }, ActionView::Nothing),
            Key::Char(c) => if c == 'c' || c == 'C' {
                (SetupView { server_addr: v.buf, screen: Screen::OnlineLobby, ..v }, ActionView::OpenLobby)
            } else if c == 'j' || c == 'J' {
                (SetupView { server_addr: v.buf, buf: Seq::empty(), step: OnlineStep::EnterRoom, msg: Seq::empty(), ..v },
                    ActionView::Nothing)
            } else if c == 'l' || c == 'L' {
                (v, ActionView::LaunchLocalServer)
            } else if c == 'x' || c == 'X' {
                (SetupView { session: None, msg: "Session cleared."@, ..v }, ActionView::ClearSession)
            } else if c == 'r' || c == 'R' {
                match v.session {
                    Some((code, col, tok)) => (v, ActionView::Connect(v.server_addr, RequestView::Rejoin(code, col, tok),
                        password_of(v))),
                    None => (SetupView { msg: "No saved session found."@, ..v }, ActionView::Nothing),
                }
            } else {
                (v, ActionView::Nothing)
            },
            _ => (v, ActionView::Nothing),
        },
        OnlineStep::EnterRoom => match key {
            Key::Esc => (SetupView { step: OnlineStep::ChooseAction, buf: Seq::empty(), ..v }, ActionView::Nothing),
            Key::Enter => match join_target(v) {
                Ok((addr, room)) => (v, ActionView::Connect(addr, RequestView::Join(room), password_of(v))),
                Err(m) => (SetupView { msg: m, ..v }, ActionView::Nothing),
            },
            Key::Backspace => (SetupView { buf: if v.buf.len() > 0 { v.buf.drop_last() } else { v.buf }, ..v }, ActionView::Nothing),
            Key::Char(c) => if v.buf.len() < 60 { (SetupView { buf: v.buf.push(c), ..v }, ActionView::Nothing) }
                else { (v, ActionView::Nothing) },
            _ => (v, ActionView::Nothing),
        },
        OnlineStep::Connecting => match key {
            Key::Esc => (SetupView { screen: Screen::OnlineSetup, step: OnlineStep::ChooseAction, ..v }, ActionView::Disconnect),
            _ => (v, ActionView::Nothing),
        },
    }
}

/// How a connection made for `request` to `addr` went: on success the screen waits for the
/// server, on failure the error is shown.
pub open spec fn connect_spec(v: SetupView, addr: Seq<char>, request: RequestView, err: Option<Seq<char>>) -> SetupView {
    match err {
        Some(e) => SetupView {
            msg: match request { RequestView::Join(_) => "Error: "@ + e, RequestView::Rejoin(_, _, _) => "Rejoin failed: "@ + e },
            ..v
        },
        None => SetupView {
            server_addr: match request { RequestView::Join(_) => addr, RequestView::Rejoin(_, _, _) => v.server_addr },
            step: OnlineStep::Connecting,
            screen: Screen::OnlineWaiting,
            msg: match request {
                RequestView::Join(room) => "Joining room "@ + room + "\u{2026}"@,
                RequestView::Rejoin(code, _, _) => "Rejoining room "@ + code + "\u{2026}"@,
            },
            ..v
        },
    }
}

fn ends_with_lit(s: &Vec<char>, p: &str) -> (r: bool)
    ensures r == ends_with_text(s@, p@),
{
    let pc = chars_of(p);
    if pc.len() > s.len() {
        return false;
    }
    let off = s.len() - pc.len();
    let mut i: usize = 0;
    while i < pc.len()
        invariant i <= pc@.len(), off + pc@.len() == s@.len(), pc@ == p@, s@.len() == s.len(), pc@.len() == pc.len(),
            forall|k: int| 0 <= k < i ==> s@[off + k] == pc@[k],
        decreases pc@.len() - i,
    {
        if s[off + i] != pc[i] {
            assert(s@.skip(off as int)[i as int] != p@[i as int]);
            return false;
        }
        i += 1;
    }
    assert(s@.skip(off as int) =~= p@);
    true
}

fn opt_password(p: &Vec<char>) -> (r: Option<String>)
    ensures match r { Some(s) => p@.len() > 0 && s@ == p@, None => p@.len() == 0 },
{
    if p.len() > 0 { Some(string_of(p)) } else { None }
}

fn join_target_of(buf: &Vec<char>, server_addr: &Vec<char>) -> (r: Result<(String, String), String>)
    ensures
        match (r, join_target(SetupView { step: OnlineStep::EnterRoom, buf: buf@, server_addr: server_addr@,
                msg: Seq::empty(), password: Seq::empty(), session: None, screen: Screen::OnlineSetup })) {
            (Ok((a, c)), Ok((a2, c2))) => a@ == a2 && c@ == c2,
            (Err(e), Err(e2)) => e@ == e2,
            _ => false,
        },
{
    proof { reveal_strlit("rc1:"); }
    let raw = trim(buf);
    if raw.len() == 0 {
        return Err(owned("Enter a room code or invite link."));
    }
    if has_prefix(&raw, "rc1:") {
        let link = string_of(&raw);
        match decode_invite(link.as_str()) {
            Some((h, p, code)) => {
                if code.as_str().is_empty() {
                    return Err(owned("Enter a room code."));
                }
                let mut a = h;
                push_str(&mut a, ":");
                push_dec(&mut a, p as u64);
                proof { reveal_strlit(":"); }
                let ghost parts = invite_parts(raw@).unwrap();
                assert(a@ =~= parts.0 + seq![':'] + dec_spec(p as nat));
                Ok((a, code))
            },
            None => Err(owned("Invalid invite link format.")),
        }
    } else {
        let room = uppercase(&raw);
        if room.len() == 0 {
            return Err(owned("Enter a room code."));
        }
        Ok((string_of(server_addr), string_of(&room)))
    }
}

impl OnlineSetup {
    /// A setup screen at the address step, with the saved session if there is one.
    pub fn new(password: Vec<char>, session: Option<(String, String, String)>) -> (s: OnlineSetup)
        ensures s.step == OnlineStep::EnterAddr, s.buf@.len() == 0, s.server_addr@.len() == 0, s.msg@.len() == 0,
            s.password == password, s.session == session, s.screen == Screen::OnlineSetup,
    {
        OnlineSetup { step: OnlineStep::EnterAddr, buf: Vec::new(), server_addr: Vec::new(), msg: String::new(),
            password, session, screen: Screen::OnlineSetup }
    }

    fn edit(&mut self, key: Key, limit: usize) -> (a: OnlineAction)
        ensures
            final(self).view() == (SetupView { buf: match key {
                    Key::Backspace => if old(self).buf@.len() > 0 { old(self).buf@.drop_last() } else { old(self).buf@ },
                    Key::Char(c) => if old(self).buf@.len() < limit { old(self).buf@.push(c) } else { old(self).buf@ },
                    _ => old(self).buf@,
                }, ..old(self).view() }),
            a is Nothing,
    {
        let ghost v0 = self.view();
        match key {
            Key::Backspace => { self.buf.pop(); },
            Key::Char(c) => { if self.buf.len() < limit { self.buf.push(c); } },
            _ => {},
        }
        assert(self.view() =~= (SetupView { buf: match key {
                Key::Backspace => if v0.buf.len() > 0 { v0.buf.drop_last() } else { v0.buf },
                Key::Char(c) => if v0.buf.len() < limit { v0.buf.push(c) } else { v0.buf },
                _ => v0.buf,
            }, ..v0 }));
        OnlineAction::Nothing
    }

    fn addr_key(&mut self, key: Key) -> (a: OnlineAction)
        requires old(self).step == OnlineStep::EnterAddr,
        ensures (final(self).view(), action_view(a)) == online_setup_spec(old(self).view(), key),
    {
        let ghost v0 = self.view();
        match key {
            Key::Esc => {
                self.screen = Screen::Menu;
                assert(self.view() =~= online_setup_spec(v0, key).0);
                OnlineAction::BackToMenu
            },
            Key::Enter => {
                proof {
                    reveal_strlit(":9002"); reveal_strlit(":8080"); reveal_strlit(":80");
                    reveal_strlit("9002"); reveal_strlit("8080"); reveal_strlit("80");
                }
                let addr = trim(&self.buf);
                let port: Option<&str> = if ends_with_lit(&addr, ":9002") { Some("9002") }
                    else if ends_with_lit(&addr, ":8080") { Some("8080") }
                    else if ends_with_lit(&addr, ":80") { Some("80") } else { None };
                match port {
                    Some(p) => {
                        let mut m = owned("\u{26a0} Port ");
                        push_str(&mut m, p);
                        push_str(&mut m, " is the admin/HTTP port. Use :9001 for the game.");
                        self.msg = m;
                    },
                    None => {
                        self.msg = String::new();
                        self.server_addr = addr;
                        self.step = OnlineStep::ChooseAction;
                    },
                }
                assert(self.view() =~= online_setup_spec(v0, key).0);
                OnlineAction::Nothing
            },
            Key::Backspace => self.edit(key, 0),
            Key::Char(c) => {
                self.buf.push(c);
                assert(self.view() =~= online_setup_spec(v0, key).0);
                OnlineAction::Nothing
            },
            _ => OnlineAction::Nothing,
        }
    }

    fn action_key(&mut self, key: Key) -> (a: OnlineAction)
        requires old(self).step == OnlineStep::ChooseAction,
        ensures (final(self).view(), action_view(a)) == online_setup_spec(old(self).view(), key),
    {
        let ghost v0 = self.view();
        match key {
            Key::Esc => {
                self.step = OnlineStep::EnterAddr;
                assert(self.view() =~= online_setup_spec(v0, key).0);
                OnlineAction::Nothing
            },
            Key::Char(c) => {
                if c == 'c' || c == 'C' {
                    self.server_addr = self.buf.clone();
                    self.screen = Screen::OnlineLobby;
                    assert(self.view() =~= online_setup_spec(v0, key).0);
                    OnlineAction::OpenLobby
                } else if c == 'j' || c == 'J' {
                    self.server_addr = self.buf.clone();
                    self.buf = Vec::new();
                    self.step = OnlineStep::EnterRoom;
                    self.msg = String::new();
                    assert(self.view() =~= online_setup_spec(v0, key).0);
                    OnlineAction::Nothing
                } else if c == 'l' || c == 'L' {
                    OnlineAction::LaunchLocalServer
                } else if c == 'x' || c == 'X' {
                    self.session = None;
                    self.msg = owned("Session cleared.");
                    assert(self.view() =~= online_setup_spec(v0, key).0);
                    OnlineAction::ClearSession
                } else if c == 'r' || c == 'R' {
                    match &self.session {
                        Some((code, col, tok)) => {
                            let request = JoinRequest::Rejoin(code.clone(), col.clone(), tok.clone());
                            let password = opt_password(&self.password);
                            OnlineAction::Connect { addr: string_of(&self.server_addr), request, password }
                        },
                        None => {
                            self.msg = owned("No saved session found.");
                            assert(self.view() =~= online_setup_spec(v0, key).0);
                            OnlineAction::Nothing
                        },
                    }
                } else {
                    OnlineAction::Nothing
                }
            },
            _ => OnlineAction::Nothing,
        }
    }

    fn room_key(&mut self, key: Key) -> (a: OnlineAction)
        requires old(self).step == OnlineStep::EnterRoom,
        ensures (final(self).view(), action_view(a)) == online_setup_spec(old(self).view(), key),
    {
        let ghost v0 = self.view();
        match key {
            Key::Esc => {
                self.step = OnlineStep::ChooseAction;
                self.buf = Vec::new();
                assert(self.view() =~= online_setup_spec(v0, key).0);
                OnlineAction::Nothing
            },
            Key::Enter => {
                assert(join_target(v0) == join_target(SetupView { step: OnlineStep::EnterRoom, buf: v0.buf,
                    server_addr: v0.server_addr, msg: Seq::empty(), password: Seq::empty(), session: None,
                    screen: Screen::OnlineSetup }));
                match join_target_of(&self.buf, &self.server_addr) {
                    Ok((addr, room)) => {
                        let password = opt_password(&self.password);
                        OnlineAction::Connect { addr, request: JoinRequest::Join(room), password }
                    },
                    Err(m) => {
                        self.msg = m;
                        assert(self.view() =~= online_setup_spec(v0, key).0);
                        OnlineAction::Nothing
                    },
                }
            },
            Key::Backspace | Key::Char(_) => self.edit(key, 60),
            _ => OnlineAction::Nothing,
        }
    }

    /// A key on the setup screen (see `online_setup_spec`).
    pub fn key(&mut self, key: Key) -> (a: OnlineAction)
        ensures (final(self).view(), action_view(a)) == online_setup_spec(old(self).view(), key),
    {
        let ghost v0 = self.view();
        match self.step {
            OnlineStep::EnterAddr => self.addr_key(key),
            OnlineStep::ChooseAction => self.action_key(key),
            OnlineStep::EnterRoom => self.room_key(key),
            OnlineStep::Connecting => {
                match key {
                    Key::Esc => {
                        self.screen = Screen::OnlineSetup;
                        self.step = OnlineStep::ChooseAction;
                        assert(self.view() =~= online_setup_spec(v0, key).0);
                        OnlineAction::Disconnect
                    },
                    _ => OnlineAction::Nothing,
                }
            },
        }
    }

    /// How the connection asked for went: `err` is the error, if it failed (see `connect_spec`).
    pub fn connect_result(&mut self, addr: &str, request: &JoinRequest, err: Option<String>)
        ensures final(self).view() == connect_spec(old(self).view(), addr@, request_view(*request),
            match err { Some(e) => Some(e@), None => None }),
    {
        let ghost v0 = self.view();
        match err {
            Some(e) => {
                let mut m = match request { JoinRequest::Join(_) => owned("Error: "), JoinRequest::Rejoin(_, _, _) => owned("Rejoin failed: ") };
                push_str(&mut m, e.as_str());
                self.msg = m;
            },
            None => {
                let mut m = String::new();
                match request {
                    JoinRequest::Join(room) => {
                        self.server_addr = chars_of(addr);
                        m = owned("Joining room ");
                        push_str(&mut m, room.as_str());
                    },
                    JoinRequest::Rejoin(code, _, _) => {
                        m = owned("Rejoining room ");
                        push_str(&mut m, code.as_str());
                    },
                }
                push_str(&mut m, "\u{2026}");
                self.msg = m;
                self.step = OnlineStep::Connecting;
                self.screen = Screen::OnlineWaiting;
            },
        }
        assert(self.view() =~= connect_spec(v0, addr@, request_view(*request), match err { Some(e) => Some(e@), None => None }));
    }
}

} // verus!

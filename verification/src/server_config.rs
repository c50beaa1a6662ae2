//! The relay server's settings: defaults, `key = value` overrides and the TOML-like file.
use vstd::prelude::*;
use crate::text::{chars_of, eq_lit, lines, trim, find_char, slice, string_of, strip_both, owned,
    lines_spec, trim_spec, find_char_spec, strip_both_spec};
use crate::num::{parse_unsigned, parse_unsigned_spec};

verus! {

#[derive(Clone, Debug)]
pub struct ServerConfig {
    pub host: String,
    pub port: u16,
    pub admin_port: u16,
    pub server_password: Option<String>,
    pub admin_password: Option<String>,
    pub max_rooms: usize,
    pub max_conns_per_ip: u32,
    pub data_dir: String,
    pub room_ttl_mins: u64,
    pub server_name: String,
    pub motd: String,
    /// Public address embedded in invite links; found out when empty.
    pub public_host: String,
}

/// A `ServerConfig` with its strings as character sequences.
pub struct ServerConfigView {
    pub host: Seq<char>,
    pub port: u16,
    pub admin_port: u16,
    pub server_password: Option<Seq<char>>,
    pub admin_password: Option<Seq<char>>,
    pub max_rooms: usize,
    pub max_conns_per_ip: u32,
    pub data_dir: Seq<char>,
    pub room_ttl_mins: u64,
    pub server_name: Seq<char>,
    pub motd: Seq<char>,
    pub public_host: Seq<char>,
}

pub open spec fn opt_view(o: Option<String>) -> Option<Seq<char>> {
    match o { Some(s) => Some(s@), None => None }
}

impl View for ServerConfig {
    type V = ServerConfigView;

    open spec fn view(&self) -> ServerConfigView {
        ServerConfigView {
            host: self.host@,
            port: self.port,
            admin_port: self.admin_port,
            server_password: opt_view(self.server_password),
            admin_password: opt_view(self.admin_password),
            max_rooms: self.max_rooms,
            max_conns_per_ip: self.max_conns_per_ip,
            data_dir: self.data_dir@,
            room_ttl_mins: self.room_ttl_mins,
            server_name: self.server_name@,
            motd: self.motd@,
            public_host: self.public_host@,
        }
    }
}

impl Default for ServerConfig {
    fn default() -> (r: ServerConfig)
        ensures
            r@ == (ServerConfigView {
                host: "0.0.0.0"@,
                port: 9001,
                admin_port: 9002,
                server_password: None,
                admin_password: None,
                max_rooms: 200,
                max_conns_per_ip: 20,
                data_dir: "./rchess_data"@,
                room_ttl_mins: 120,
                server_name: "RChess Server"@,
                motd: Seq::empty(),
                public_host: Seq::empty(),
            }),
    {
        ServerConfig {
            host: owned("0.0.0.0"),
            port: 9001,
            admin_port: 9002,
            server_password: None,
            admin_password: None,
            max_rooms: 200,
            max_conns_per_ip: 20,
            data_dir: owned("./rchess_data"),
            room_ttl_mins: 120,
            server_name: owned("RChess Server"),
            motd: String::new(),
            public_host: String::new(),
        }
    }
}

/// A password setting: none when empty.
pub open spec fn password_of(v: Seq<char>) -> Option<Seq<char>> {
    if v.len() == 0 { None } else { Some(v) }
}

/// The settings after `k = v`: a text setting takes `v`, a number setting takes `v` when it
/// parses as a number of its type and is otherwise unchanged, a password is none when `v`
/// is empty; an unknown key changes nothing.
pub open spec fn apply_key_spec(c: ServerConfigView, k: Seq<char>, v: Seq<char>) -> ServerConfigView {
    if k == "host"@ {
        ServerConfigView { host: v, ..c }
    } else if k == "port"@ {
        match parse_unsigned_spec(v, u16::MAX as nat) { Some(n) => ServerConfigView { port: n as u16, ..c }, None => c }
    } else if k == "admin_port"@ {
        match parse_unsigned_spec(v, u16::MAX as nat) { Some(n) => ServerConfigView { admin_port: n as u16, ..c }, None => c }
    } else if k == "server_password"@ {
        ServerConfigView { server_password: password_of(v), ..c }
    } else if k == "admin_password"@ {
        ServerConfigView { admin_password: password_of(v), ..c }
    } else if k == "max_rooms"@ {
        match parse_unsigned_spec(v, usize::MAX as nat) { Some(n) => ServerConfigView { max_rooms: n as usize, ..c }, None => c }
    } else if k == "max_conns_per_ip"@ {
        match parse_unsigned_spec(v, u32::MAX as nat) { Some(n) => ServerConfigView { max_conns_per_ip: n as u32, ..c }, None => c }
    } else if k == "data_dir"@ {
        ServerConfigView { data_dir: v, ..c }
    } else if k == "room_ttl_mins"@ {
        match parse_unsigned_spec(v, u64::MAX as nat) { Some(n) => ServerConfigView { room_ttl_mins: n as u64, ..c }, None => c }
    } else if k == "server_name"@ {
        ServerConfigView { server_name: v, ..c }
    } else if k == "motd"@ {
        ServerConfigView { motd: v, ..c }
    } else if k == "public_host"@ {
        ServerConfigView { public_host: v, ..c }
    } else {
        c
    }
}

/// One line of the settings file: blank lines and `#` comments change nothing; otherwise the
/// key before the first `=` and the value after it, trimmed and without surrounding quotes.
pub open spec fn toml_line_spec(c: ServerConfigView, line: Seq<char>) -> ServerConfigView {
    let t = trim_spec(line);
    if t.len() == 0 || t[0] == '#' {
        c
    } else {
        let e = find_char_spec(t, '=');
        let k = strip_both_spec(trim_spec(t.take(e)), '"');
        let v = if e < t.len() { strip_both_spec(trim_spec(t.skip(e + 1)), '"') } else { Seq::empty() };
        apply_key_spec(c, k, v)
    }
}

/// The settings after the lines `ls`, in order.
pub open spec fn toml_lines_spec(c: ServerConfigView, ls: Seq<Seq<char>>) -> ServerConfigView
    decreases ls.len(),
{
    if ls.len() == 0 { c } else { toml_line_spec(toml_lines_spec(c, ls.drop_last()), ls.last()) }
}

impl ServerConfig {
    /// Applies one setting `k = v`.
    pub fn apply_key(&mut self, k: &str, v: &str)
        ensures final(self)@ == apply_key_spec(old(self)@, k@, v@),
    {
        let kc = chars_of(k);
        let vc = chars_of(v);
        self.apply_chars(&kc, &vc);
    }

    fn apply_chars(&mut self, k: &Vec<char>, v: &Vec<char>)
        ensures final(self)@ == apply_key_spec(old(self)@, k@, v@),
    {
        if eq_lit(k, "host") {
            self.host = string_of(v);
        } else if eq_lit(k, "port") {
            match parse_unsigned(v, 65535) { Some(n) => { self.port = n as u16; }, None => {} }
        } else if eq_lit(k, "admin_port") {
            match parse_unsigned(v, 65535) { Some(n) => { self.admin_port = n as u16; }, None => {} }
        } else if eq_lit(k, "server_password") {
            self.server_password = if v.len() == 0 { None } else { Some(string_of(v)) };
        } else if eq_lit(k, "admin_password") {
            self.admin_password = if v.len() == 0 { None } else { Some(string_of(v)) };
        } else if eq_lit(k, "max_rooms") {
            match parse_unsigned(v, usize::MAX as u64) { Some(n) => { self.max_rooms = n as usize; }, None => {} }
        } else if eq_lit(k, "max_conns_per_ip") {
            match parse_unsigned(v, 4294967295) { Some(n) => { self.max_conns_per_ip = n as u32; }, None => {} }
        } else if eq_lit(k, "data_dir") {
            self.data_dir = string_of(v);
        } else if eq_lit(k, "room_ttl_mins") {
            match parse_unsigned(v, u64::MAX) { Some(n) => { self.room_ttl_mins = n; }, None => {} }
        } else if eq_lit(k, "server_name") {
            self.server_name = string_of(v);
        } else if eq_lit(k, "motd") {
            self.motd = string_of(v);
        } else if eq_lit(k, "public_host") {
            self.public_host = string_of(v);
        }
    }

    /// Applies the settings of a settings file's text, line by line.
    pub fn apply_toml(&mut self, content: &str)
        ensures final(self)@ == toml_lines_spec(old(self)@, lines_spec(content@)),
    {
        let chars = chars_of(content);
        let ls = lines(&chars);
        let ghost all = ls.deep_view();
        let ghost c0 = self@;
        let mut i: usize = 0;
        assert(all.take(0) =~= Seq::<Seq<char>>::empty());
        while i < ls.len()
            invariant
                i <= ls@.len(), all == ls.deep_view(), all.len() == ls@.len(),
                self@ == toml_lines_spec(c0, all.take(i as int)),
            decreases ls@.len() - i,
        {
            let ghost pre = all.take(i as int);
            assert(all.take(i + 1).drop_last() =~= pre);
            assert(ls@[i as int]@ == all[i as int]);
            let t = trim(&ls[i]);
            if !(t.len() == 0 || t[0] == '#') {
                let e = find_char(&t, '=');
                let k = strip_both(&trim(&slice(&t, 0, e)), '"');
                let v = if e < t.len() { strip_both(&trim(&slice(&t, e + 1, t.len())), '"') } else { Vec::new() };
                assert(t@.subrange(0, e as int) =~= t@.take(e as int));
                if e < t.len() {
                    assert(t@.subrange(e + 1, t@.len() as int) =~= t@.skip(e + 1));
                } else {
                    assert(v@ =~= Seq::<char>::empty());
                }
                self.apply_chars(&k, &v);
            }
            i += 1;
        }
        assert(all.take(ls@.len() as int) =~= all);
    }

    /// The host to put in invite links: the public host when set, else the listening host
    /// unless it listens on every interface, else the LAN address `lan_ip` found by the
    /// caller, else `localhost`.
    pub fn link_host(&self, lan_ip: Option<String>) -> (r: String)
        ensures
            r@ == (if self.public_host@.len() > 0 {
                self.public_host@
            } else if self.host@ != "0.0.0.0"@ && self.host@ != "::"@ {
                self.host@
            } else {
                match lan_ip { Some(ip) => ip@, None => "localhost"@ }
            }),
    {
        let ph = chars_of(self.public_host.as_str());
        if ph.len() > 0 {
            return string_of(&ph);
        }
        let h = chars_of(self.host.as_str());
        if !eq_lit(&h, "0.0.0.0") && !eq_lit(&h, "::") {
            return string_of(&h);
        }
        match lan_ip {
            Some(ip) => ip,
            None => owned("localhost"),
        }
    }
}

} // verus!

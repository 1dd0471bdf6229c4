//! Saved networks and settings (the values; reading and writing the settings
//! file is done by the application).

use vstd::prelude::*;
use crate::text::to_owned_string;

verus! {

/// Default server address.
pub const DEFAULT_SERVER: &'static str = "irc.slirc.net:6667";

/// Default channel to join.
pub const DEFAULT_CHANNEL: &'static str = "#straylight";

/// The views of a sequence of strings.
pub open spec fn strings_view(v: Seq<String>) -> Seq<Seq<char>> {
    v.map_values(|s: String| s@)
}

/// A saved IRC network with connection settings.
#[derive(Debug)]
pub struct Network {
    pub name: String,
    /// e.g. ["irc.libera.chat:6667", "irc.libera.chat:6697"]
    pub servers: Vec<String>,
    pub nick: String,
    pub auto_connect: bool,
    /// Auto-join channels
    pub favorite_channels: Vec<String>,
    pub nickserv_password: Option<String>,
    pub use_tls: bool,
    pub auto_reconnect: bool,
}

/// A network as plain values.
pub struct NetworkView {
    pub name: Seq<char>,
    pub servers: Seq<Seq<char>>,
    pub nick: Seq<char>,
    pub auto_connect: bool,
    pub favorite_channels: Seq<Seq<char>>,
    pub nickserv_password: Option<Seq<char>>,
    pub use_tls: bool,
    pub auto_reconnect: bool,
}

/// The view of an optional string.
pub open spec fn opt_string_view(o: Option<String>) -> Option<Seq<char>> {
    match o {
        Some(s) => Some(s@),
        None => None,
    }
}

impl View for Network {
    type V = NetworkView;

    open spec fn view(&self) -> NetworkView {
        NetworkView {
            name: self.name@,
            servers: strings_view(self.servers@),
            nick: self.nick@,
            auto_connect: self.auto_connect,
            favorite_channels: strings_view(self.favorite_channels@),
            nickserv_password: opt_string_view(self.nickserv_password),
            use_tls: self.use_tls,
            auto_reconnect: self.auto_reconnect,
        }
    }
}

/// The views of a sequence of networks.
pub open spec fn networks_view(v: Seq<Network>) -> Seq<NetworkView> {
    v.map_values(|n: Network| n@)
}

/// Copies a vector of strings.
pub fn clone_strings(v: &Vec<String>) -> (r: Vec<String>)
    ensures
        strings_view(r@) == strings_view(v@),
{
    let mut r: Vec<String> = Vec::new();
    let mut i: usize = 0;
    while i < v.len()
        invariant
            i <= v@.len(),
            strings_view(r@) == strings_view(v@).take(i as int),
        decreases v@.len() - i,
    {
        let c = v[i].clone();
        assert(c@ == v@[i as int]@);
        let ghost before = r@;
        r.push(c);
        assert(strings_view(r@) =~= strings_view(before).push(c@));
        assert(strings_view(v@).take(i + 1) =~= strings_view(v@).take(i as int).push(v@[i as int]@));
        i += 1;
    }
    assert(strings_view(v@).take(v@.len() as int) =~= strings_view(v@));
    r
}

impl Clone for Network {
    fn clone(&self) -> (r: Self)
        ensures
            r@ == self@,
    {
        Network {
            name: self.name.clone(),
            servers: clone_strings(&self.servers),
            nick: self.nick.clone(),
            auto_connect: self.auto_connect,
            favorite_channels: clone_strings(&self.favorite_channels),
            nickserv_password: match &self.nickserv_password {
                Some(p) => Some(p.clone()),
                None => None,
            },
            use_tls: self.use_tls,
            auto_reconnect: self.auto_reconnect,
        }
    }
}

impl Default for Network {
    fn default() -> (r: Self)
        ensures
            r@ == (NetworkView {
                name: "Default"@,
                servers: seq![DEFAULT_SERVER@],
                nick: "slirc_user"@,
                auto_connect: false,
                favorite_channels: Seq::empty(),
                nickserv_password: None,
                use_tls: false,
                auto_reconnect: true,
            }),
    {
        let mut servers: Vec<String> = Vec::new();
        servers.push(to_owned_string(DEFAULT_SERVER));
        let r = Network {
            name: to_owned_string("Default"),
            servers,
            nick: to_owned_string("slirc_user"),
            auto_connect: false,
            favorite_channels: Vec::new(),
            nickserv_password: None,
            use_tls: false,
            auto_reconnect: true,
        };
        assert(r@.servers =~= seq![DEFAULT_SERVER@]);
        assert(r@.favorite_channels =~= Seq::<Seq<char>>::empty());
        r
    }
}

/// Persisted client settings.
#[derive(Debug)]
pub struct Settings {
    pub server: String,
    pub nick: String,
    pub default_channel: String,
    pub history: Vec<String>,
    pub theme: String,
    pub networks: Vec<Network>,
}

impl Default for Settings {
    fn default() -> (r: Self)
        ensures
            r.server@.len() == 0,
            r.nick@.len() == 0,
            r.default_channel@.len() == 0,
            r.history@.len() == 0,
            r.theme@.len() == 0,
            r.networks@.len() == 0,
    {
        Settings {
            server: String::new(),
            nick: String::new(),
            default_channel: String::new(),
            history: Vec::new(),
            theme: String::new(),
            networks: Vec::new(),
        }
    }
}

} // verus!

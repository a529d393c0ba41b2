//! The two settings that persist between runs: where the bridge is, and the
//! name under which the bridge knows this panel.

use vstd::prelude::*;

verus! {

/// The network address of a bridge, as its bytes in network order.
#[derive(Clone, Copy, Debug, PartialEq, Eq)]
pub enum BridgeAddress {
    V4([u8; 4]),
    V6([u8; 16]),
}

/// The settings.
#[derive(Debug, PartialEq, Eq)]
pub struct Config {
    pub bridge_ip: Option<BridgeAddress>,
    pub username: Option<String>,
}

/// The mathematical value of a [`Config`].
pub struct ConfigView {
    pub bridge_ip: Option<BridgeAddress>,
    pub username: Option<Seq<char>>,
}

/// What it takes to talk to a bridge.
#[derive(Debug, PartialEq, Eq)]
pub struct Bridge {
    pub address: BridgeAddress,
    pub username: String,
}

/// The mathematical value of a [`Bridge`].
pub struct BridgeView {
    pub address: BridgeAddress,
    pub username: Seq<char>,
}

/// An optional text as an optional sequence of characters.
pub open spec fn optional_text(text: Option<String>) -> Option<Seq<char>> {
    match text {
        Some(t) => Some(t@),
        None => None,
    }
}

impl View for Config {
    type V = ConfigView;

    open spec fn view(&self) -> ConfigView {
        ConfigView { bridge_ip: self.bridge_ip, username: optional_text(self.username) }
    }
}

impl View for Bridge {
    type V = BridgeView;

    open spec fn view(&self) -> BridgeView {
        BridgeView { address: self.address, username: self.username@ }
    }
}

/// The bridge that the settings name: there is one where both the address
/// and the user name are set.
pub open spec fn bridge_of(config: ConfigView) -> Option<BridgeView> {
    if config.bridge_ip is Some && config.username is Some {
        Some(BridgeView { address: config.bridge_ip->Some_0, username: config.username->Some_0 })
    } else {
        None
    }
}

impl Default for Config {
    fn default() -> (config: Config)
        ensures
            config@ == (ConfigView { bridge_ip: None, username: None }),
    {
        Config { bridge_ip: None, username: None }
    }
}

impl Config {
    /// The address of the bridge, if one is set.
    pub fn get_bridge_ip(&self) -> (address: Option<&BridgeAddress>)
        ensures
            match address {
                Some(a) => self.bridge_ip == Some(*a),
                None => self.bridge_ip is None,
            },
    {
        match &self.bridge_ip {
            Some(a) => Some(a),
            None => None,
        }
    }

    /// The user name, if one is set.
    pub fn get_username(&self) -> (username: Option<&str>)
        ensures
            match username {
                Some(u) => self@.username == Some(u@),
                None => self@.username is None,
            },
    {
        match &self.username {
            Some(u) => Some(u.as_str()),
            None => None,
        }
    }

    /// Sets or clears the address of the bridge.
    pub fn set_bridge_ip(&mut self, address: Option<BridgeAddress>)
        ensures
            final(self)@ == (ConfigView { bridge_ip: address, ..old(self)@ }),
    {
        self.bridge_ip = address;
    }

    /// Sets or clears the user name.
    pub fn set_username(&mut self, username: Option<String>)
        ensures
            final(self)@ == (ConfigView { username: optional_text(username), ..old(self)@ }),
    {
        self.username = username;
    }
}

/// The bridge that the settings name. Without it nothing is sent.
pub fn get_bridge(config: &Config) -> (bridge: Option<Bridge>)
    ensures
        match bridge {
            Some(b) => bridge_of(config@) == Some(b@),
            None => bridge_of(config@) is None,
        },
{
    let address = match config.get_bridge_ip() {
        Some(a) => *a,
        None => {
            return None;
        },
    };
    let username = match &config.username {
        Some(u) => u.clone(),
        None => {
            return None;
        },
    };
    Some(Bridge { address, username })
}

} // verus!

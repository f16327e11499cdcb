//! What a connection to a namenode is made with, as the configuration and
//! the caller's wishes give it.

use crate::hdfs::config;
use crate::hdfs::config::Config;
use crate::hdfs::err::Error;
use crate::text;
use crate::text::split_text;
use vstd::prelude::*;

verus! {

/// The settings of one connection.
pub struct Connection {
    /// The namenode to connect to.
    pub namenode: String,
    /// The namenode's port, where the configuration gives one.
    pub port: Option<u16>,
    /// The properties to hand to the client, each key once.
    pub settings: Vec<(String, String)>,
    /// The user to act as, where the caller names one.
    pub effective_user: Option<String>,
}

/// The text of an optional string slice.
pub open spec fn slice_text(s: Option<&str>) -> Option<Seq<char>> {
    match s {
        Some(s) => Some(s@),
        None => None,
    }
}

/// The namenode of a connection: the host that the caller asks for, else
/// the host of the configuration.
pub open spec fn namenode_of(m: Map<Seq<char>, Seq<char>>, host: Option<Seq<char>>) -> Option<
    Seq<char>,
> {
    match host {
        Some(h) => Some(h),
        None => if m.contains_key(config::host_key()) {
            Some(m[config::host_key()])
        } else {
            None
        },
    }
}

/// The port of a connection: the port of the configuration, if it is a
/// 16-bit number.
pub open spec fn port_of(m: Map<Seq<char>, Seq<char>>) -> Option<u16> {
    if m.contains_key(config::port_key()) {
        text::parse_u16(m[config::port_key()])
    } else {
        None
    }
}

/// What the message of a missing host says.
pub open spec fn missing_host_text() -> Seq<char> {
    "host config missing"@
}

/// The settings of a connection for `config`, to the namenode `host` if the
/// caller names one. Fails with `Error::MissingConfig` exactly when neither
/// the caller nor the configuration names a host.
pub fn plan_connection(config: &Config, host: Option<&str>, effective_user: Option<&str>) -> (r:
    Result<Connection, Error>)
    requires
        config.wf(),
    ensures
        namenode_of(config.config_map(), slice_text(host)) is None ==> (r matches Err(
            Error::MissingConfig(msg),
        ) && msg@ == missing_host_text()),
        namenode_of(config.config_map(), slice_text(host)) matches Some(n) ==> (r matches Ok(c)
            && c.namenode@ == n && c.port == port_of(config.config_map())
            && config::distinct_keys(c.settings@) && config::pairs_map(c.settings@)
            == config.config_map() && config::texts_of((c.effective_user, None)).0 == slice_text(
            effective_user,
        )),
{
    let namenode = match host {
        Some(h) => h.to_owned(),
        None => match config.get_string("host") {
            Some(h) => h.to_owned(),
            None => {
                return Err(Error::MissingConfig("host config missing".to_owned()));
            },
        },
    };
    let port = config.get("port");
    let settings = config.get_all_key_values();
    let effective_user = match effective_user {
        Some(u) => Some(u.to_owned()),
        None => None,
    };
    Ok(Connection { namenode, port, settings, effective_user })
}

/// The gateways that `config` names: the nameservices, which a comma parts.
/// None where the configuration names no nameservices.
pub fn list_gateway(config: &Config) -> (r: Vec<String>)
    requires
        config.wf(),
    ensures
        config.config_map().contains_key(config::nameservices_key()) ==> text::texts(r@)
            == text::split(config.config_map()[config::nameservices_key()], ','),
        !config.config_map().contains_key(config::nameservices_key()) ==> r@.len() == 0,
{
    match config.get_string("dfs.nameservices") {
        Some(gateways) => split_text(gateways, ','),
        None => Vec::new(),
    }
}

} // verus!

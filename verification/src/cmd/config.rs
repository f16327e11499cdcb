//! The home configuration file as values, and the rules by which the
//! command line picks its settings.

use vstd::prelude::*;

verus! {

/// What the home configuration file holds.
#[derive(Clone, Debug)]
pub struct Config {
    pub hadoop: Option<Hadoop>,
    pub gateway: Option<Gateway>,
}

/// Where the Hadoop configuration lies.
#[derive(Clone, Debug)]
pub struct Hadoop {
    pub config_path: Option<String>,
}

/// The gateway to use when none is asked for.
#[derive(Clone, Debug)]
pub struct Gateway {
    pub default: Option<String>,
}

impl Default for Config {
    fn default() -> (c: Config)
        ensures
            c.hadoop is None,
            c.gateway is None,
    {
        Config { hadoop: None, gateway: None }
    }
}

impl Default for Hadoop {
    fn default() -> (h: Hadoop)
        ensures
            h.config_path is None,
    {
        Hadoop { config_path: None }
    }
}

impl Default for Gateway {
    fn default() -> (g: Gateway)
        ensures
            g.default is None,
    {
        Gateway { default: None }
    }
}

/// The text of an optional string.
pub open spec fn text_of(s: Option<String>) -> Option<Seq<char>> {
    match s {
        Some(s) => Some(s@),
        None => None,
    }
}

/// The configuration path that the home configuration names.
pub open spec fn home_config_path(home: Option<Config>) -> Option<Seq<char>> {
    match home {
        Some(Config { hadoop: Some(Hadoop { config_path: Some(p) }), .. }) => Some(p@),
        _ => None,
    }
}

/// The default gateway that the home configuration names.
pub open spec fn home_gateway(home: Option<Config>) -> Option<Seq<char>> {
    match home {
        Some(Config { gateway: Some(Gateway { default: Some(g) }), .. }) => Some(g@),
        _ => None,
    }
}

/// The first of three sources that gives a setting.
pub open spec fn first_of(
    a: Option<Seq<char>>,
    b: Option<Seq<char>>,
    c: Option<Seq<char>>,
) -> Option<Seq<char>> {
    if a is Some {
        a
    } else if b is Some {
        b
    } else {
        c
    }
}

/// The Hadoop configuration path to use: the one given on the command line,
/// else the one of the home configuration, else the one of the environment.
pub fn resolve_config_path(
    flag: Option<String>,
    home: &Option<Config>,
    environment: Option<String>,
) -> (r: Option<String>)
    ensures
        text_of(r) == first_of(text_of(flag), home_config_path(*home), text_of(environment)),
{
    if flag.is_some() {
        return flag;
    }
    if let Some(config) = home {
        if let Some(hadoop) = &config.hadoop {
            if let Some(path) = &hadoop.config_path {
                return Some(path.clone());
            }
        }
    }
    environment
}

/// The gateway to use: the one given on the command line, else the default
/// of the home configuration, else the one of the environment.
pub fn resolve_gateway(
    flag: Option<String>,
    home: &Option<Config>,
    environment: Option<String>,
) -> (r: Option<String>)
    ensures
        text_of(r) == first_of(text_of(flag), home_gateway(*home), text_of(environment)),
{
    if flag.is_some() {
        return flag;
    }
    if let Some(config) = home {
        if let Some(gateway) = &config.gateway {
            if let Some(name) = &gateway.default {
                return Some(name.clone());
            }
        }
    }
    environment
}

/// Whether `name` is one of `names`.
pub fn contains_name(names: &Vec<String>, name: &str) -> (r: bool)
    ensures
        r == exists|i: int| 0 <= i < names@.len() && (#[trigger] names@[i])@ == name@,
{
    let wanted = name.to_owned();
    let mut i: usize = 0;
    while i < names.len()
        invariant
            i <= names.len(),
            wanted@ == name@,
            forall|j: int| 0 <= j < i ==> (#[trigger] names@[j])@ != name@,
        decreases names.len() - i,
    {
        if names[i] == wanted {
            return true;
        }
        i += 1;
    }
    false
}

/// The home configuration after a switch to the gateway `name`: as it was,
/// with `name` as the default gateway. `None`, and nothing to write, where
/// `name` is not one of the gateways that the Hadoop configuration names.
pub fn switch_gateway(home: Option<Config>, gateways: &Vec<String>, name: &str) -> (r: Option<
    Config,
>)
    ensures
        r is Some <==> exists|i: int| 0 <= i < gateways@.len() && (#[trigger] gateways@[i])@ == name@,
        r matches Some(c) ==> home_gateway(Some(c)) == Some(name@) && c.hadoop == (match home {
            Some(h) => h.hadoop,
            None => None,
        }),
{
    if !contains_name(gateways, name) {
        return None;
    }
    let hadoop = match home {
        Some(config) => config.hadoop,
        None => None,
    };
    Some(Config { hadoop, gateway: Some(Gateway { default: Some(name.to_owned()) }) })
}

} // verus!

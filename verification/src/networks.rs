//! Provisioning of named networks on the target host: the creation command
//! for one declared network, character for character.

use vstd::prelude::*;

use vstd::string::StringExecFns;

use crate::command::{append_each, append_flag, flag_part, list_part};
use crate::config::opt_text;

verus! {

/// One declared network: its section key, an optional explicit name that
/// replaces the key, an optional driver, and the declared subnets.
pub struct NetworkConfig {
    pub name: String,
    pub explicit_name: Option<String>,
    pub driver: Option<String>,
    pub subnets: Vec<String>,
}

/// The name the network is created under: the explicit name when declared,
/// else the section key.
pub open spec fn network_name_text(c: NetworkConfig) -> Seq<char> {
    match c.explicit_name {
        Some(n) => n@,
        None => c.name@,
    }
}

/// The creation command of one network: the name, the driver when declared,
/// and one subnet flag per declared subnet.
pub open spec fn network_create_text(c: NetworkConfig) -> Seq<char> {
    "docker network create "@ + network_name_text(c) + flag_part(
        " --driver "@,
        opt_text(c.driver),
    ) + list_part(" --subnet "@, c.subnets.deep_view())
}

/// Build the creation command for one declared network.
pub fn network_create_command(c: &NetworkConfig) -> (r: String)
    ensures
        r@ =~= network_create_text(*c),
{
    let mut cmd: String = "docker network create ".to_owned();
    match &c.explicit_name {
        Some(n) => cmd.append(n.as_str()),
        None => cmd.append(c.name.as_str()),
    }
    append_flag(&mut cmd, " --driver ", &c.driver);
    append_each(&mut cmd, " --subnet ", &c.subnets);
    cmd
}

} // verus!

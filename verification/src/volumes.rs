//! Provisioning of named volumes on the target host: the creation command
//! for one declared volume, character for character.

use vstd::prelude::*;

use vstd::string::StringExecFns;

use crate::command::{append_flag, flag_part};
use crate::config::opt_text;

verus! {

/// One driver option of a declared volume.
pub struct VolumeOpt {
    pub key: String,
    pub value: String,
}

/// One declared volume: its name, an optional driver, and the declared
/// driver options.
pub struct VolumeConfig {
    pub name: String,
    pub driver: Option<String>,
    pub driver_opts: Vec<VolumeOpt>,
}

/// The text of one driver option flag.
pub open spec fn volume_opt_text(key: Seq<char>, value: Seq<char>) -> Seq<char> {
    " --opt "@ + key + "="@ + value
}

/// The texts of all driver option flags, in declaration order.
pub open spec fn volume_opts_text(opts: Seq<VolumeOpt>) -> Seq<char>
    decreases opts.len(),
{
    if opts.len() == 0 {
        Seq::empty()
    } else {
        volume_opts_text(opts.drop_last()) + volume_opt_text(
            opts.last().key@,
            opts.last().value@,
        )
    }
}

/// The creation command of one volume: the name, the driver when declared,
/// and one option flag per declared driver option.
pub open spec fn volume_create_text(c: VolumeConfig) -> Seq<char> {
    "docker volume create "@ + c.name@ + flag_part(" --driver "@, opt_text(c.driver))
        + volume_opts_text(c.driver_opts@)
}

/// Build the creation command for one declared volume.
pub fn volume_create_command(c: &VolumeConfig) -> (r: String)
    ensures
        r@ =~= volume_create_text(*c),
{
    let mut cmd: String = "docker volume create ".to_owned();
    cmd.append(c.name.as_str());
    append_flag(&mut cmd, " --driver ", &c.driver);
    let ghost base = cmd@;
    let mut k: usize = 0;
    while k < c.driver_opts.len()
        invariant
            0 <= k <= c.driver_opts.len(),
            cmd@ =~= base + volume_opts_text(c.driver_opts@.take(k as int)),
        decreases c.driver_opts.len() - k,
    {
        let ghost sofar = c.driver_opts@.take(k as int);
        let ghost next = c.driver_opts@.take(k as int + 1);
        let opt = &c.driver_opts[k];
        cmd.append(" --opt ");
        cmd.append(opt.key.as_str());
        cmd.append("=");
        cmd.append(opt.value.as_str());
        proof {
            assert(next.drop_last() =~= sofar);
            assert(next.last() == c.driver_opts@[k as int]);
            assert(cmd@ =~= base + volume_opts_text(next));
        }
        k += 1;
    }
    proof {
        assert(c.driver_opts@.take(c.driver_opts@.len() as int) =~= c.driver_opts@);
    }
    cmd
}

} // verus!

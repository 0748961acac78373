//! Settings that depend on how the bot was started.

use crate::text::str_equal;
use vstd::prelude::*;

verus! {

/// The argument that starts the bot in development mode.
pub const DEV_FLAG: &'static str = "--dev";

/// The name of the variable that holds the token in development mode.
pub const TOKEN_ENV_DEV: &'static str = "MINTYBOT_DISCORD_TOKEN_DEV";

/// The name of the variable that holds the token otherwise.
pub const TOKEN_ENV: &'static str = "MINTYBOT_DISCORD_TOKEN";

/// Whether one of `args` is the development flag.
pub open spec fn has_dev_flag(args: Seq<String>) -> bool {
    exists|i: int| 0 <= i < args.len() && (#[trigger] args[i])@ == DEV_FLAG@
}

/// Whether the bot runs in development mode: one of its arguments is the
/// development flag.
pub fn is_dev_mode(args: &Vec<String>) -> (r: bool)
    ensures
        r == has_dev_flag(args@),
{
    let mut i: usize = 0;
    while i < args.len()
        invariant
            0 <= i <= args.len(),
            forall|j: int| 0 <= j < i ==> (#[trigger] args@[j])@ != DEV_FLAG@,
        decreases args.len() - i,
    {
        if str_equal(args[i].as_str(), DEV_FLAG) {
            return true;
        }
        i = i + 1;
    }
    false
}

/// The name of the variable that holds the chat platform's token.
pub fn get_discord_token_env_name(dev_mode: bool) -> (r: String)
    ensures
        r@ == if dev_mode {
            TOKEN_ENV_DEV@
        } else {
            TOKEN_ENV@
        },
{
    if dev_mode {
        TOKEN_ENV_DEV.to_owned()
    } else {
        TOKEN_ENV.to_owned()
    }
}

} // verus!

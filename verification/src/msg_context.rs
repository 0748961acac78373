//! Where a message came from, as plain values.

use vstd::prelude::*;

verus! {

/// The channel, guild and author of a message.
#[derive(Debug)]
pub struct MsgContextInfo {
    pub channel_id: u64,
    pub channel_name: Option<String>,
    pub guild_id: Option<u64>,
    pub guild_name: Option<String>,
    pub author_id: u64,
    /// The author's display name, where one is set.
    pub author_global_name: Option<String>,
    /// The author's user name.
    pub author_name: String,
}

impl Clone for MsgContextInfo {
    fn clone(&self) -> (r: Self)
        ensures
            r == *self,
    {
        MsgContextInfo {
            channel_id: self.channel_id,
            channel_name: match &self.channel_name {
                Some(s) => Some(s.clone()),
                None => None,
            },
            guild_id: self.guild_id,
            guild_name: match &self.guild_name {
                Some(s) => Some(s.clone()),
                None => None,
            },
            author_id: self.author_id,
            author_global_name: match &self.author_global_name {
                Some(s) => Some(s.clone()),
                None => None,
            },
            author_name: self.author_name.clone(),
        }
    }
}

} // verus!

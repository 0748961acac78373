//! What is decided about an inbound message before it reaches the
//! interpreter or the model: whether it is meant for the bot, what it says
//! once the mentions are taken out, and by which name its author goes.

use crate::text::{
    decimal, push_decimal, remove_all, remove_all_chars, str_equal, string_of_range, to_chars,
    trim, trim_bounds,
};
use vstd::prelude::*;

verus! {

/// A role of a guild: its identifier and its name.
#[derive(Debug)]
pub struct RoleInfo {
    pub id: u64,
    pub name: String,
}

/// The mathematical value of a role.
pub struct RoleModel {
    pub id: u64,
    pub name: Seq<char>,
}

impl Clone for RoleInfo {
    fn clone(&self) -> (r: Self)
        ensures
            r@ == self@,
    {
        RoleInfo { id: self.id, name: self.name.clone() }
    }
}

impl View for RoleInfo {
    type V = RoleModel;

    open spec fn view(&self) -> RoleModel {
        RoleModel { id: self.id, name: self.name@ }
    }
}

/// The values of a sequence of roles.
pub open spec fn roles_of(roles: Seq<RoleInfo>) -> Seq<RoleModel> {
    Seq::new(roles.len(), |i: int| roles[i]@)
}

/// How a user is mentioned in message content.
pub open spec fn user_mention(id: u64) -> Seq<char> {
    "<@"@ + decimal(id as nat) + ">"@
}

/// How a user is mentioned by nickname in message content.
pub open spec fn nick_mention(id: u64) -> Seq<char> {
    "<@!"@ + decimal(id as nat) + ">"@
}

/// How a role is mentioned in message content.
pub open spec fn role_mention(id: u64) -> Seq<char> {
    "<@&"@ + decimal(id as nat) + ">"@
}

/// `s` with the mentions of the first `n` roles of `roles` taken out, one
/// role after the other.
pub open spec fn without_role_mentions(s: Seq<char>, roles: Seq<u64>, n: nat) -> Seq<char>
    decreases n,
{
    if n == 0 {
        s
    } else {
        remove_all(without_role_mentions(s, roles, (n - 1) as nat), role_mention(roles[n - 1]))
    }
}

/// What a message says to the bot: its content without the mentions of the
/// bot, by name and by nickname, and without the mentions of the listed
/// roles, trimmed.
pub open spec fn cleaned_content(content: Seq<char>, user_id: u64, roles: Seq<u64>) -> Seq<char> {
    trim(
        without_role_mentions(
            remove_all(remove_all(content, user_mention(user_id)), nick_mention(user_id)),
            roles,
            roles.len(),
        ),
    )
}

/// The identifier of the first role of `roles` whose name is `name`.
pub open spec fn first_role_named(roles: Seq<RoleModel>, name: Seq<char>) -> Option<u64>
    decreases roles.len(),
{
    if roles.len() == 0 {
        None
    } else if roles[0].name == name {
        Some(roles[0].id)
    } else {
        first_role_named(roles.drop_first(), name)
    }
}

/// Whether a message mentions the bot through a role: the first of the
/// bot's roles that bears the bot's name is among the mentioned roles.
pub open spec fn mentions_role(
    roles: Seq<RoleModel>,
    user_name: Seq<char>,
    mention_roles: Seq<u64>,
) -> bool {
    match first_role_named(roles, user_name) {
        Some(id) => mention_roles.contains(id),
        None => false,
    }
}

/// The first of nickname, display name and user name that is there.
pub open spec fn best_name(
    nick: Option<Seq<char>>,
    display_name: Option<Seq<char>>,
    user_name: Seq<char>,
) -> Seq<char> {
    match nick {
        Some(n) => n,
        None => match display_name {
            Some(d) => d,
            None => user_name,
        },
    }
}

/// The value of an optional string.
pub open spec fn name_of(s: Option<String>) -> Option<Seq<char>> {
    match s {
        Some(s) => Some(s@),
        None => None,
    }
}

/// The text of a mention: `open`, the identifier in decimal, `>`.
fn mention_text(open: &str, id: u64) -> (r: Vec<char>)
    ensures
        r@ == open@ + decimal(id as nat) + ">"@,
{
    let mut s = open.to_owned();
    push_decimal(&mut s, id);
    s.append(">");
    to_chars(s.as_str())
}

/// Whether `ids` holds `id`.
pub fn contains_id(ids: &Vec<u64>, id: u64) -> (r: bool)
    ensures
        r == ids@.contains(id),
{
    let mut i: usize = 0;
    while i < ids.len()
        invariant
            0 <= i <= ids.len(),
            forall|j: int| 0 <= j < i ==> ids@[j] != id,
        decreases ids.len() - i,
    {
        if ids[i] == id {
            return true;
        }
        i = i + 1;
    }
    false
}

/// What a message says to the bot, once the mentions are taken out.
pub fn clean_message_content(content: &str, user_id: u64, mention_roles: &Vec<u64>) -> (r: String)
    ensures
        r@ == cleaned_content(content@, user_id, mention_roles@),
{
    let mut text = to_chars(content);
    text = remove_all_chars(&text, &mention_text("<@", user_id));
    text = remove_all_chars(&text, &mention_text("<@!", user_id));
    let ghost base = text@;
    let mut i: usize = 0;
    while i < mention_roles.len()
        invariant
            0 <= i <= mention_roles.len(),
            text@ == without_role_mentions(base, mention_roles@, i as nat),
        decreases mention_roles.len() - i,
    {
        text = remove_all_chars(&text, &mention_text("<@&", mention_roles[i]));
        i = i + 1;
    }
    let (a, b) = trim_bounds(&text, 0, text.len());
    assert(text@.subrange(0, text.len() as int) == text@);
    string_of_range(&text, a, b)
}

/// The roles of `all_roles` that a member has, in the order of `all_roles`.
pub fn member_roles(all_roles: &Vec<RoleInfo>, member_role_ids: &Vec<u64>) -> (r: Vec<RoleInfo>)
    ensures
        roles_of(r@) == roles_of(all_roles@).filter(
            |role: RoleModel| member_role_ids@.contains(role.id),
        ),
{
    let ghost keep = |role: RoleModel| member_role_ids@.contains(role.id);
    let ghost all = roles_of(all_roles@);
    let mut kept: Vec<RoleInfo> = Vec::new();
    let mut i: usize = 0;
    proof {
        reveal(Seq::filter);
        assert(all.take(0) =~= Seq::<RoleModel>::empty());
        assert(roles_of(kept@) =~= Seq::<RoleModel>::empty());
    }
    while i < all_roles.len()
        invariant
            0 <= i <= all_roles.len(),
            all == roles_of(all_roles@),
            keep == |role: RoleModel| member_role_ids@.contains(role.id),
            roles_of(kept@) == all.take(i as int).filter(keep),
        decreases all_roles.len() - i,
    {
        let ghost before = roles_of(kept@);
        proof {
            reveal(Seq::filter);
            assert(all.take(i + 1).drop_last() =~= all.take(i as int));
            assert(all.take(i + 1).last() == all[i as int]);
        }
        if contains_id(member_role_ids, all_roles[i].id) {
            kept.push(all_roles[i].clone());
            assert(roles_of(kept@) =~= before.push(all[i as int]));
        }
        i = i + 1;
    }
    assert(all.take(i as int) =~= all);
    kept
}

/// Whether a message mentions the bot through one of the bot's roles.
pub fn role_mentioned(roles: &Vec<RoleInfo>, user_name: &str, mention_roles: &Vec<u64>) -> (r: bool)
    ensures
        r == mentions_role(roles_of(roles@), user_name@, mention_roles@),
{
    let ghost all = roles_of(roles@);
    let mut i: usize = 0;
    assert(all.skip(0) =~= all);
    while i < roles.len()
        invariant
            0 <= i <= roles.len(),
            all == roles_of(roles@),
            first_role_named(all, user_name@) == first_role_named(all.skip(i as int), user_name@),
        decreases roles.len() - i,
    {
        proof {
            assert(all.skip(i as int)[0] == all[i as int]);
            assert(all.skip(i as int).drop_first() =~= all.skip(i + 1));
        }
        if str_equal(roles[i].name.as_str(), user_name) {
            return contains_id(mention_roles, roles[i].id);
        }
        i = i + 1;
    }
    assert(all.skip(i as int).len() == 0);
    false
}

/// Whether a message is meant for the bot: it mentions the bot itself or
/// one of its roles.
pub fn check_mentioned(regular_mentioned: bool, role_mentioned: bool) -> (r: bool)
    ensures
        r == (regular_mentioned || role_mentioned),
{
    regular_mentioned || role_mentioned
}

/// Whether the bot answers a message: its author is no bot, and it is
/// meant for the bot.
pub fn should_respond(author_is_bot: bool, is_mentioned: bool) -> (r: bool)
    ensures
        r == (!author_is_bot && is_mentioned),
{
    !author_is_bot && is_mentioned
}

/// The name by which an author goes: the nickname, else the display name,
/// else the user name.
pub fn get_best_name_of_author(
    nick: Option<String>,
    display_name: Option<String>,
    user_name: String,
) -> (r: String)
    ensures
        r@ == best_name(name_of(nick), name_of(display_name), user_name@),
{
    match nick {
        Some(n) => n,
        None => match display_name {
            Some(d) => d,
            None => user_name,
        },
    }
}

} // verus!

//! The conversation store: per-channel histories of bounded length, the
//! personality bound to each channel, and the global settings.

use crate::conversation::{turns_of, ChatMessage, Part, Role, Turn};
use crate::personality::{system_prompt, BotPersonality, Persona};
use std::collections::HashMap;
use std::collections::VecDeque;
use vstd::prelude::*;
use vstd::std_specs::hash::{group_hash_axioms, spec_keys_iter};
use vstd::std_specs::iter::IteratorSpec;

verus! {

/// The model used until another one is chosen.
pub const DEFAULT_MODEL: &'static str = "gpt-5";

/// The most turns a channel's history holds.
pub const MAX_HISTORY_COUNT: usize = 300;

/// The version of the state layout that this library reads and writes.
pub const CURRENT_STATE_VERSION: u32 = 2;

/// What is stored for one channel.
#[derive(Debug)]
pub struct ChannelConversation {
    /// The turns of the channel, oldest first.
    pub history: VecDeque<ChatMessage>,
    /// The personality bound to the channel, if one is.
    pub personality: Option<BotPersonality>,
}

/// The whole state of the bot.
#[derive(Debug)]
pub struct BotState {
    /// The language model in use.
    pub current_model: String,
    /// The stored conversations, by channel.
    pub conversations: HashMap<u64, ChannelConversation>,
    /// The version of the layout that this state was written in.
    pub version: u32,
    /// The personality of channels that have none bound.
    pub default_personality: BotPersonality,
}

/// The mathematical value of what is stored for one channel.
pub struct Conversation {
    pub history: Seq<Turn>,
    pub personality: Option<Persona>,
}

/// The mathematical value of the bot's state.
pub struct State {
    pub current_model: Seq<char>,
    pub conversations: Map<u64, Conversation>,
    pub version: u32,
    pub default_personality: Persona,
}

/// The value of an optional personality.
pub open spec fn persona_of(p: Option<BotPersonality>) -> Option<Persona> {
    match p {
        Some(p) => Some(p@),
        None => None,
    }
}

impl View for ChannelConversation {
    type V = Conversation;

    open spec fn view(&self) -> Conversation {
        Conversation { history: turns_of(self.history@), personality: persona_of(self.personality) }
    }
}

impl View for BotState {
    type V = State;

    open spec fn view(&self) -> State {
        State {
            current_model: self.current_model@,
            conversations: Map::new(
                |k: u64| self.conversations@.contains_key(k),
                |k: u64| self.conversations@[k]@,
            ),
            version: self.version,
            default_personality: self.default_personality@,
        }
    }
}

/// The last `cap` elements of `s`, or all of `s` where it has no more.
pub open spec fn keep_last(s: Seq<Turn>, cap: nat) -> Seq<Turn> {
    if s.len() > cap {
        s.skip(s.len() - cap)
    } else {
        s
    }
}

/// The turn that carries a personality's system prompt into a transcript.
pub open spec fn system_turn(p: Persona) -> Turn {
    Turn { role: Role::Developer, content: seq![Part::InputText(system_prompt(p))] }
}

/// The sum of the history lengths of all conversations in `m`.
pub open spec fn sum_histories(m: Map<u64, Conversation>) -> nat
    decreases m.dom().len(),
    when m.dom().finite()
{
    if m.dom().len() == 0 {
        0
    } else {
        let k = m.dom().choose();
        m[k].history.len() + sum_histories(m.remove(k))
    }
}

impl State {
    /// The state of a bot that has seen nothing yet.
    pub open spec fn initial() -> State {
        State {
            current_model: DEFAULT_MODEL@,
            conversations: Map::empty(),
            version: CURRENT_STATE_VERSION,
            default_personality: Persona::Normal,
        }
    }

    /// The stored turns of a channel; none for a channel without an entry.
    pub open spec fn history(self, channel: u64) -> Seq<Turn> {
        if self.conversations.contains_key(channel) {
            self.conversations[channel].history
        } else {
            Seq::empty()
        }
    }

    /// The personality bound to a channel, if one is.
    pub open spec fn personality_override(self, channel: u64) -> Option<Persona> {
        if self.conversations.contains_key(channel) {
            self.conversations[channel].personality
        } else {
            None
        }
    }

    /// The personality in effect for a channel: the one bound to it, else
    /// the default.
    pub open spec fn resolved_personality(self, channel: u64) -> Persona {
        match self.personality_override(channel) {
            Some(p) => p,
            None => self.default_personality,
        }
    }

    /// What the model is shown for a channel: the system turn of the
    /// personality in effect, then the stored turns.
    pub open spec fn transcript(self, channel: u64) -> Seq<Turn> {
        seq![system_turn(self.resolved_personality(channel))] + self.history(channel)
    }

    /// The state after `turn` is appended to a channel: the turn goes to the
    /// tail, and the oldest turns leave until the capacity is met.
    pub open spec fn append(self, channel: u64, turn: Turn) -> State {
        State {
            conversations: self.conversations.insert(
                channel,
                Conversation {
                    history: keep_last(self.history(channel).push(turn), MAX_HISTORY_COUNT as nat),
                    personality: self.personality_override(channel),
                },
            ),
            ..self
        }
    }

    /// The state after a channel's entry is deleted.
    pub open spec fn remove(self, channel: u64) -> State {
        State { conversations: self.conversations.remove(channel), ..self }
    }

    /// The state after `p` is bound to a channel.
    pub open spec fn set_personality(self, channel: u64, p: Persona) -> State {
        State {
            conversations: self.conversations.insert(
                channel,
                Conversation { history: self.history(channel), personality: Some(p) },
            ),
            ..self
        }
    }

    /// The state after the model is changed to `model`.
    pub open spec fn with_model(self, model: Seq<char>) -> State {
        State { current_model: model, ..self }
    }

    /// The channels that have an entry.
    pub open spec fn channel_ids(self) -> Set<u64> {
        self.conversations.dom()
    }

    /// The number of stored turns over all channels.
    pub open spec fn total_turn_count(self) -> nat {
        sum_histories(self.conversations)
    }

    /// No channel holds more turns than the capacity.
    pub open spec fn bounded(self) -> bool {
        forall|k: u64| #[trigger]
            self.conversations.contains_key(k) ==> self.conversations[k].history.len()
                <= MAX_HISTORY_COUNT
    }
}

/// The sum of the history lengths of the channels listed in `keys`.
pub open spec fn sum_listed(keys: Seq<u64>, m: Map<u64, Conversation>) -> nat
    decreases keys.len(),
{
    if keys.len() == 0 {
        0
    } else {
        sum_listed(keys.drop_last(), m) + m[keys.last()].history.len()
    }
}

/// Any one channel can be taken out of the sum first.
pub proof fn lemma_sum_histories_remove(m: Map<u64, Conversation>, k: u64)
    requires
        m.dom().finite(),
        m.contains_key(k),
    ensures
        sum_histories(m) == m[k].history.len() + sum_histories(m.remove(k)),
    decreases m.dom().len(),
{
    let c = m.dom().choose();
    assert(m.dom().contains(c)) by {
        assert(m.dom().contains(k));
    }
    if c != k {
        lemma_sum_histories_remove(m.remove(c), k);
        lemma_sum_histories_remove(m.remove(k), c);
        assert(m.remove(c).remove(k) =~= m.remove(k).remove(c));
    }
}

/// Adding an entry for a fresh channel adds its history length to the sum;
/// replacing an entry exchanges the old length for the new one.
pub proof fn lemma_sum_histories_insert(m: Map<u64, Conversation>, k: u64, c: Conversation)
    requires
        m.dom().finite(),
    ensures
        sum_histories(m.insert(k, c)) + (if m.contains_key(k) {
            m[k].history.len()
        } else {
            0
        }) == sum_histories(m) + c.history.len(),
{
    let n = m.insert(k, c);
    lemma_sum_histories_remove(n, k);
    assert(n.remove(k) =~= m.remove(k));
    if m.contains_key(k) {
        lemma_sum_histories_remove(m, k);
    } else {
        assert(m.remove(k) =~= m);
    }
}

/// Summing over a list that names each channel of `m` once gives the sum
/// over `m`.
pub proof fn lemma_sum_listed_all(keys: Seq<u64>, m: Map<u64, Conversation>)
    requires
        m.dom().finite(),
        keys.no_duplicates(),
        keys.to_set() == m.dom(),
    ensures
        sum_listed(keys, m) == sum_histories(m),
    decreases keys.len(),
{
    if keys.len() == 0 {
        assert(m.dom() =~= Set::<u64>::empty()) by {
            assert forall|k: u64| !m.dom().contains(k) by {
                if m.dom().contains(k) {
                    assert(keys.to_set().contains(k));
                    assert(keys.contains(k));
                }
            }
        }
    } else {
        let k = keys.last();
        let rest = keys.drop_last();
        assert(keys.to_set().contains(k)) by {
            assert(keys[keys.len() - 1] == k);
            assert(keys.contains(k));
        }
        let m2 = m.remove(k);
        assert(rest.no_duplicates());
        assert(rest.to_set() =~= m2.dom()) by {
            assert forall|x: u64| rest.to_set().contains(x) <==> m2.dom().contains(x) by {
                if rest.to_set().contains(x) {
                    assert(rest.contains(x));
                    let i = choose|i: int| 0 <= i < rest.len() && rest[i] == x;
                    assert(keys[i] == x);
                    assert(keys.contains(x));
                    assert(keys.to_set().contains(x));
                    assert(x != k);
                }
                if m2.dom().contains(x) {
                    assert(keys.to_set().contains(x));
                    assert(keys.contains(x));
                    let i = choose|i: int| 0 <= i < keys.len() && keys[i] == x;
                    assert(i < keys.len() - 1);
                    assert(rest[i] == x);
                    assert(rest.contains(x));
                }
            }
        }
        lemma_sum_listed_all(rest, m2);
        lemma_sum_listed_agree(rest, m, m2);
        lemma_sum_histories_remove(m, k);
    }
}

/// The sum over a list depends only on the entries of the listed channels.
pub proof fn lemma_sum_listed_agree(
    keys: Seq<u64>,
    a: Map<u64, Conversation>,
    b: Map<u64, Conversation>,
)
    requires
        forall|i: int| 0 <= i < keys.len() ==> a[#[trigger] keys[i]] == b[keys[i]],
    ensures
        sum_listed(keys, a) == sum_listed(keys, b),
    decreases keys.len(),
{
    if keys.len() > 0 {
        let rest = keys.drop_last();
        assert forall|i: int| 0 <= i < rest.len() implies a[#[trigger] rest[i]] == b[rest[i]] by {
            assert(rest[i] == keys[i]);
        }
        lemma_sum_listed_agree(rest, a, b);
    }
}

impl Clone for ChannelConversation {
    fn clone(&self) -> (r: Self)
        ensures
            r@ == self@,
    {
        let mut history: VecDeque<ChatMessage> = VecDeque::new();
        let mut i: usize = 0;
        while i < self.history.len()
            invariant
                0 <= i <= self.history@.len(),
                history@.len() == i,
                forall|j: int| 0 <= j < i ==> history@[j]@ == self.history@[j]@,
            decreases self.history@.len() - i,
        {
            history.push_back(self.history[i].clone());
            i = i + 1;
        }
        assert(turns_of(history@) =~= turns_of(self.history@));
        let personality = match &self.personality {
            Some(p) => Some(p.clone()),
            None => None,
        };
        ChannelConversation { history, personality }
    }
}

impl ChannelConversation {
    /// An entry with no turns and no personality bound.
    pub fn new() -> (r: Self)
        ensures
            r@ == (Conversation { history: Seq::empty(), personality: None }),
    {
        let r = ChannelConversation { history: VecDeque::new(), personality: None };
        assert(r@.history =~= Seq::empty());
        r
    }
}

impl Default for BotState {
    fn default() -> (r: Self)
        ensures
            r@ == State::initial(),
    {
        let r = BotState {
            current_model: DEFAULT_MODEL.to_owned(),
            conversations: HashMap::new(),
            version: CURRENT_STATE_VERSION,
            default_personality: BotPersonality::Normal,
        };
        assert(r@.conversations =~= Map::empty());
        r
    }
}

impl BotState {
    /// The transcript of a channel: the system turn of the personality in
    /// effect, then the stored turns. Nothing is stored by reading.
    pub fn get_conversation(&self, channel_id: u64) -> (r: Vec<ChatMessage>)
        ensures
            turns_of(r@) == self@.transcript(channel_id),
    {
        broadcast use group_hash_axioms;

        let personality = self.get_channel_personality(channel_id);
        let system = ChatMessage::developer(personality.get_system_prompt());
        let mut result: Vec<ChatMessage> = Vec::new();
        result.push(system);
        let ghost head = seq![system_turn(self@.resolved_personality(channel_id))];
        assert(turns_of(result@) =~= head);
        match self.conversations.get(&channel_id) {
            Some(conversation) => {
                let mut i: usize = 0;
                while i < conversation.history.len()
                    invariant
                        0 <= i <= conversation.history@.len(),
                        result@.len() == i + 1,
                        turns_of(result@) == head + turns_of(conversation.history@).take(i as int),
                    decreases conversation.history@.len() - i,
                {
                    let ghost before = turns_of(result@);
                    result.push(conversation.history[i].clone());
                    i = i + 1;
                    assert(turns_of(result@) =~= before.push(conversation.history@[i - 1]@));
                    assert(turns_of(result@) =~= head + turns_of(conversation.history@).take(
                        i as int,
                    ));
                }
                assert(turns_of(conversation.history@).take(i as int) =~= turns_of(
                    conversation.history@,
                ));
            },
            None => {
                assert(head + Seq::<Turn>::empty() =~= head);
            },
        }
        result
    }

    /// The personality in effect for a channel.
    pub fn get_channel_personality(&self, channel_id: u64) -> (r: &BotPersonality)
        ensures
            r@ == self@.resolved_personality(channel_id),
    {
        broadcast use group_hash_axioms;

        match self.conversations.get(&channel_id) {
            Some(conversation) => match &conversation.personality {
                Some(p) => p,
                None => &self.default_personality,
            },
            None => &self.default_personality,
        }
    }

    /// Binds `personality` to a channel; a channel without an entry gets one
    /// with no turns.
    pub fn set_channel_personality(&mut self, channel_id: u64, personality: BotPersonality)
        ensures
            final(self)@ == old(self)@.set_personality(channel_id, personality@),
    {
        broadcast use group_hash_axioms;

        let mut conversation = match self.conversations.remove(&channel_id) {
            Some(c) => c,
            None => ChannelConversation::new(),
        };
        conversation.personality = Some(personality);
        self.conversations.insert(channel_id, conversation);
        assert(self@.conversations =~= old(self)@.set_personality(
            channel_id,
            personality@,
        ).conversations);
    }

    /// Appends `message` to a channel's history and evicts the oldest turns
    /// while the history is over capacity.
    pub fn add_message(&mut self, channel_id: u64, message: ChatMessage)
        ensures
            final(self)@ == old(self)@.append(channel_id, message@),
    {
        broadcast use group_hash_axioms;

        let mut conversation = match self.conversations.remove(&channel_id) {
            Some(c) => c,
            None => ChannelConversation::new(),
        };
        let ghost full = old(self)@.history(channel_id).push(message@);
        let ghost bound = old(self)@.personality_override(channel_id);
        conversation.history.push_back(message);
        assert(turns_of(conversation.history@) =~= full);
        assert(full.skip(0) =~= full);
        while conversation.history.len() > MAX_HISTORY_COUNT
            invariant
                conversation.history@.len() <= full.len(),
                turns_of(conversation.history@) == full.skip(
                    full.len() - conversation.history@.len(),
                ),
                conversation.history@.len() >= MAX_HISTORY_COUNT || conversation.history@.len()
                    == full.len(),
                persona_of(conversation.personality) == bound,
            decreases conversation.history@.len(),
        {
            let ghost before = conversation.history@;
            conversation.history.pop_front();
            assert(turns_of(conversation.history@) =~= turns_of(before).skip(1));
            assert(full.skip(full.len() - before.len()).skip(1) =~= full.skip(
                full.len() - conversation.history@.len(),
            ));
        }
        self.conversations.insert(channel_id, conversation);
        assert(self@.conversations =~= old(self)@.append(channel_id, message@).conversations);
    }

    /// Deletes a channel's entry: its turns and the personality bound to it.
    pub fn remove_conversation(&mut self, channel_id: u64)
        ensures
            final(self)@ == old(self)@.remove(channel_id),
    {
        broadcast use group_hash_axioms;

        self.conversations.remove(&channel_id);
        assert(self@.conversations =~= old(self)@.remove(channel_id).conversations);
    }

    /// Changes the model in use.
    pub fn change_model(&mut self, model_name: String)
        ensures
            final(self)@ == old(self)@.with_model(model_name@),
    {
        self.current_model = model_name;
        assert(self@.conversations =~= old(self)@.conversations);
    }

    /// The model in use.
    pub fn get_current_model(&self) -> (r: String)
        ensures
            r@ == self@.current_model,
    {
        self.current_model.clone()
    }

    /// The number of turns stored for a channel.
    pub fn channel_turn_count(&self, channel_id: u64) -> (n: usize)
        ensures
            n == self@.history(channel_id).len(),
    {
        broadcast use group_hash_axioms;

        match self.conversations.get(&channel_id) {
            Some(conversation) => conversation.history.len(),
            None => 0,
        }
    }

    /// The number of channels that have an entry.
    pub fn channel_count(&self) -> (n: usize)
        ensures
            n == self@.channel_ids().len(),
    {
        broadcast use group_hash_axioms;

        assert(self@.conversations.dom() =~= self.conversations@.dom());
        self.conversations.len()
    }

    /// The channels that have an entry, each once, in no particular order.
    pub fn get_channel_ids(&self) -> (r: Vec<u64>)
        ensures
            r@.no_duplicates(),
            r@.to_set() == self@.channel_ids(),
    {
        broadcast use group_hash_axioms;

        let ghost all = spec_keys_iter(&self.conversations).remaining();
        let mut ids: Vec<u64> = Vec::new();
        for k in it: self.conversations.keys()
            invariant
                it.seq() == all,
                ids@ == all.take(it.index() as int).unref(),
        {
            ids.push(*k);
            assert(ids@ =~= all.take(it.index() + 1).unref());
        }
        proof {
            assert(all.take(all.len() as int) =~= all);
            assert(self@.conversations.dom() =~= self.conversations@.dom());
            lemma_unref_no_duplicates(all);
        }
        ids
    }

    /// The number of stored turns over all channels; `usize::MAX` where the
    /// sum is larger than that.
    pub fn get_total_history_count(&self) -> (n: usize)
        ensures
            n == capped(self@.total_turn_count()),
    {
        broadcast use group_hash_axioms;

        let ghost all = spec_keys_iter(&self.conversations).remaining();
        let ghost m = self@.conversations;
        let mut total: usize = 0;
        for k in it: self.conversations.keys()
            invariant
                it.seq() == all,
                m == self@.conversations,
                total == capped(sum_listed(all.take(it.index() as int).unref(), m)),
        {
            let ghost seen = all.take(it.index() as int).unref();
            let ghost next = all.take(it.index() + 1).unref();
            assert(next.drop_last() =~= seen);
            assert(next.last() == *k);
            let len = self.channel_turn_count(*k);
            proof {
                assert(all.unref().to_set().contains(*k)) by {
                    assert(all.unref()[it.index()] == *k);
                    assert(all.unref().contains(*k));
                }
                assert(self.conversations@.dom().contains(*k));
                assert(m.contains_key(*k));
            }
            total = total.saturating_add(len);
        }
        proof {
            assert(all.take(all.len() as int) =~= all);
            assert(m.dom() =~= self.conversations@.dom());
            lemma_unref_no_duplicates(all);
            lemma_sum_listed_all(all.unref(), m);
        }
        total
    }
}

/// `n` as a `usize`, or `usize::MAX` where `n` is larger than that.
pub open spec fn capped(n: nat) -> usize {
    if n > usize::MAX {
        usize::MAX
    } else {
        n as usize
    }
}

/// References that differ pairwise refer to values that differ pairwise.
pub proof fn lemma_unref_no_duplicates(s: Seq<&u64>)
    requires
        s.no_duplicates(),
    ensures
        s.unref().no_duplicates(),
{
    assert forall|i: int, j: int|
        0 <= i < s.unref().len() && 0 <= j < s.unref().len() && i != j implies s.unref()[i]
        != s.unref()[j] by {
        assert(s[i] != s[j]);
    }
}

/// The state after the turns of `turns` are appended to a channel, one
/// after the other.
pub open spec fn append_all(st: State, channel: u64, turns: Seq<Turn>) -> State
    decreases turns.len(),
{
    if turns.len() == 0 {
        st
    } else {
        append_all(st, channel, turns.drop_last()).append(channel, turns.last())
    }
}

/// Keeping the last turns of a history that was itself cut in the same way
/// is keeping the last turns of the whole.
pub proof fn lemma_keep_last_push(s: Seq<Turn>, t: Turn, cap: nat)
    requires
        cap > 0,
    ensures
        keep_last(keep_last(s, cap).push(t), cap) == keep_last(s.push(t), cap),
{
    let a = keep_last(s, cap).push(t);
    if s.len() > cap {
        assert(a =~= s.push(t).skip(s.len() - cap));
        assert(a.skip(a.len() - cap) =~= s.push(t).skip(s.push(t).len() - cap));
    }
}

/// An append never leaves more turns in the channel than the capacity, and
/// touches no other channel.
pub proof fn lemma_append_bounded(st: State, channel: u64, turn: Turn)
    ensures
        st.append(channel, turn).history(channel).len() <= MAX_HISTORY_COUNT,
        st.append(channel, turn).history(channel).len() > 0,
        st.append(channel, turn).history(channel).last() == turn,
        st.append(channel, turn).personality_override(channel) == st.personality_override(
            channel,
        ),
        forall|other: u64|
            other != channel ==> #[trigger] st.append(channel, turn).history(other) == st.history(
                other,
            ) && st.append(channel, turn).personality_override(other) == st.personality_override(
                other,
            ),
        st.bounded() ==> st.append(channel, turn).bounded(),
{
}

/// After one or more appends to a channel, the channel holds the last turns
/// of its earlier history followed by the appended turns. With at least as
/// many appends as the capacity, it holds exactly the last of the appended
/// turns, as many as the capacity, in the order in which they came, and the
/// transcript is one longer than the capacity.
pub proof fn lemma_bounded_history(st: State, channel: u64, turns: Seq<Turn>)
    requires
        turns.len() > 0,
    ensures
        append_all(st, channel, turns).history(channel) == keep_last(
            st.history(channel) + turns,
            MAX_HISTORY_COUNT as nat,
        ),
        append_all(st, channel, turns).history(channel).len() <= MAX_HISTORY_COUNT,
        turns.len() >= MAX_HISTORY_COUNT ==> append_all(st, channel, turns).history(channel)
            == turns.skip(turns.len() - MAX_HISTORY_COUNT),
        turns.len() >= MAX_HISTORY_COUNT ==> append_all(st, channel, turns).transcript(
            channel,
        ).len() - 1 == MAX_HISTORY_COUNT,
    decreases turns.len(),
{
    let cap = MAX_HISTORY_COUNT as nat;
    let h = st.history(channel);
    let rest = turns.drop_last();
    let t = turns.last();
    let before = append_all(st, channel, rest);
    assert(turns =~= rest.push(t));
    assert(h + turns =~= (h + rest).push(t));
    if rest.len() == 0 {
        assert(h + rest =~= h);
    } else {
        lemma_bounded_history(st, channel, rest);
        lemma_keep_last_push(h + rest, t, cap);
    }
    let all = h + turns;
    if turns.len() >= MAX_HISTORY_COUNT {
        assert(all.skip(all.len() - cap) =~= turns.skip(turns.len() - cap));
        if all.len() == cap {
            assert(h.len() == 0);
            assert(all =~= turns);
            assert(turns.skip(0) =~= turns);
        }
    }
}

/// Whether the turn appended as number `a`, counted from zero, is still
/// stored after the first `j` of `turns` were appended to a channel.
pub open spec fn still_stored(st: State, channel: u64, turns: Seq<Turn>, j: int, a: int) -> bool {
    0 <= a < j && j - a <= append_all(st, channel, turns.take(j)).history(channel).len()
}

/// Turns leave strictly in the order in which they came. After any number
/// of appends to a channel, what is stored is one unbroken run that ends
/// with the newest turn: the last turns of the earlier history followed by
/// the appended ones. So each appended turn that is still stored stands at
/// its place counted from the end, and a turn is never evicted while an
/// older one stays.
pub proof fn lemma_eviction_order(st: State, channel: u64, turns: Seq<Turn>, j: int)
    requires
        1 <= j <= turns.len(),
    ensures
        append_all(st, channel, turns.take(j)).history(channel) == keep_last(
            st.history(channel) + turns.take(j),
            MAX_HISTORY_COUNT as nat,
        ),
        forall|a: int| #[trigger]
            still_stored(st, channel, turns, j, a) ==> append_all(
                st,
                channel,
                turns.take(j),
            ).history(channel)[append_all(st, channel, turns.take(j)).history(channel).len() - (j
                - a)] == turns[a],
        forall|a: int, b: int|
            a < b < j && #[trigger] still_stored(st, channel, turns, j, a)
                ==> #[trigger] still_stored(st, channel, turns, j, b),
{
    let head = turns.take(j);
    lemma_bounded_history(st, channel, head);
    let all = st.history(channel) + head;
    let h = append_all(st, channel, head).history(channel);
    assert forall|a: int| #[trigger] still_stored(st, channel, turns, j, a) implies h[h.len() - (j
        - a)] == turns[a] by {
        assert(all[all.len() - (j - a)] == head[a]);
    }
}

/// A channel with no personality bound resolves to the default. Once a
/// personality is bound, the transcript opens with a developer turn whose
/// text is that personality's system prompt, and the history is as it was.
/// Once the channel is removed, it resolves to the default again.
pub proof fn lemma_personality_resolution(st: State, channel: u64, p: Persona)
    ensures
        st.personality_override(channel) is None ==> st.resolved_personality(channel)
            == st.default_personality,
        st.set_personality(channel, p).resolved_personality(channel) == p,
        st.set_personality(channel, p).transcript(channel)[0] == system_turn(p),
        system_turn(p).content == seq![Part::InputText(system_prompt(p))],
        st.set_personality(channel, p).history(channel) == st.history(channel),
        st.set_personality(channel, p).remove(channel).resolved_personality(channel)
            == st.default_personality,
        st.set_personality(channel, p).default_personality == st.default_personality,
{
}

/// Removing a channel deletes its entry altogether: it is no longer among
/// the channels, nothing is bound to it, and its transcript is the system
/// turn of the default personality and nothing else. Other channels keep
/// what they had.
pub proof fn lemma_remove_is_total(st: State, channel: u64)
    ensures
        !st.remove(channel).channel_ids().contains(channel),
        st.remove(channel).history(channel).len() == 0,
        st.remove(channel).personality_override(channel) is None,
        st.remove(channel).transcript(channel) == seq![system_turn(st.default_personality)],
        forall|other: u64|
            other != channel ==> #[trigger] st.remove(channel).history(other) == st.history(other)
                && st.remove(channel).personality_override(other) == st.personality_override(
                other,
            ),
        st.bounded() ==> st.remove(channel).bounded(),
{
    assert(st.remove(channel).transcript(channel) =~= seq![system_turn(st.default_personality)]);
}

/// Reading a channel's transcript from a state with nothing stored for it
/// gives the system turn alone; after one append it gives the system turn
/// and that turn.
pub proof fn lemma_first_append(st: State, channel: u64, turn: Turn)
    requires
        !st.channel_ids().contains(channel),
    ensures
        st.transcript(channel) == seq![system_turn(st.default_personality)],
        st.append(channel, turn).transcript(channel) == seq![
            system_turn(st.default_personality),
            turn,
        ],
        st.append(channel, turn).channel_ids() == st.channel_ids().insert(channel),
{
    assert(st.transcript(channel) =~= seq![system_turn(st.default_personality)]);
    assert(st.history(channel).push(turn) =~= seq![turn]);
    assert(st.append(channel, turn).transcript(channel) =~= seq![
        system_turn(st.default_personality),
        turn,
    ]);
    assert(st.append(channel, turn).channel_ids() =~= st.channel_ids().insert(channel));
}

/// An append changes the number of stored turns by what it changes in its
/// channel: one more below the capacity, none at the capacity.
pub proof fn lemma_total_after_append(st: State, channel: u64, turn: Turn)
    requires
        st.conversations.dom().finite(),
    ensures
        st.append(channel, turn).total_turn_count() + st.history(channel).len()
            == st.total_turn_count() + st.append(channel, turn).history(channel).len(),
        st.history(channel).len() < MAX_HISTORY_COUNT ==> st.append(channel, turn).total_turn_count()
            == st.total_turn_count() + 1,
        st.history(channel).len() == MAX_HISTORY_COUNT ==> st.append(
            channel,
            turn,
        ).total_turn_count() == st.total_turn_count(),
{
    let after = Conversation {
        history: keep_last(st.history(channel).push(turn), MAX_HISTORY_COUNT as nat),
        personality: st.personality_override(channel),
    };
    lemma_sum_histories_insert(st.conversations, channel, after);
}

/// Removing a channel takes its turns out of the number of stored turns.
pub proof fn lemma_total_after_remove(st: State, channel: u64)
    requires
        st.conversations.dom().finite(),
    ensures
        st.remove(channel).total_turn_count() + st.history(channel).len() == st.total_turn_count(),
{
    if st.conversations.contains_key(channel) {
        lemma_sum_histories_remove(st.conversations, channel);
    } else {
        assert(st.conversations.remove(channel) =~= st.conversations);
    }
}

} // verus!

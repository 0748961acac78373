//! The layout in which the state is stored: the settings, a list of
//! channel histories and a list of the personalities bound to channels.
//! Turning this layout into bytes and back is left to the caller.

use crate::conversation::{turns_of, ChatMessage, Turn};
use crate::personality::{BotPersonality, Persona};
use crate::state::{BotState, ChannelConversation, Conversation, State};
use std::collections::HashMap;
use std::collections::VecDeque;
use vstd::prelude::*;
use vstd::std_specs::hash::group_hash_axioms;

verus! {

/// The stored turns of one channel.
#[derive(Debug)]
pub struct StoredHistory {
    pub channel_id: u64,
    pub messages: Vec<ChatMessage>,
}

/// The personality bound to one channel.
#[derive(Debug)]
pub struct StoredPersonality {
    pub channel_id: u64,
    pub personality: BotPersonality,
}

/// The state as it is stored.
#[derive(Debug)]
pub struct StateFile {
    pub current_model: String,
    pub conversations: Vec<StoredHistory>,
    pub version: u32,
    pub default_personality: BotPersonality,
    pub channel_personalities: Vec<StoredPersonality>,
}

/// The mathematical value of a stored state.
pub struct FileModel {
    pub current_model: Seq<char>,
    pub conversations: Seq<(u64, Seq<Turn>)>,
    pub version: u32,
    pub default_personality: Persona,
    pub channel_personalities: Seq<(u64, Persona)>,
}

/// The values of a list of stored histories.
pub open spec fn histories_of(entries: Seq<StoredHistory>) -> Seq<(u64, Seq<Turn>)> {
    Seq::new(entries.len(), |i: int| (entries[i].channel_id, turns_of(entries[i].messages@)))
}

/// The values of a list of stored personalities.
pub open spec fn bindings_of(entries: Seq<StoredPersonality>) -> Seq<(u64, Persona)> {
    Seq::new(entries.len(), |i: int| (entries[i].channel_id, entries[i].personality@))
}

impl View for StateFile {
    type V = FileModel;

    open spec fn view(&self) -> FileModel {
        FileModel {
            current_model: self.current_model@,
            conversations: histories_of(self.conversations@),
            version: self.version,
            default_personality: self.default_personality@,
            channel_personalities: bindings_of(self.channel_personalities@),
        }
    }
}

/// The state `st` with the listed histories put in, one after the other:
/// each gets an entry of its own without a personality.
pub open spec fn with_histories(st: State, entries: Seq<(u64, Seq<Turn>)>) -> State
    decreases entries.len(),
{
    if entries.len() == 0 {
        st
    } else {
        let before = with_histories(st, entries.drop_last());
        State {
            conversations: before.conversations.insert(
                entries.last().0,
                Conversation { history: entries.last().1, personality: None },
            ),
            ..before
        }
    }
}

/// The state `st` with the listed personalities bound, one after the other.
pub open spec fn with_bindings(st: State, entries: Seq<(u64, Persona)>) -> State
    decreases entries.len(),
{
    if entries.len() == 0 {
        st
    } else {
        with_bindings(st, entries.drop_last()).set_personality(entries.last().0, entries.last().1)
    }
}

/// The state that a stored state stands for.
pub open spec fn restore(file: FileModel) -> State {
    with_bindings(
        with_histories(
            State {
                current_model: file.current_model,
                conversations: Map::empty(),
                version: file.version,
                default_personality: file.default_personality,
            },
            file.conversations,
        ),
        file.channel_personalities,
    )
}

/// The histories of the channels listed in `keys`, in that order.
pub open spec fn stored_histories(st: State, keys: Seq<u64>) -> Seq<(u64, Seq<Turn>)> {
    Seq::new(keys.len(), |i: int| (keys[i], st.history(keys[i])))
}

/// The personalities bound to the channels listed in `keys`, in that order;
/// a channel with none bound has no entry.
pub open spec fn stored_bindings(st: State, keys: Seq<u64>) -> Seq<(u64, Persona)>
    decreases keys.len(),
{
    if keys.len() == 0 {
        Seq::empty()
    } else {
        let rest = stored_bindings(st, keys.drop_last());
        match st.personality_override(keys.last()) {
            Some(p) => rest.push((keys.last(), p)),
            None => rest,
        }
    }
}

/// The state `st` as it is stored, its channels in the order of `keys`.
pub open spec fn stored(st: State, keys: Seq<u64>) -> FileModel {
    FileModel {
        current_model: st.current_model,
        conversations: stored_histories(st, keys),
        version: st.version,
        default_personality: st.default_personality,
        channel_personalities: stored_bindings(st, keys),
    }
}

/// Putting in the stored histories of the listed channels gives each of
/// them an entry with its history and no personality, and no other entry.
pub proof fn lemma_with_histories(base: State, st: State, keys: Seq<u64>)
    requires
        base.conversations == Map::<u64, Conversation>::empty(),
    ensures
        with_histories(base, stored_histories(st, keys)).conversations.dom() == keys.to_set(),
        forall|k: u64| #[trigger]
            keys.to_set().contains(k) ==> with_histories(
                base,
                stored_histories(st, keys),
            ).conversations[k] == (Conversation { history: st.history(k), personality: None }),
        with_histories(base, stored_histories(st, keys)).current_model == base.current_model,
        with_histories(base, stored_histories(st, keys)).version == base.version,
        with_histories(base, stored_histories(st, keys)).default_personality
            == base.default_personality,
    decreases keys.len(),
{
    let entries = stored_histories(st, keys);
    if keys.len() == 0 {
        assert(keys.to_set() =~= Set::<u64>::empty());
        assert(base.conversations.dom() =~= Set::<u64>::empty());
    } else {
        let rest = keys.drop_last();
        assert(entries.drop_last() =~= stored_histories(st, rest));
        lemma_with_histories(base, st, rest);
        let before = with_histories(base, stored_histories(st, rest));
        let after = with_histories(base, entries);
        assert(after.conversations.dom() =~= keys.to_set()) by {
            assert forall|k: u64| after.conversations.dom().contains(k) <==> keys.to_set().contains(
                k,
            ) by {
                if rest.to_set().contains(k) {
                    let i = choose|i: int| 0 <= i < rest.len() && rest[i] == k;
                    assert(keys[i] == k);
                }
                if keys.to_set().contains(k) && k != keys.last() {
                    let i = choose|i: int| 0 <= i < keys.len() && keys[i] == k;
                    assert(rest[i] == k);
                }
                assert(keys[keys.len() - 1] == keys.last());
            }
        }
        assert forall|k: u64| #[trigger] keys.to_set().contains(k) implies after.conversations[k]
            == (Conversation { history: st.history(k), personality: None }) by {
            if k != keys.last() {
                let i = choose|i: int| 0 <= i < keys.len() && keys[i] == k;
                assert(rest[i] == k);
                assert(rest.to_set().contains(k));
            }
        }
    }
}

/// Binding the stored personalities of the listed channels leaves every
/// entry its history and gives each listed channel the personality that
/// `st` binds to it.
pub proof fn lemma_with_bindings(base: State, st: State, keys: Seq<u64>)
    requires
        forall|i: int| 0 <= i < keys.len() ==> base.conversations.contains_key(#[trigger] keys[i]),
        forall|k: u64| #[trigger]
            base.conversations.contains_key(k) ==> base.conversations[k].personality is None,
    ensures
        with_bindings(base, stored_bindings(st, keys)).conversations.dom()
            == base.conversations.dom(),
        forall|k: u64| #[trigger]
            base.conversations.contains_key(k) ==> with_bindings(
                base,
                stored_bindings(st, keys),
            ).conversations[k] == (Conversation {
                history: base.conversations[k].history,
                personality: if keys.contains(k) {
                    st.personality_override(k)
                } else {
                    None
                },
            }),
        with_bindings(base, stored_bindings(st, keys)).current_model == base.current_model,
        with_bindings(base, stored_bindings(st, keys)).version == base.version,
        with_bindings(base, stored_bindings(st, keys)).default_personality
            == base.default_personality,
    decreases keys.len(),
{
    if keys.len() == 0 {
    } else {
        let rest = keys.drop_last();
        let last = keys.last();
        assert forall|i: int| 0 <= i < rest.len() implies base.conversations.contains_key(
            #[trigger] rest[i],
        ) by {
            assert(rest[i] == keys[i]);
        }
        lemma_with_bindings(base, st, rest);
        let before = with_bindings(base, stored_bindings(st, rest));
        let after = with_bindings(base, stored_bindings(st, keys));
        assert(base.conversations.contains_key(last)) by {
            assert(keys[keys.len() - 1] == last);
        }
        assert(keys.contains(last)) by {
            assert(keys[keys.len() - 1] == last);
        }
        assert forall|k: u64| keys.contains(k) <==> (rest.contains(k) || k == last) by {
            if keys.contains(k) && k != last {
                let i = choose|i: int| 0 <= i < keys.len() && keys[i] == k;
                assert(rest[i] == k);
            }
            if rest.contains(k) {
                let i = choose|i: int| 0 <= i < rest.len() && rest[i] == k;
                assert(keys[i] == k);
            }
        }
        match st.personality_override(last) {
            Some(p) => {
                let bindings = stored_bindings(st, rest).push((last, p));
                assert(bindings.drop_last() =~= stored_bindings(st, rest));
                assert(after == before.set_personality(last, p));
                assert(after.conversations.dom() =~= base.conversations.dom());
            },
            None => {},
        }
    }
}

/// A state that is stored and restored is the state that it was, whatever
/// it holds: turns of several parts, custom personalities, channels
/// without turns.
pub proof fn lemma_round_trip(st: State, keys: Seq<u64>)
    requires
        keys.to_set() == st.channel_ids(),
    ensures
        restore(stored(st, keys)) == st,
{
    let file = stored(st, keys);
    let base = State {
        current_model: st.current_model,
        conversations: Map::empty(),
        version: st.version,
        default_personality: st.default_personality,
    };
    lemma_with_histories(base, st, keys);
    let filled = with_histories(base, stored_histories(st, keys));
    assert forall|i: int| 0 <= i < keys.len() implies filled.conversations.contains_key(
        #[trigger] keys[i],
    ) by {
        assert(keys.contains(keys[i]));
        assert(keys.to_set().contains(keys[i]));
    }
    assert forall|k: u64| #[trigger]
        filled.conversations.contains_key(k) implies filled.conversations[k].personality
        is None by {
        assert(keys.to_set().contains(k));
    }
    lemma_with_bindings(filled, st, keys);
    let back = with_bindings(filled, stored_bindings(st, keys));
    assert(back.conversations =~= st.conversations) by {
        assert forall|k: u64| back.conversations.contains_key(k) implies #[trigger]
            back.conversations[k] == st.conversations[k] by {
            assert(filled.conversations.contains_key(k));
            assert(keys.to_set().contains(k));
            assert(keys.contains(k));
        }
    }
}

impl StateFile {
    /// The state as it is stored: one history for every channel that has an
    /// entry, and one personality for every channel that has one bound.
    pub fn from_state(state: &BotState) -> (file: StateFile)
        ensures
            restore(file@) == state@,
            file@.conversations.len() == state@.channel_ids().len(),
            exists|keys: Seq<u64>|
                keys.no_duplicates() && keys.to_set() == state@.channel_ids() && file@ == stored(
                    state@,
                    keys,
                ),
    {
        broadcast use group_hash_axioms;

        let ids = state.get_channel_ids();
        let ghost keys = ids@;
        let mut conversations: Vec<StoredHistory> = Vec::new();
        let mut channel_personalities: Vec<StoredPersonality> = Vec::new();
        let mut i: usize = 0;
        assert(histories_of(conversations@) =~= stored_histories(state@, keys.take(0)));
        assert(bindings_of(channel_personalities@) =~= stored_bindings(state@, keys.take(0)));
        while i < ids.len()
            invariant
                0 <= i <= ids.len(),
                keys == ids@,
                keys.to_set() == state@.channel_ids(),
                histories_of(conversations@) == stored_histories(state@, keys.take(i as int)),
                bindings_of(channel_personalities@) == stored_bindings(
                    state@,
                    keys.take(i as int),
                ),
            decreases ids.len() - i,
        {
            let id = ids[i];
            let ghost done = keys.take(i as int);
            let ghost next = keys.take(i + 1);
            let ghost histories_before = histories_of(conversations@);
            let ghost bindings_before = bindings_of(channel_personalities@);
            proof {
                assert(next.drop_last() =~= done);
                assert(next.last() == id);
                assert(keys.contains(id));
                assert(keys.to_set().contains(id));
                assert(state.conversations@.contains_key(id));
            }
            let conversation = state.conversations.get(&id).unwrap();
            let mut messages: Vec<ChatMessage> = Vec::new();
            let mut j: usize = 0;
            while j < conversation.history.len()
                invariant
                    0 <= j <= conversation.history@.len(),
                    messages@.len() == j,
                    forall|n: int| 0 <= n < j ==> messages@[n]@ == conversation.history@[n]@,
                decreases conversation.history@.len() - j,
            {
                messages.push(conversation.history[j].clone());
                j = j + 1;
            }
            assert(turns_of(messages@) =~= state@.history(id));
            conversations.push(StoredHistory { channel_id: id, messages });
            assert(histories_of(conversations@) =~= histories_before.push(
                (id, state@.history(id)),
            ));
            if let Some(personality) = &conversation.personality {
                channel_personalities.push(
                    StoredPersonality { channel_id: id, personality: personality.clone() },
                );
                assert(bindings_of(channel_personalities@) =~= bindings_before.push(
                    (id, personality@),
                ));
            }
            assert(histories_of(conversations@) =~= stored_histories(state@, next)) by {
                assert forall|n: int| 0 <= n < done.len() implies done[n] == next[n] by {}
            }
            i = i + 1;
        }
        let file = StateFile {
            current_model: state.current_model.clone(),
            conversations,
            version: state.version,
            default_personality: state.default_personality.clone(),
            channel_personalities,
        };
        proof {
            assert(keys.take(i as int) =~= keys);
            assert(file@ == stored(state@, keys));
            lemma_round_trip(state@, keys);
            keys.unique_seq_to_set();
        }
        file
    }

    /// The state that this stored state stands for.
    pub fn into_state(self) -> (state: BotState)
        ensures
            state@ == restore(self@),
    {
        broadcast use group_hash_axioms;

        let mut state = BotState {
            current_model: self.current_model.clone(),
            conversations: HashMap::new(),
            version: self.version,
            default_personality: self.default_personality.clone(),
        };
        let ghost base = state@;
        let ghost histories = self@.conversations;
        let ghost bindings = self@.channel_personalities;
        assert(base.conversations =~= Map::<u64, Conversation>::empty());
        let mut i: usize = 0;
        assert(histories.take(0) =~= Seq::<(u64, Seq<Turn>)>::empty());
        while i < self.conversations.len()
            invariant
                0 <= i <= self.conversations.len(),
                histories == histories_of(self.conversations@),
                state@ == with_histories(base, histories.take(i as int)),
            decreases self.conversations.len() - i,
        {
            let entry = &self.conversations[i];
            let ghost before = state@;
            let mut history: VecDeque<ChatMessage> = VecDeque::new();
            let mut j: usize = 0;
            while j < entry.messages.len()
                invariant
                    0 <= j <= entry.messages.len(),
                    history@.len() == j,
                    forall|n: int| 0 <= n < j ==> history@[n]@ == entry.messages@[n]@,
                decreases entry.messages.len() - j,
            {
                history.push_back(entry.messages[j].clone());
                j = j + 1;
            }
            assert(turns_of(history@) =~= turns_of(entry.messages@));
            state.conversations.insert(
                entry.channel_id,
                ChannelConversation { history, personality: None },
            );
            i = i + 1;
            proof {
                let now = histories.take(i as int);
                assert(now.drop_last() =~= histories.take(i - 1));
                assert(now.last() == histories[i - 1]);
                assert(state@.conversations =~= before.conversations.insert(
                    now.last().0,
                    Conversation { history: now.last().1, personality: None },
                ));
            }
        }
        assert(histories.take(i as int) =~= histories);
        let ghost filled = state@;
        let mut k: usize = 0;
        assert(bindings.take(0) =~= Seq::<(u64, Persona)>::empty());
        while k < self.channel_personalities.len()
            invariant
                0 <= k <= self.channel_personalities.len(),
                bindings == bindings_of(self.channel_personalities@),
                state@ == with_bindings(filled, bindings.take(k as int)),
            decreases self.channel_personalities.len() - k,
        {
            let entry = &self.channel_personalities[k];
            state.set_channel_personality(entry.channel_id, entry.personality.clone());
            k = k + 1;
            proof {
                let now = bindings.take(k as int);
                assert(now.drop_last() =~= bindings.take(k - 1));
                assert(now.last() == bindings[k - 1]);
            }
        }
        assert(bindings.take(k as int) =~= bindings);
        state
    }
}

} // verus!

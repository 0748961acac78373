//! Cutting a long reply into pieces that a chat message can hold, at line
//! ends or spaces where there are any, and never inside a character.

use vstd::prelude::*;
use vstd::string::StringSliceAdditionalSpecFns;
use vstd::utf8::{
    encode_utf8, encode_utf8_valid_utf8, is_char_boundary, is_char_boundary_start_end_of_seq,
    length_of_first_scalar, pop_first_scalar, valid_utf8, valid_utf8_split,
};

verus! {

/// The most bytes one chat message holds.
pub const DISCORD_MESSAGE_LIMIT: usize = 2000;

/// The byte of a line feed.
pub const NEWLINE: u8 = 0x0a;

/// The byte of a space.
pub const SPACE: u8 = 0x20;

/// The last character boundary of `bytes` at or before `pos`.
pub open spec fn safe_boundary(bytes: Seq<u8>, pos: int) -> int
    decreases pos,
{
    let p = if pos <= bytes.len() {
        pos
    } else {
        bytes.len() as int
    };
    if p <= 0 {
        0
    } else if is_char_boundary(bytes, p) {
        p
    } else {
        safe_boundary(bytes, p - 1)
    }
}

/// The index of the last occurrence of `b` in `bytes`, if there is one.
pub open spec fn last_index_of(bytes: Seq<u8>, b: u8) -> Option<int>
    decreases bytes.len(),
{
    if bytes.len() == 0 {
        None
    } else if bytes.last() == b {
        Some(bytes.len() - 1)
    } else {
        last_index_of(bytes.drop_last(), b)
    }
}

/// Where to cut `bytes` so that the piece is at most `max_size` long:
/// everything where it fits; else just after the last line feed before the
/// last character boundary within `max_size`; else just after the last
/// space there; else at that boundary.
pub open spec fn chunk_break_point(bytes: Seq<u8>, max_size: int) -> int {
    if max_size >= bytes.len() {
        bytes.len() as int
    } else {
        let safe = safe_boundary(bytes, max_size);
        let head = bytes.take(safe);
        match last_index_of(head, NEWLINE) {
            Some(i) => i + 1,
            None => match last_index_of(head, SPACE) {
                Some(i) => i + 1,
                None => safe,
            },
        }
    }
}

/// `safe_boundary` gives a character boundary that is not beyond `pos` nor
/// the end, and no boundary lies between it and `pos`.
pub proof fn lemma_safe_boundary(bytes: Seq<u8>, pos: int)
    requires
        valid_utf8(bytes),
        0 <= pos,
    ensures
        0 <= safe_boundary(bytes, pos) <= pos,
        safe_boundary(bytes, pos) <= bytes.len(),
        is_char_boundary(bytes, safe_boundary(bytes, pos)),
        forall|i: int|
            safe_boundary(bytes, pos) < i <= pos && i <= bytes.len() ==> !is_char_boundary(
                bytes,
                i,
            ),
    decreases pos,
{
    let p = if pos <= bytes.len() {
        pos
    } else {
        bytes.len() as int
    };
    if p <= 0 {
    } else if is_char_boundary(bytes, p) {
    } else {
        lemma_safe_boundary(bytes, p - 1);
    }
}

/// Where `last_index_of` finds `b`, that is its last place; where it finds
/// nothing, `b` does not occur.
pub proof fn lemma_last_index_of(bytes: Seq<u8>, b: u8)
    ensures
        match last_index_of(bytes, b) {
            Some(i) => 0 <= i < bytes.len() && bytes[i] == b && forall|j: int|
                i < j < bytes.len() ==> bytes[j] != b,
            None => forall|j: int| 0 <= j < bytes.len() ==> bytes[j] != b,
        },
    decreases bytes.len(),
{
    if bytes.len() > 0 && bytes.last() != b {
        let rest = bytes.drop_last();
        lemma_last_index_of(rest, b);
        assert forall|j: int| 0 <= j < rest.len() implies rest[j] == bytes[j] by {}
    }
}

/// If `b` stands at `i` and nowhere after, `last_index_of` finds `i`.
pub proof fn lemma_last_index_found(bytes: Seq<u8>, b: u8, i: int)
    requires
        0 <= i < bytes.len(),
        bytes[i] == b,
        forall|j: int| i < j < bytes.len() ==> bytes[j] != b,
    ensures
        last_index_of(bytes, b) == Some(i),
    decreases bytes.len(),
{
    if bytes.last() != b {
        lemma_last_index_found(bytes.drop_last(), b, i);
    }
}

/// If `b` does not occur, `last_index_of` finds nothing.
pub proof fn lemma_last_index_absent(bytes: Seq<u8>, b: u8)
    requires
        forall|j: int| 0 <= j < bytes.len() ==> bytes[j] != b,
    ensures
        last_index_of(bytes, b) is None,
    decreases bytes.len(),
{
    if bytes.len() > 0 {
        lemma_last_index_absent(bytes.drop_last(), b);
    }
}

/// The break point is within the text and within `max_size`, and is a
/// character boundary.
pub proof fn lemma_chunk_break_point_bounds(bytes: Seq<u8>, max_size: int)
    requires
        valid_utf8(bytes),
        0 <= max_size,
    ensures
        0 <= chunk_break_point(bytes, max_size) <= bytes.len(),
        max_size < bytes.len() ==> chunk_break_point(bytes, max_size) <= max_size,
        is_char_boundary(bytes, chunk_break_point(bytes, max_size)),
{
    is_char_boundary_start_end_of_seq(bytes);
    if max_size < bytes.len() {
        lemma_safe_boundary(bytes, max_size);
        let safe = safe_boundary(bytes, max_size);
        let head = bytes.take(safe);
        lemma_last_index_of(head, NEWLINE);
        lemma_last_index_of(head, SPACE);
        match last_index_of(head, NEWLINE) {
            Some(i) => {
                lemma_after_ascii_is_boundary(bytes, i);
            },
            None => match last_index_of(head, SPACE) {
                Some(i) => {
                    lemma_after_ascii_is_boundary(bytes, i);
                },
                None => {},
            },
        }
    }
}

/// The place just after an ASCII byte is a character boundary.
pub proof fn lemma_after_ascii_is_boundary(bytes: Seq<u8>, i: int)
    requires
        valid_utf8(bytes),
        0 <= i < bytes.len(),
        bytes[i] < 0x80,
    ensures
        is_char_boundary(bytes, i + 1),
{
    vstd::utf8::is_char_boundary_iff_not_is_continuation_byte(bytes, i);
    assert(is_char_boundary(bytes, i));
    lemma_boundary_step(bytes, i);
}

/// From a character boundary in front of an ASCII byte, the next place is a
/// boundary too.
proof fn lemma_boundary_step(bytes: Seq<u8>, i: int)
    requires
        valid_utf8(bytes),
        0 <= i < bytes.len(),
        is_char_boundary(bytes, i),
        bytes[i] < 0x80,
    ensures
        is_char_boundary(bytes, i + 1),
    decreases bytes.len(),
{
    if i == 0 {
        assert(length_of_first_scalar(bytes) == 1);
        let rest = pop_first_scalar(bytes);
        assert(is_char_boundary(rest, 0));
    } else {
        let rest = pop_first_scalar(bytes);
        let n = length_of_first_scalar(bytes);
        assert(is_char_boundary(rest, i - n));
        assert(n <= i) by {
            if i < n {
                assert(!is_char_boundary(rest, i - n));
            }
        }
        assert(rest[i - n] == bytes[i]);
        lemma_boundary_step(rest, i - n);
    }
}

/// The last character boundary of `text` at or before `pos`.
pub fn find_safe_boundary(text: &str, pos: usize) -> (r: usize)
    ensures
        r == safe_boundary(text.spec_bytes(), pos as int),
        r <= pos,
        r <= text.spec_bytes().len(),
        is_char_boundary(text.spec_bytes(), r as int),
{
    proof {
        encode_utf8_valid_utf8(text@);
        lemma_safe_boundary(text.spec_bytes(), pos as int);
    }
    let len = text.as_bytes().len();
    let mut safe_pos: usize = if pos <= len {
        pos
    } else {
        len
    };
    assert(safe_boundary(text.spec_bytes(), safe_pos as int) == safe_boundary(
        text.spec_bytes(),
        pos as int,
    ));
    while safe_pos > 0 && !text.is_char_boundary(safe_pos)
        invariant
            safe_pos <= pos,
            safe_pos <= text.spec_bytes().len(),
            safe_boundary(text.spec_bytes(), safe_pos as int) == safe_boundary(
                text.spec_bytes(),
                pos as int,
            ),
        decreases safe_pos,
    {
        safe_pos = safe_pos - 1;
    }
    safe_pos
}

/// The index of the last `b` among the first `end` bytes.
pub fn rfind_byte(bytes: &[u8], end: usize, b: u8) -> (r: Option<usize>)
    requires
        end <= bytes@.len(),
    ensures
        match r {
            Some(i) => last_index_of(bytes@.take(end as int), b) == Some(i as int),
            None => last_index_of(bytes@.take(end as int), b) is None,
        },
{
    let ghost head = bytes@.take(end as int);
    let mut i: usize = end;
    while i > 0
        invariant
            i <= end <= bytes@.len(),
            head == bytes@.take(end as int),
            forall|j: int| i <= j < end ==> head[j] != b,
        decreases i,
    {
        i = i - 1;
        if bytes[i] == b {
            proof {
                lemma_last_index_found(head, b, i as int);
            }
            return Some(i);
        }
    }
    proof {
        lemma_last_index_absent(head, b);
    }
    None
}

/// Where to cut `text` so that the piece is at most `max_size` bytes long.
pub fn find_chunk_break_point(text: &str, max_size: usize) -> (r: usize)
    ensures
        r == chunk_break_point(text.spec_bytes(), max_size as int),
        r <= text.spec_bytes().len(),
        max_size < text.spec_bytes().len() ==> r <= max_size,
        is_char_boundary(text.spec_bytes(), r as int),
{
    proof {
        encode_utf8_valid_utf8(text@);
        lemma_chunk_break_point_bounds(text.spec_bytes(), max_size as int);
    }
    let bytes = text.as_bytes();
    if max_size >= bytes.len() {
        return bytes.len();
    }
    let safe_max_size = find_safe_boundary(text, max_size);
    if let Some(pos) = rfind_byte(bytes, safe_max_size, NEWLINE) {
        return pos + 1;
    }
    if let Some(pos) = rfind_byte(bytes, safe_max_size, SPACE) {
        return pos + 1;
    }
    safe_max_size
}

/// The size of the next piece of `bytes`: the limit, or all that is left.
pub open spec fn next_chunk_size(bytes: Seq<u8>) -> int {
    if DISCORD_MESSAGE_LIMIT < bytes.len() {
        DISCORD_MESSAGE_LIMIT as int
    } else {
        bytes.len() as int
    }
}

/// The pieces into which a long text is cut: each is cut off at the break
/// point within the limit, until nothing is left.
pub open spec fn chunk_plan(bytes: Seq<u8>) -> Seq<Seq<u8>>
    decreases bytes.len(),
{
    let n = chunk_break_point(bytes, next_chunk_size(bytes));
    if bytes.len() == 0 {
        Seq::empty()
    } else if n <= 0 || n > bytes.len() {
        seq![bytes]
    } else {
        seq![bytes.take(n)] + chunk_plan(bytes.skip(n))
    }
}

/// The messages in which a text is sent: the text itself where it is
/// within the limit, else its pieces.
pub open spec fn message_plan(bytes: Seq<u8>) -> Seq<Seq<u8>> {
    if bytes.len() <= DISCORD_MESSAGE_LIMIT {
        seq![bytes]
    } else {
        chunk_plan(bytes)
    }
}

/// The UTF-8 bytes of each string of `pieces`.
pub open spec fn bytes_of(pieces: Seq<String>) -> Seq<Seq<u8>> {
    Seq::new(pieces.len(), |i: int| encode_utf8(pieces[i]@))
}

/// All pieces of `pieces`, one after the other.
pub open spec fn joined(pieces: Seq<Seq<u8>>) -> Seq<u8>
    decreases pieces.len(),
{
    if pieces.len() == 0 {
        Seq::empty()
    } else {
        pieces[0] + joined(pieces.drop_first())
    }
}

/// The first character of a text ends at a character boundary within four
/// bytes.
pub proof fn lemma_first_boundary(bytes: Seq<u8>)
    requires
        valid_utf8(bytes),
        bytes.len() > 0,
    ensures
        1 <= length_of_first_scalar(bytes) <= 4,
        length_of_first_scalar(bytes) <= bytes.len(),
        is_char_boundary(bytes, length_of_first_scalar(bytes)),
{
    let rest = pop_first_scalar(bytes);
    assert(is_char_boundary(rest, 0));
}

/// The next piece of a text that is not empty is not empty.
pub proof fn lemma_break_point_positive(bytes: Seq<u8>)
    requires
        valid_utf8(bytes),
        bytes.len() > 0,
    ensures
        0 < chunk_break_point(bytes, next_chunk_size(bytes)) <= next_chunk_size(bytes),
        is_char_boundary(bytes, chunk_break_point(bytes, next_chunk_size(bytes))),
{
    let size = next_chunk_size(bytes);
    lemma_chunk_break_point_bounds(bytes, size);
    if size < bytes.len() {
        lemma_first_boundary(bytes);
        lemma_safe_boundary(bytes, size);
        let safe = safe_boundary(bytes, size);
        assert(safe >= length_of_first_scalar(bytes));
        let head = bytes.take(safe);
        lemma_last_index_of(head, NEWLINE);
        lemma_last_index_of(head, SPACE);
    }
}

/// The pieces of a text are not empty, none is longer than the limit, each
/// is text in its own right, and together, in order, they are the text.
pub proof fn lemma_chunk_plan(bytes: Seq<u8>)
    requires
        valid_utf8(bytes),
    ensures
        joined(chunk_plan(bytes)) == bytes,
        forall|i: int|
            0 <= i < chunk_plan(bytes).len() ==> 0 < (#[trigger] chunk_plan(bytes)[i]).len()
                <= DISCORD_MESSAGE_LIMIT && valid_utf8(chunk_plan(bytes)[i]),
        bytes.len() > 0 ==> chunk_plan(bytes).len() > 0,
    decreases bytes.len(),
{
    if bytes.len() == 0 {
        assert(joined(chunk_plan(bytes)) =~= bytes);
    } else {
        lemma_break_point_positive(bytes);
        let n = chunk_break_point(bytes, next_chunk_size(bytes));
        let rest = bytes.skip(n);
        valid_utf8_split(bytes, n);
        assert(bytes.subrange(0, n) =~= bytes.take(n));
        assert(bytes.subrange(n, bytes.len() as int) =~= rest);
        lemma_chunk_plan(rest);
        let plan = chunk_plan(bytes);
        assert(plan.drop_first() =~= chunk_plan(rest));
        assert(joined(plan) =~= bytes.take(n) + joined(chunk_plan(rest)));
        assert(bytes.take(n) + rest =~= bytes);
        assert forall|i: int| 0 <= i < plan.len() implies 0 < (#[trigger] plan[i]).len()
            <= DISCORD_MESSAGE_LIMIT && valid_utf8(plan[i]) by {
            if i > 0 {
                assert(plan[i] == chunk_plan(rest)[i - 1]);
            }
        }
    }
}

/// The messages in which a text is sent are, in order, the text; each is
/// text in its own right and within the limit.
pub proof fn lemma_message_plan(bytes: Seq<u8>)
    requires
        valid_utf8(bytes),
    ensures
        joined(message_plan(bytes)) == bytes,
        message_plan(bytes).len() > 0,
        forall|i: int|
            0 <= i < message_plan(bytes).len() ==> (#[trigger] message_plan(bytes)[i]).len()
                <= DISCORD_MESSAGE_LIMIT && valid_utf8(message_plan(bytes)[i]),
{
    if bytes.len() <= DISCORD_MESSAGE_LIMIT {
        let plan = seq![bytes];
        assert(plan.drop_first() =~= Seq::<Seq<u8>>::empty());
        assert(joined(plan) =~= bytes + joined(plan.drop_first()));
        assert(bytes + Seq::<u8>::empty() =~= bytes);
    } else {
        lemma_chunk_plan(bytes);
    }
}

/// Cuts a long text into pieces that each fit into one message.
pub fn split_into_chunks(content: &str) -> (r: Vec<String>)
    ensures
        bytes_of(r@) == chunk_plan(content.spec_bytes()),
{
    let mut chunks: Vec<String> = Vec::new();
    let mut remaining: &str = content;
    assert(bytes_of(chunks@) =~= Seq::<Seq<u8>>::empty());
    assert(Seq::<Seq<u8>>::empty() + chunk_plan(remaining.spec_bytes()) =~= chunk_plan(
        content.spec_bytes(),
    ));
    while remaining.as_bytes().len() > 0
        invariant
            bytes_of(chunks@) + chunk_plan(remaining.spec_bytes()) == chunk_plan(
                content.spec_bytes(),
            ),
        decreases remaining.spec_bytes().len(),
    {
        let ghost bytes = remaining.spec_bytes();
        let ghost before = bytes_of(chunks@);
        proof {
            encode_utf8_valid_utf8(remaining@);
            lemma_break_point_positive(bytes);
        }
        let len = remaining.as_bytes().len();
        let chunk_size = if DISCORD_MESSAGE_LIMIT < len {
            DISCORD_MESSAGE_LIMIT
        } else {
            len
        };
        let actual_size = find_chunk_break_point(remaining, chunk_size);
        let (chunk, rest) = remaining.split_at(actual_size);
        chunks.push(chunk.to_owned());
        remaining = rest;
        proof {
            let n = actual_size as int;
            assert(bytes.subrange(0, n) =~= bytes.take(n));
            assert(bytes.subrange(n, bytes.len() as int) =~= bytes.skip(n));
            assert(bytes_of(chunks@) =~= before.push(bytes.take(n)));
            assert(before.push(bytes.take(n)) + chunk_plan(bytes.skip(n)) =~= before + (
            seq![bytes.take(n)] + chunk_plan(bytes.skip(n))));
        }
    }
    assert(bytes_of(chunks@) + Seq::<Seq<u8>>::empty() =~= bytes_of(chunks@));
    chunks
}

/// The messages in which `content` is sent: `content` itself where it is
/// within the limit, else its pieces.
pub fn say(content: &str) -> (r: Vec<String>)
    ensures
        bytes_of(r@) == message_plan(content.spec_bytes()),
{
    if content.as_bytes().len() <= DISCORD_MESSAGE_LIMIT {
        let mut r: Vec<String> = Vec::new();
        r.push(content.to_owned());
        assert(bytes_of(r@) =~= seq![content.spec_bytes()]);
        r
    } else {
        split_into_chunks(content)
    }
}

/// What the developer is told when the bot has started.
pub open spec fn startup_notice(bot_name: Seq<char>) -> Seq<char> {
    bot_name + " started."@
}

/// What the developer is told when the bot has started.
pub fn notify_bot_startup(bot_name: &str) -> (r: String)
    ensures
        r@ == startup_notice(bot_name@),
{
    let mut r = bot_name.to_owned();
    r.append(" started.");
    r
}

} // verus!

//! Character-level text helpers with contracts over `Seq<char>`.
//!
//! Strings are handled as sequences of Unicode scalar values: a `&str` is
//! turned into a `Vec<char>` once, the logic runs on that, and the result is
//! assembled back into a `String`.

use vstd::prelude::*;
use vstd::string::StringSliceAdditionalSpecFns;
use vstd::utf8::{
    decode_utf8, encode_utf8, encode_utf8_decode_utf8, encode_utf8_valid_utf8, is_char_boundary,
};

verus! {

/// Appending one character to a `String` extends its view by that character.
/// This is what the standard library documents for `String::push`; Verus has
/// no specification of its own for it.
pub assume_specification[ String::push ](s: &mut String, c: char)
    ensures
        final(s)@ == old(s)@.push(c),
;

/// Whether `c` has the Unicode `White_Space` property.
pub open spec fn is_whitespace(c: char) -> bool {
    let u = c as u32;
    (0x09 <= u && u <= 0x0d) || u == 0x20 || u == 0x85 || u == 0xa0 || u == 0x1680 || (0x2000 <= u
        && u <= 0x200a) || u == 0x2028 || u == 0x2029 || u == 0x202f || u == 0x205f || u == 0x3000
}

/// `s` without its leading whitespace.
pub open spec fn trim_start(s: Seq<char>) -> Seq<char>
    decreases s.len(),
{
    if s.len() > 0 && is_whitespace(s[0]) {
        trim_start(s.drop_first())
    } else {
        s
    }
}

/// `s` without its trailing whitespace.
pub open spec fn trim_end(s: Seq<char>) -> Seq<char>
    decreases s.len(),
{
    if s.len() > 0 && is_whitespace(s.last()) {
        trim_end(s.drop_last())
    } else {
        s
    }
}

/// `s` without leading and trailing whitespace.
pub open spec fn trim(s: Seq<char>) -> Seq<char> {
    trim_end(trim_start(s))
}

/// Every character of `s` is whitespace.
pub open spec fn all_whitespace(s: Seq<char>) -> bool {
    forall|i: int| 0 <= i < s.len() ==> is_whitespace(#[trigger] s[i])
}

/// The lower-case form of an ASCII letter; every other character is itself.
pub open spec fn ascii_lower(c: char) -> char {
    let u = c as u32;
    if 0x41 <= u && u <= 0x5a {
        (u + 0x20) as char
    } else {
        c
    }
}

/// `s` with each ASCII letter in lower case.
pub open spec fn ascii_lower_seq(s: Seq<char>) -> Seq<char> {
    Seq::new(s.len(), |i: int| ascii_lower(s[i]))
}

/// The decimal digit for `d`, where `d` is below ten.
pub open spec fn digit_char(d: nat) -> char {
    ((0x30 + d) as u8) as char
}

/// `n` written in decimal, without leading zeros.
pub open spec fn decimal(n: nat) -> Seq<char>
    decreases n,
{
    if n < 10 {
        seq![digit_char(n)]
    } else {
        decimal(n / 10).push(digit_char(n % 10))
    }
}

/// `s` with every occurrence of `pattern` replaced by `with`, found from
/// left to right and without overlap; with an empty pattern, `s` itself.
pub open spec fn replace_all(s: Seq<char>, pattern: Seq<char>, with: Seq<char>) -> Seq<char>
    decreases s.len(),
{
    if pattern.len() == 0 || s.len() < pattern.len() {
        s
    } else if pattern.is_prefix_of(s) {
        with + replace_all(s.skip(pattern.len() as int), pattern, with)
    } else {
        seq![s[0]] + replace_all(s.drop_first(), pattern, with)
    }
}

/// `s` with every occurrence of `pattern` taken out.
pub open spec fn remove_all(s: Seq<char>, pattern: Seq<char>) -> Seq<char> {
    replace_all(s, pattern, Seq::empty())
}

/// Whether `pattern` occurs in `s`.
pub open spec fn contains_text(s: Seq<char>, pattern: Seq<char>) -> bool {
    exists|i: int| 0 <= i <= s.len() && pattern.is_prefix_of(#[trigger] s.skip(i))
}

/// Whether `s` can be cut in front of its byte `mid`: `mid` is within the
/// UTF-8 form of `s` and does not fall inside a character.
pub open spec fn cuts_at(s: Seq<char>, mid: int) -> bool {
    is_char_boundary(encode_utf8(s), mid)
}

/// The text that the first `mid` bytes of `s` hold.
pub open spec fn head_bytes(s: Seq<char>, mid: int) -> Seq<char> {
    decode_utf8(encode_utf8(s).take(mid))
}

/// The text that the bytes of `s` from byte `mid` on hold.
pub open spec fn tail_bytes(s: Seq<char>, mid: int) -> Seq<char> {
    decode_utf8(encode_utf8(s).skip(mid))
}

/// The values of a sequence of strings.
pub open spec fn strings_of(parts: Seq<String>) -> Seq<Seq<char>> {
    Seq::new(parts.len(), |i: int| parts[i]@)
}

/// The texts of `parts` with `sep` between neighbours.
pub open spec fn join(parts: Seq<Seq<char>>, sep: Seq<char>) -> Seq<char>
    decreases parts.len(),
{
    if parts.len() == 0 {
        Seq::empty()
    } else if parts.len() == 1 {
        parts[0]
    } else {
        join(parts.drop_last(), sep) + sep + parts.last()
    }
}

/// A text shorter than the pattern, or any text with an empty pattern, has
/// nothing taken out.
pub proof fn lemma_replace_all_short(s: Seq<char>, pattern: Seq<char>, with: Seq<char>)
    requires
        pattern.len() == 0 || s.len() < pattern.len(),
    ensures
        replace_all(s, pattern, with) == s,
{
}

/// Skipping exactly the leading run of whitespace gives `trim_start`.
pub proof fn lemma_trim_start_skip(s: Seq<char>, i: int)
    requires
        0 <= i <= s.len(),
        forall|j: int| 0 <= j < i ==> is_whitespace(#[trigger] s[j]),
        i == s.len() || !is_whitespace(s[i]),
    ensures
        trim_start(s) == s.skip(i),
    decreases i,
{
    if i == 0 {
        assert(s.skip(0) =~= s);
    } else {
        let t = s.drop_first();
        assert forall|j: int| 0 <= j < i - 1 implies is_whitespace(#[trigger] t[j]) by {
            assert(t[j] == s[j + 1]);
        }
        lemma_trim_start_skip(t, i - 1);
        assert(t.skip(i - 1) =~= s.skip(i));
    }
}

/// Keeping everything before the trailing run of whitespace gives `trim_end`.
pub proof fn lemma_trim_end_take(s: Seq<char>, i: int)
    requires
        0 <= i <= s.len(),
        forall|j: int| i <= j < s.len() ==> is_whitespace(#[trigger] s[j]),
        i == 0 || !is_whitespace(s[i - 1]),
    ensures
        trim_end(s) == s.take(i),
    decreases s.len() - i,
{
    if i == s.len() {
        assert(s.take(i) =~= s);
    } else {
        let t = s.drop_last();
        assert forall|j: int| i <= j < t.len() implies is_whitespace(#[trigger] t[j]) by {
            assert(t[j] == s[j]);
        }
        lemma_trim_end_take(t, i);
        assert(t.take(i) =~= s.take(i));
    }
}

/// A trimmed sequence neither starts nor ends with whitespace, and trimming
/// it again changes nothing.
pub proof fn lemma_trim_idempotent(s: Seq<char>)
    ensures
        trim(s).len() <= s.len(),
        trim(s).len() > 0 ==> !is_whitespace(trim(s)[0]) && !is_whitespace(trim(s).last()),
        trim(trim(s)) == trim(s),
{
    lemma_trim_start_shape(s);
    let a = trim_start(s);
    lemma_trim_end_shape(a);
    let b = trim_end(a);
    if b.len() > 0 {
        assert(b[0] == a[0]);
    }
}

/// `trim_start` returns a suffix that does not begin with whitespace.
pub proof fn lemma_trim_start_shape(s: Seq<char>)
    ensures
        trim_start(s).len() <= s.len(),
        trim_start(s) == s.skip(s.len() - trim_start(s).len()),
        trim_start(s).len() > 0 ==> !is_whitespace(trim_start(s)[0]),
        all_whitespace(s.take(s.len() - trim_start(s).len())),
    decreases s.len(),
{
    if s.len() > 0 && is_whitespace(s[0]) {
        let t = s.drop_first();
        lemma_trim_start_shape(t);
        let r = trim_start(t);
        assert(t.skip(t.len() - r.len()) =~= s.skip(s.len() - r.len()));
        let k = s.len() - r.len();
        assert forall|i: int| 0 <= i < s.take(k).len() implies is_whitespace(
            #[trigger] s.take(k)[i],
        ) by {
            if i > 0 {
                assert(s.take(k)[i] == t.take(k - 1)[i - 1]);
            }
        }
    } else {
        assert(s.skip(0) =~= s);
    }
}

/// `trim_end` returns a prefix that does not end with whitespace.
pub proof fn lemma_trim_end_shape(s: Seq<char>)
    ensures
        trim_end(s).len() <= s.len(),
        trim_end(s) == s.take(trim_end(s).len() as int),
        trim_end(s).len() > 0 ==> !is_whitespace(trim_end(s).last()),
        all_whitespace(s.skip(trim_end(s).len() as int)),
    decreases s.len(),
{
    if s.len() > 0 && is_whitespace(s.last()) {
        let t = s.drop_last();
        lemma_trim_end_shape(t);
        let r = trim_end(t);
        assert(t.take(r.len() as int) =~= s.take(r.len() as int));
        let k = r.len() as int;
        assert forall|i: int| 0 <= i < s.skip(k).len() implies is_whitespace(
            #[trigger] s.skip(k)[i],
        ) by {
            if i < t.skip(k).len() {
                assert(s.skip(k)[i] == t.skip(k)[i]);
            }
        }
    } else {
        assert(s.take(s.len() as int) =~= s);
    }
}

/// Trimming gives the empty sequence exactly when there is nothing but
/// whitespace.
pub proof fn lemma_trim_empty_iff(s: Seq<char>)
    ensures
        trim(s).len() == 0 <==> all_whitespace(s),
{
    lemma_trim_start_shape(s);
    let a = trim_start(s);
    lemma_trim_end_shape(a);
    let b = trim_end(a);
    let k = s.len() - a.len();
    if b.len() == 0 {
        assert forall|i: int| 0 <= i < s.len() implies is_whitespace(#[trigger] s[i]) by {
            if i < k {
                assert(s[i] == s.take(k)[i]);
            } else {
                assert(s[i] == a[i - k]);
                assert(a[i - k] == a.skip(0)[i - k]);
            }
        }
    }
    if all_whitespace(s) {
        if a.len() > 0 {
            assert(a[0] == s[k]);
        }
    }
}

/// The characters of `s`, in order.
pub fn to_chars(s: &str) -> (v: Vec<char>)
    ensures
        v@ == s@,
{
    let mut v: Vec<char> = Vec::new();
    for c in it: s.chars()
        invariant
            v@ == it.seq().take(it.index() as int),
            it.seq() == s@,
    {
        v.push(c);
    }
    v
}

/// A `String` holding the characters `v[from..to]`.
pub fn string_of_range(v: &Vec<char>, from: usize, to: usize) -> (s: String)
    requires
        from <= to <= v.len(),
    ensures
        s@ == v@.subrange(from as int, to as int),
{
    let mut s = String::new();
    let mut i: usize = from;
    while i < to
        invariant
            from <= i <= to <= v.len(),
            s@ == v@.subrange(from as int, i as int),
        decreases to - i,
    {
        s.push(v[i]);
        i = i + 1;
        assert(v@.subrange(from as int, i as int) == v@.subrange(from as int, i - 1).push(
            v@[i - 1],
        ));
    }
    s
}

/// A `String` holding the characters of `v`.
pub fn from_chars(v: &Vec<char>) -> (s: String)
    ensures
        s@ == v@,
{
    let s = string_of_range(v, 0, v.len());
    assert(v@.subrange(0, v.len() as int) == v@);
    s
}

/// Tests the Unicode `White_Space` property.
pub fn is_whitespace_char(c: char) -> (b: bool)
    ensures
        b == is_whitespace(c),
{
    let u: u32 = c as u32;
    (0x09 <= u && u <= 0x0d) || u == 0x20 || u == 0x85 || u == 0xa0 || u == 0x1680 || (0x2000 <= u
        && u <= 0x200a) || u == 0x2028 || u == 0x2029 || u == 0x202f || u == 0x205f || u == 0x3000
}

/// The bounds of `v[from..to]` once leading and trailing whitespace is left
/// out.
pub fn trim_bounds(v: &Vec<char>, from: usize, to: usize) -> (r: (usize, usize))
    requires
        from <= to <= v.len(),
    ensures
        from <= r.0 <= r.1 <= to,
        v@.subrange(r.0 as int, r.1 as int) == trim(v@.subrange(from as int, to as int)),
{
    let ghost s = v@.subrange(from as int, to as int);
    let mut a: usize = from;
    while a < to && is_whitespace_char(v[a])
        invariant
            from <= a <= to <= v.len(),
            s == v@.subrange(from as int, to as int),
            forall|j: int| 0 <= j < a - from ==> is_whitespace(#[trigger] s[j]),
        decreases to - a,
    {
        a = a + 1;
    }
    proof {
        lemma_trim_start_skip(s, a - from);
    }
    let ghost t = s.skip(a - from);
    assert(t =~= v@.subrange(a as int, to as int));
    let mut b: usize = to;
    while b > a && is_whitespace_char(v[b - 1])
        invariant
            a <= b <= to <= v.len(),
            t == v@.subrange(a as int, to as int),
            forall|j: int| b - a <= j < t.len() ==> is_whitespace(#[trigger] t[j]),
        decreases b,
    {
        b = b - 1;
    }
    proof {
        lemma_trim_end_take(t, b - a);
        assert(t.take(b - a) =~= v@.subrange(a as int, b as int));
    }
    (a, b)
}

/// `s` without leading and trailing whitespace.
pub fn trim_str(s: &str) -> (r: String)
    ensures
        r@ == trim(s@),
{
    let v = to_chars(s);
    let (a, b) = trim_bounds(&v, 0, v.len());
    assert(v@.subrange(0, v.len() as int) == v@);
    string_of_range(&v, a, b)
}

/// The characters `v[from..to]` as a vector of their own.
pub fn subvec(v: &Vec<char>, from: usize, to: usize) -> (r: Vec<char>)
    requires
        from <= to <= v.len(),
    ensures
        r@ == v@.subrange(from as int, to as int),
{
    let mut r: Vec<char> = Vec::new();
    let mut i: usize = from;
    while i < to
        invariant
            from <= i <= to <= v.len(),
            r@ == v@.subrange(from as int, i as int),
        decreases to - i,
    {
        r.push(v[i]);
        i = i + 1;
        assert(v@.subrange(from as int, i as int) == v@.subrange(from as int, i - 1).push(
            v@[i - 1],
        ));
    }
    r
}

/// The characters of `s` without leading and trailing whitespace.
pub fn trimmed_chars(s: &str) -> (r: Vec<char>)
    ensures
        r@ == trim(s@),
{
    let v = to_chars(s);
    let (a, b) = trim_bounds(&v, 0, v.len());
    assert(v@.subrange(0, v.len() as int) == v@);
    subvec(&v, a, b)
}

/// The text after the first `n` characters of `v`, trimmed.
pub fn trimmed_rest(v: &Vec<char>, n: usize) -> (r: String)
    requires
        n <= v.len(),
    ensures
        r@ == trim(v@.skip(n as int)),
{
    let (a, b) = trim_bounds(v, n, v.len());
    assert(v@.subrange(n as int, v.len() as int) == v@.skip(n as int));
    string_of_range(v, a, b)
}

/// Whether `v` begins with the characters of `prefix`.
pub fn starts_with(v: &Vec<char>, prefix: &Vec<char>) -> (b: bool)
    ensures
        b == prefix@.is_prefix_of(v@),
{
    assert(v@.skip(0) =~= v@);
    starts_with_at(v, 0, prefix)
}

/// Whether `v[from..]` begins with the characters of `prefix`.
pub fn starts_with_at(v: &Vec<char>, from: usize, prefix: &Vec<char>) -> (b: bool)
    requires
        from <= v.len(),
    ensures
        b == prefix@.is_prefix_of(v@.skip(from as int)),
{
    let n = prefix.len();
    if n > v.len() - from {
        return false;
    }
    let mut i: usize = 0;
    while i < n
        invariant
            0 <= i <= n,
            n == prefix.len(),
            from + n <= v.len(),
            forall|j: int| 0 <= j < i ==> prefix@[j] == v@[from + j],
        decreases n - i,
    {
        if prefix[i] != v[from + i] {
            assert(prefix@[i as int] != v@.skip(from as int)[i as int]);
            return false;
        }
        i = i + 1;
    }
    assert(prefix@ =~= v@.skip(from as int).subrange(0, n as int));
    true
}

/// Whether two character vectors hold the same characters.
pub fn chars_equal(a: &Vec<char>, b: &Vec<char>) -> (r: bool)
    ensures
        r == (a@ == b@),
{
    if a.len() != b.len() {
        return false;
    }
    let r = starts_with_at(a, 0, b);
    proof {
        assert(a@.skip(0) =~= a@);
        if r {
            assert(a@ =~= b@);
        }
    }
    r
}

/// Appends the characters of `src` to `out`.
pub fn append_chars(out: &mut Vec<char>, src: &Vec<char>)
    ensures
        final(out)@ == old(out)@ + src@,
{
    let mut i: usize = 0;
    assert(out@ =~= old(out)@ + src@.take(0));
    while i < src.len()
        invariant
            0 <= i <= src.len(),
            out@ == old(out)@ + src@.take(i as int),
        decreases src.len() - i,
    {
        out.push(src[i]);
        i = i + 1;
        assert(out@ =~= old(out)@ + src@.take(i as int));
    }
    assert(src@.take(i as int) =~= src@);
}

/// `v` with every occurrence of `pattern` replaced by `with`.
pub fn replace_all_chars(v: &Vec<char>, pattern: &Vec<char>, with: &Vec<char>) -> (r: Vec<char>)
    ensures
        r@ == replace_all(v@, pattern@, with@),
{
    let mut out: Vec<char> = Vec::new();
    let n = pattern.len();
    let mut i: usize = 0;
    assert(v@.skip(0) =~= v@);
    assert(out@ + replace_all(v@, pattern@, with@) =~= replace_all(v@, pattern@, with@));
    while i < v.len()
        invariant
            0 <= i <= v.len(),
            n == pattern.len(),
            out@ + replace_all(v@.skip(i as int), pattern@, with@) == replace_all(
                v@,
                pattern@,
                with@,
            ),
        decreases v.len() - i,
    {
        let ghost rest = v@.skip(i as int);
        let ghost before = out@;
        if n == 0 || v.len() - i < n {
            out.push(v[i]);
            proof {
                assert(rest.drop_first() =~= v@.skip(i + 1));
                lemma_replace_all_short(rest, pattern@, with@);
                lemma_replace_all_short(rest.drop_first(), pattern@, with@);
                assert(before + rest =~= out@ + rest.drop_first());
            }
            i = i + 1;
        } else if starts_with_at(v, i, pattern) {
            append_chars(&mut out, with);
            proof {
                assert(rest.skip(n as int) =~= v@.skip(i + n));
                let tail = replace_all(rest.skip(n as int), pattern@, with@);
                assert(before + (with@ + tail) =~= out@ + tail);
            }
            i = i + n;
        } else {
            out.push(v[i]);
            proof {
                assert(rest.drop_first() =~= v@.skip(i + 1));
                let tail = replace_all(rest.drop_first(), pattern@, with@);
                assert(before + (seq![rest[0]] + tail) =~= out@ + tail);
            }
            i = i + 1;
        }
    }
    assert(v@.skip(i as int).len() == 0);
    assert(out@ + v@.skip(i as int) =~= out@);
    out
}

/// `v` with every occurrence of `pattern` taken out.
pub fn remove_all_chars(v: &Vec<char>, pattern: &Vec<char>) -> (r: Vec<char>)
    ensures
        r@ == remove_all(v@, pattern@),
{
    let nothing: Vec<char> = Vec::new();
    replace_all_chars(v, pattern, &nothing)
}

/// `s` with every occurrence of `pattern` replaced by `with`.
pub fn replace_all_str(s: &str, pattern: &str, with: &str) -> (r: String)
    ensures
        r@ == replace_all(s@, pattern@, with@),
{
    from_chars(&replace_all_chars(&to_chars(s), &to_chars(pattern), &to_chars(with)))
}

/// `s` with every occurrence of `pattern` taken out.
pub fn remove_all_str(s: &str, pattern: &str) -> (r: String)
    ensures
        r@ == remove_all(s@, pattern@),
{
    from_chars(&remove_all_chars(&to_chars(s), &to_chars(pattern)))
}

/// Whether `pattern` occurs in `s`.
pub fn contains_str(s: &str, pattern: &str) -> (r: bool)
    ensures
        r == contains_text(s@, pattern@),
{
    let v = to_chars(s);
    let p = to_chars(pattern);
    let mut i: usize = 0;
    while i < v.len()
        invariant
            0 <= i <= v.len(),
            v@ == s@,
            p@ == pattern@,
            forall|j: int| 0 <= j < i ==> !p@.is_prefix_of(#[trigger] v@.skip(j)),
        decreases v.len() - i,
    {
        if starts_with_at(&v, i, &p) {
            return true;
        }
        i = i + 1;
    }
    starts_with_at(&v, i, &p)
}

/// Cuts `s` in front of its byte `mid`, where that does not fall inside a
/// character.
pub fn split_at_byte<'a>(s: &'a str, mid: usize) -> (r: Option<(&'a str, &'a str)>)
    ensures
        r is Some == cuts_at(s@, mid as int),
        r matches Some((a, b)) ==> a@ == head_bytes(s@, mid as int) && b@ == tail_bytes(
            s@,
            mid as int,
        ),
{
    proof {
        encode_utf8_valid_utf8(s@);
    }
    if s.is_char_boundary(mid) {
        let (a, b) = s.split_at(mid);
        proof {
            let bytes = s.spec_bytes();
            assert(bytes.subrange(0, mid as int) =~= bytes.take(mid as int));
            assert(bytes.subrange(mid as int, bytes.len() as int) =~= bytes.skip(mid as int));
            encode_utf8_decode_utf8(a@);
            encode_utf8_decode_utf8(b@);
        }
        Some((a, b))
    } else {
        None
    }
}

/// The strings of `parts` with `sep` between neighbours.
pub fn join_strings(parts: &Vec<String>, sep: &str) -> (r: String)
    ensures
        r@ == join(strings_of(parts@), sep@),
{
    let ghost all = strings_of(parts@);
    let mut r = String::new();
    let mut i: usize = 0;
    assert(all.take(0) =~= Seq::<Seq<char>>::empty());
    while i < parts.len()
        invariant
            0 <= i <= parts.len(),
            all == strings_of(parts@),
            r@ == join(all.take(i as int), sep@),
        decreases parts.len() - i,
    {
        let ghost before = r@;
        if i > 0 {
            r.append(sep);
        }
        r.append(parts[i].as_str());
        i = i + 1;
        proof {
            let now = all.take(i as int);
            assert(now.drop_last() =~= all.take(i - 1));
            assert(now.last() == parts@[i - 1]@);
            if i == 1 {
                assert(Seq::<char>::empty() + parts@[0]@ =~= parts@[0]@);
            }
        }
    }
    assert(all.take(i as int) =~= all);
    r
}

/// Whether two strings hold the same characters.
pub fn str_equal(a: &str, b: &str) -> (r: bool)
    ensures
        r == (a@ == b@),
{
    chars_equal(&to_chars(a), &to_chars(b))
}

/// Whether `s` holds no character.
pub fn str_is_empty(s: &str) -> (r: bool)
    ensures
        r == (s@.len() == 0),
{
    s.unicode_len() == 0
}

/// The lower-case form of an ASCII letter; every other character is itself.
pub fn ascii_lower_char(c: char) -> (r: char)
    ensures
        r == ascii_lower(c),
{
    let u: u32 = c as u32;
    if 0x41 <= u && u <= 0x5a {
        let lower: u8 = (u + 0x20) as u8;
        lower as char
    } else {
        c
    }
}

/// The decimal digit for `d`.
pub fn digit_of(d: u64) -> (c: char)
    requires
        d < 10,
    ensures
        c == digit_char(d as nat),
{
    let code: u8 = (0x30 + d) as u8;
    code as char
}

/// Appends the decimal form of `n` to `out`.
pub fn push_decimal(out: &mut String, n: u64)
    ensures
        final(out)@ == old(out)@ + decimal(n as nat),
    decreases n,
{
    if n >= 10 {
        push_decimal(out, n / 10);
    }
    out.push(digit_of(n % 10));
    proof {
        if n >= 10 {
            assert(old(out)@ + decimal((n / 10) as nat).push(digit_char((n % 10) as nat)) =~= (old(
                out,
            )@ + decimal((n / 10) as nat)).push(digit_char((n % 10) as nat)));
        } else {
            assert(old(out)@ + seq![digit_char(n as nat)] =~= old(out)@.push(digit_char(n as nat)));
        }
    }
}

/// `n` written in decimal.
pub fn decimal_string(n: u64) -> (s: String)
    ensures
        s@ == decimal(n as nat),
{
    let mut s = String::new();
    push_decimal(&mut s, n);
    assert(Seq::<char>::empty() + decimal(n as nat) =~= decimal(n as nat));
    s
}

} // verus!

//! Canonical serialization of a record and location of the nonce
//! placeholder inside it.
//!
//! The canonical form is a deterministic compact text encoding: fields in
//! declared order, strings escaped with stable rules. Serializing once and
//! locating the fixed-width placeholder lets the search splice candidate
//! values in by position instead of re-serializing on every attempt.

use vstd::prelude::*;
use vstd::string::StrSliceExecFns;
use crate::event::{EventView, NostrEvent};
use crate::hexfmt::{dec_chars, dec_digits, digit_char, digit_char_exec};

verus! {

/// How one character is rendered inside a serialized string: quote and
/// backslash get a backslash escape, the named control characters get their
/// short escapes, the remaining control characters a four-digit escape, and
/// every other character stands for itself.
pub open spec fn escape_char(c: char) -> Seq<char> {
    if c == '"' {
        seq!['\\', '"']
    } else if c == '\\' {
        seq!['\\', '\\']
    } else if c == '\u{8}' {
        seq!['\\', 'b']
    } else if c == '\t' {
        seq!['\\', 't']
    } else if c == '\n' {
        seq!['\\', 'n']
    } else if c == '\u{c}' {
        seq!['\\', 'f']
    } else if c == '\r' {
        seq!['\\', 'r']
    } else if (c as u32) < 0x20 {
        seq!['\\', 'u', '0', '0', digit_char((c as u32) as nat / 16), digit_char((c as u32) as nat % 16)]
    } else {
        seq![c]
    }
}

/// The escaped rendering of a whole character sequence.
pub open spec fn escape_chars(s: Seq<char>) -> Seq<char>
    decreases s.len(),
{
    if s.len() == 0 {
        Seq::<char>::empty()
    } else {
        escape_chars(s.drop_last()) + escape_char(s.last())
    }
}

/// A string rendered as a quoted, escaped text.
pub open spec fn json_string_of(s: Seq<char>) -> Seq<char> {
    seq!['"'] + escape_chars(s) + seq!['"']
}

/// The elements of one tag entry, rendered and joined with commas.
pub open spec fn strings_join(t: Seq<Seq<char>>) -> Seq<char>
    decreases t.len(),
{
    if t.len() == 0 {
        Seq::<char>::empty()
    } else if t.len() == 1 {
        json_string_of(t[0])
    } else {
        strings_join(t.drop_last()) + seq![','] + json_string_of(t.last())
    }
}

/// One tag entry rendered as a bracketed list of strings.
pub open spec fn tag_of(t: Seq<Seq<char>>) -> Seq<char> {
    seq!['['] + strings_join(t) + seq![']']
}

/// The rendered tag entries joined with commas.
pub open spec fn tags_join(ts: Seq<Seq<Seq<char>>>) -> Seq<char>
    decreases ts.len(),
{
    if ts.len() == 0 {
        Seq::<char>::empty()
    } else if ts.len() == 1 {
        tag_of(ts[0])
    } else {
        tags_join(ts.drop_last()) + seq![','] + tag_of(ts.last())
    }
}

/// The whole tag sequence rendered as a bracketed list of tag entries.
pub open spec fn tags_of(ts: Seq<Seq<Seq<char>>>) -> Seq<char> {
    seq!['['] + tags_join(ts) + seq![']']
}

/// The canonical serialized form of a record: every field in declared order,
/// stable escaping, no whitespace.
pub open spec fn canon_of(v: EventView) -> Seq<char> {
    "{\"created_at\":"@ + dec_digits(v.created_at as nat) + ",\"kind\":"@ + dec_digits(
        v.kind as nat,
    ) + ",\"tags\":"@ + tags_of(v.tags) + ",\"content\":"@ + json_string_of(v.content)
        + ",\"pubkey\":"@ + json_string_of(v.pubkey) + "}"@
}

/// The marker string of the mutable tag.
pub open spec fn nonce_marker() -> Seq<char> {
    "nonce"@
}

/// The fixed-width placeholder: sixteen zero characters.
pub open spec fn nonce_placeholder() -> Seq<char> {
    "0000000000000000"@
}

/// The literal pattern that associates the marker with the placeholder in
/// the canonical serialization.
pub open spec fn nonce_pattern() -> Seq<char> {
    "\"nonce\",\"0000000000000000\""@
}

/// Offset of the placeholder's first character within the pattern.
pub open spec fn pattern_value_offset() -> int {
    9
}

/// The pattern occurs in `text` starting at position `i`.
pub open spec fn occurs_at(text: Seq<char>, pat: Seq<char>, i: int) -> bool {
    0 <= i && i + pat.len() <= text.len() && text.subrange(i, i + pat.len() as int) == pat
}

/// `i` is the first position at which the pattern occurs.
pub open spec fn is_first_occurrence(text: Seq<char>, pat: Seq<char>, i: int) -> bool {
    occurs_at(text, pat, i) && forall|j: int| 0 <= j < i ==> !occurs_at(text, pat, j)
}

/// A character that is rendered as itself.
pub open spec fn plain_char(c: char) -> bool {
    c != '"' && c != '\\' && (c as u32) >= 0x20
}

/// A sequence of plain characters escapes to itself.
pub proof fn lemma_escape_plain(s: Seq<char>)
    requires
        forall|i: int| 0 <= i < s.len() ==> plain_char(s[i]),
    ensures
        escape_chars(s) == s,
    decreases s.len(),
{
    if s.len() > 0 {
        lemma_escape_plain(s.drop_last());
        assert(plain_char(s.last()));
        assert(escape_char(s.last()) =~= seq![s.last()]);
        assert(escape_chars(s) =~= s);
    } else {
        assert(escape_chars(s) =~= s);
    }
}

/// Appending one character extends the escaped rendering by that
/// character's escape.
proof fn lemma_escape_snoc(s: Seq<char>, i: int)
    requires
        0 <= i < s.len(),
    ensures
        escape_chars(s.take(i + 1)) == escape_chars(s.take(i)) + escape_char(s[i]),
{
    let t = s.take(i + 1);
    assert(t.drop_last() =~= s.take(i));
    assert(t.last() == s[i]);
}

/// Joining one more rendered string.
proof fn lemma_strings_join_snoc(t: Seq<Seq<char>>, i: int)
    requires
        0 <= i < t.len(),
    ensures
        i == 0 ==> strings_join(t.take(1)) == json_string_of(t[0]),
        i > 0 ==> strings_join(t.take(i + 1)) == strings_join(t.take(i)) + seq![',']
            + json_string_of(t[i]),
{
    let u = t.take(i + 1);
    assert(u.last() == t[i]);
    if i == 0 {
        assert(u.len() == 1);
    } else {
        assert(u.drop_last() =~= t.take(i));
    }
}

/// Joining one more rendered tag entry.
proof fn lemma_tags_join_snoc(ts: Seq<Seq<Seq<char>>>, i: int)
    requires
        0 <= i < ts.len(),
    ensures
        i == 0 ==> tags_join(ts.take(1)) == tag_of(ts[0]),
        i > 0 ==> tags_join(ts.take(i + 1)) == tags_join(ts.take(i)) + seq![','] + tag_of(ts[i]),
{
    let u = ts.take(i + 1);
    assert(u.last() == ts[i]);
    if i == 0 {
        assert(u.len() == 1);
    } else {
        assert(u.drop_last() =~= ts.take(i));
    }
}

/// The nonce tag entry renders to the bracketed pattern.
pub proof fn lemma_nonce_tag_rendering()
    ensures
        tag_of(seq![nonce_marker(), nonce_placeholder()]) == seq!['['] + nonce_pattern()
            + seq![']'],
{
    reveal_strlit("nonce");
    reveal_strlit("0000000000000000");
    reveal_strlit("\"nonce\",\"0000000000000000\"");
    let t = seq![nonce_marker(), nonce_placeholder()];
    assert(forall|i: int| 0 <= i < nonce_marker().len() ==> plain_char(nonce_marker()[i]));
    assert(forall|i: int|
        0 <= i < nonce_placeholder().len() ==> plain_char(nonce_placeholder()[i]));
    lemma_escape_plain(nonce_marker());
    lemma_escape_plain(nonce_placeholder());
    assert(t.drop_last() =~= seq![nonce_marker()]);
    assert(strings_join(seq![nonce_marker()]) == json_string_of(nonce_marker()));
    assert(strings_join(t) == json_string_of(nonce_marker()) + seq![','] + json_string_of(
        nonce_placeholder(),
    ));
    assert(strings_join(t) =~= nonce_pattern());
    assert(tag_of(t) =~= seq!['['] + nonce_pattern() + seq![']']);
}

/// Law: for a record whose last tag entry is the nonce tag, the canonical
/// serialization contains the marker/placeholder pattern.
pub proof fn lemma_pattern_in_canon(v: EventView)
    requires
        v.tags.len() >= 1,
        v.tags.last() == seq![nonce_marker(), nonce_placeholder()],
    ensures
        exists|i: int| occurs_at(canon_of(v), nonce_pattern(), i),
{
    lemma_nonce_tag_rendering();
    let ts = v.tags;
    let lead = if ts.len() == 1 {
        Seq::<char>::empty()
    } else {
        tags_join(ts.drop_last()) + seq![',']
    };
    assert(tags_join(ts) == lead + tag_of(ts.last())) by {
        if ts.len() == 1 {
            assert(ts[0] == ts.last());
            assert(tags_join(ts) =~= lead + tag_of(ts.last()));
        }
    }
    let head = "{\"created_at\":"@ + dec_digits(v.created_at as nat) + ",\"kind\":"@ + dec_digits(
        v.kind as nat,
    ) + ",\"tags\":"@;
    let tail = ",\"content\":"@ + json_string_of(v.content) + ",\"pubkey\":"@ + json_string_of(
        v.pubkey,
    ) + "}"@;
    let pre = head + seq!['['] + lead + seq!['['];
    let post = seq![']'] + seq![']'] + tail;
    assert(canon_of(v) =~= pre + nonce_pattern() + post);
    let i = pre.len() as int;
    assert(canon_of(v).subrange(i, i + nonce_pattern().len() as int) =~= nonce_pattern());
    assert(occurs_at(canon_of(v), nonce_pattern(), i));
}

/// Law: wherever the pattern occurs, the sixteen characters after the
/// marker part are the placeholder, and splicing the placeholder back into
/// that window reproduces the serialization byte for byte.
pub proof fn lemma_round_trip(s: Seq<char>, i: int)
    requires
        occurs_at(s, nonce_pattern(), i),
    ensures
        s.subrange(i + 9, i + 25) == nonce_placeholder(),
        s == s.subrange(0, i + 9) + nonce_placeholder() + s.subrange(i + 25, s.len() as int),
{
    reveal_strlit("0000000000000000");
    reveal_strlit("\"nonce\",\"0000000000000000\"");
    let pat = nonce_pattern();
    let sub = s.subrange(i, i + 26);
    assert(sub == pat);
    assert forall|k: int| 0 <= k < 16 implies s.subrange(i + 9, i + 25)[k]
        == nonce_placeholder()[k] by {
        let m = 9 + k;
        assert(sub[m] == s[i + m]);
        assert(pat[m] == '0');
        assert(nonce_placeholder()[k] == '0');
        assert(s.subrange(i + 9, i + 25)[k] == s[i + 9 + k]);
        assert(i + 9 + k == i + m);
    }
    assert(s.subrange(i + 9, i + 25) =~= nonce_placeholder());
    let spliced = s.subrange(0, i + 9) + nonce_placeholder() + s.subrange(i + 25, s.len() as int);
    assert forall|x: int| 0 <= x < s.len() implies spliced[x] == s[x] by {
        if i + 9 <= x < i + 25 {
            let m = x - i;
            assert(sub[m] == s[i + m]);
            assert(pat[m] == '0');
            assert(nonce_placeholder()[x - (i + 9)] == '0');
            assert(i + m == x);
        }
    }
    assert(s =~= spliced);
}

/// Whether the pattern occurs at position `i` of the text.
fn matches_at(text: &Vec<char>, pat: &Vec<char>, i: usize) -> (b: bool)
    requires
        i + pat@.len() <= text@.len(),
    ensures
        b <==> occurs_at(text@, pat@, i as int),
{
    let text_len = text.len();
    let mut k: usize = 0;
    while k < pat.len()
        invariant
            text_len == text@.len(),
            i + pat@.len() <= text@.len(),
            0 <= k <= pat@.len(),
            forall|m: int| 0 <= m < k ==> text@[i + m] == pat@[m],
        decreases pat@.len() - k,
    {
        if text[i + k] != pat[k] {
            proof {
                if occurs_at(text@, pat@, i as int) {
                    assert(text@.subrange(i as int, i + pat@.len() as int)[k as int] == pat@[k as int]);
                }
            }
            return false;
        }
        k = k + 1;
    }
    proof {
        assert(text@.subrange(i as int, i + pat@.len() as int) =~= pat@);
    }
    true
}

/// First occurrence of `pat` in `text`, scanning left to right.
pub fn find_substring(text: &Vec<char>, pat: &Vec<char>) -> (r: Option<usize>)
    ensures
        match r {
            Some(i) => is_first_occurrence(text@, pat@, i as int),
            None => forall|j: int| !occurs_at(text@, pat@, j),
        },
{
    if pat.len() == 0 {
        proof {
            assert(text@.subrange(0, 0) =~= pat@);
        }
        return Some(0);
    }
    if pat.len() > text.len() {
        return None;
    }
    let limit = text.len() - pat.len();
    let mut i: usize = 0;
    loop
        invariant
            1 <= pat@.len() <= text@.len(),
            text@.len() <= usize::MAX,
            limit == text@.len() - pat@.len(),
            0 <= i <= limit + 1,
            forall|j: int| 0 <= j < i ==> !occurs_at(text@, pat@, j),
        decreases limit + 1 - i,
    {
        if i > limit {
            return None;
        }
        if matches_at(text, pat, i) {
            return Some(i);
        }
        i = i + 1;
    }
}

/// Appends every character of `src` to `dst`.
pub fn extend_chars(dst: &mut Vec<char>, src: &Vec<char>)
    ensures
        final(dst)@ == old(dst)@ + src@,
{
    let mut i: usize = 0;
    proof {
        assert(dst@ =~= old(dst)@ + src@.take(0));
    }
    while i < src.len()
        invariant
            0 <= i <= src@.len(),
            dst@ == old(dst)@ + src@.take(i as int),
        decreases src@.len() - i,
    {
        dst.push(src[i]);
        proof {
            assert(old(dst)@ + src@.take(i as int) + seq![src@[i as int]] =~= old(dst)@
                + src@.take(i + 1));
        }
        i = i + 1;
    }
    proof {
        assert(src@.take(src@.len() as int) =~= src@);
    }
}

/// Appends every character of the string slice to the buffer.
pub(crate) fn push_str_chars(buf: &mut Vec<char>, s: &str)
    ensures
        final(buf)@ == old(buf)@ + s@,
{
    let n = s.unicode_len();
    let mut i: usize = 0;
    proof {
        assert(buf@ =~= old(buf)@ + s@.take(0));
    }
    while i < n
        invariant
            n == s@.len(),
            0 <= i <= n,
            buf@ == old(buf)@ + s@.take(i as int),
        decreases n - i,
    {
        let c = s.get_char(i);
        buf.push(c);
        proof {
            assert(old(buf)@ + s@.take(i as int) + seq![s@[i as int]] =~= old(buf)@ + s@.take(
                i + 1,
            ));
        }
        i = i + 1;
    }
    proof {
        assert(s@.take(n as int) =~= s@);
    }
}

/// Appends the escaped rendering of the string slice to the buffer.
fn push_escaped(buf: &mut Vec<char>, s: &str)
    ensures
        final(buf)@ == old(buf)@ + escape_chars(s@),
{
    let n = s.unicode_len();
    let mut i: usize = 0;
    proof {
        assert(escape_chars(s@.take(0)) =~= Seq::<char>::empty());
        assert(buf@ =~= old(buf)@ + escape_chars(s@.take(0)));
    }
    while i < n
        invariant
            n == s@.len(),
            0 <= i <= n,
            buf@ == old(buf)@ + escape_chars(s@.take(i as int)),
        decreases n - i,
    {
        let ghost prev = buf@;
        let c = s.get_char(i);
        if c == '"' {
            buf.push('\\');
            buf.push('"');
            proof {
                assert(buf@ =~= prev + escape_char(c));
            }
        } else if c == '\\' {
            buf.push('\\');
            buf.push('\\');
            proof {
                assert(buf@ =~= prev + escape_char(c));
            }
        } else if c == '\u{8}' {
            buf.push('\\');
            buf.push('b');
            proof {
                assert(buf@ =~= prev + escape_char(c));
            }
        } else if c == '\t' {
            buf.push('\\');
            buf.push('t');
            proof {
                assert(buf@ =~= prev + escape_char(c));
            }
        } else if c == '\n' {
            buf.push('\\');
            buf.push('n');
            proof {
                assert(buf@ =~= prev + escape_char(c));
            }
        } else if c == '\u{c}' {
            buf.push('\\');
            buf.push('f');
            proof {
                assert(buf@ =~= prev + escape_char(c));
            }
        } else if c == '\r' {
            buf.push('\\');
            buf.push('r');
            proof {
                assert(buf@ =~= prev + escape_char(c));
            }
        } else if (c as u32) < 0x20 {
            let cu = c as u32;
            buf.push('\\');
            buf.push('u');
            buf.push('0');
            buf.push('0');
            buf.push(digit_char_exec((cu / 16) as u64));
            buf.push(digit_char_exec((cu % 16) as u64));
            proof {
                assert(buf@ =~= prev + escape_char(c));
            }
        } else {
            buf.push(c);
            proof {
                assert(buf@ =~= prev + escape_char(c));
            }
        }
        proof {
            lemma_escape_snoc(s@, i as int);
            assert(buf@ =~= old(buf)@ + escape_chars(s@.take(i + 1)));
        }
        i = i + 1;
    }
    proof {
        assert(s@.take(n as int) =~= s@);
    }
}

/// Appends the quoted, escaped rendering of the string slice.
fn push_json_string(buf: &mut Vec<char>, s: &str)
    ensures
        final(buf)@ == old(buf)@ + json_string_of(s@),
{
    buf.push('"');
    push_escaped(buf, s);
    buf.push('"');
    proof {
        assert(buf@ =~= old(buf)@ + json_string_of(s@));
    }
}

/// Appends the rendering of one tag entry.
fn push_tag(buf: &mut Vec<char>, t: &Vec<String>)
    ensures
        final(buf)@ == old(buf)@ + tag_of(t.deep_view()),
{
    buf.push('[');
    let mut i: usize = 0;
    proof {
        assert(strings_join(t.deep_view().take(0)) =~= Seq::<char>::empty());
        assert(buf@ =~= old(buf)@ + seq!['['] + strings_join(t.deep_view().take(0)));
    }
    while i < t.len()
        invariant
            t.deep_view().len() == t@.len(),
            0 <= i <= t@.len(),
            buf@ == old(buf)@ + seq!['['] + strings_join(t.deep_view().take(i as int)),
        decreases t@.len() - i,
    {
        let ghost prev = buf@;
        if i > 0 {
            buf.push(',');
        }
        push_json_string(buf, t[i].as_str());
        proof {
            assert(t.deep_view()[i as int] == t@[i as int]@);
            lemma_strings_join_snoc(t.deep_view(), i as int);
            assert(buf@ =~= old(buf)@ + seq!['['] + strings_join(t.deep_view().take(i + 1)));
        }
        i = i + 1;
    }
    buf.push(']');
    proof {
        assert(t.deep_view().take(t@.len() as int) =~= t.deep_view());
        assert(buf@ =~= old(buf)@ + tag_of(t.deep_view()));
    }
}

/// Appends the rendering of the whole tag sequence.
fn push_tags(buf: &mut Vec<char>, tags: &Vec<Vec<String>>)
    ensures
        final(buf)@ == old(buf)@ + tags_of(tags.deep_view()),
{
    buf.push('[');
    let mut i: usize = 0;
    proof {
        assert(tags_join(tags.deep_view().take(0)) =~= Seq::<char>::empty());
        assert(buf@ =~= old(buf)@ + seq!['['] + tags_join(tags.deep_view().take(0)));
    }
    while i < tags.len()
        invariant
            tags.deep_view().len() == tags@.len(),
            0 <= i <= tags@.len(),
            buf@ == old(buf)@ + seq!['['] + tags_join(tags.deep_view().take(i as int)),
        decreases tags@.len() - i,
    {
        if i > 0 {
            buf.push(',');
        }
        push_tag(buf, &tags[i]);
        proof {
            assert(tags.deep_view()[i as int] == tags@[i as int].deep_view());
            lemma_tags_join_snoc(tags.deep_view(), i as int);
            assert(buf@ =~= old(buf)@ + seq!['['] + tags_join(tags.deep_view().take(i + 1)));
        }
        i = i + 1;
    }
    buf.push(']');
    proof {
        assert(tags.deep_view().take(tags@.len() as int) =~= tags.deep_view());
        assert(buf@ =~= old(buf)@ + tags_of(tags.deep_view()));
    }
}

/// Produces the canonical serialized form of the record.
pub fn canonicalize(e: &NostrEvent) -> (r: Vec<char>)
    ensures
        r@ == canon_of(e@),
{
    let mut buf: Vec<char> = Vec::new();
    push_str_chars(&mut buf, "{\"created_at\":");
    let created = dec_chars(e.created_at);
    extend_chars(&mut buf, &created);
    push_str_chars(&mut buf, ",\"kind\":");
    let kind = dec_chars(e.kind as u64);
    extend_chars(&mut buf, &kind);
    push_str_chars(&mut buf, ",\"tags\":");
    push_tags(&mut buf, &e.tags);
    push_str_chars(&mut buf, ",\"content\":");
    push_json_string(&mut buf, e.content.as_str());
    push_str_chars(&mut buf, ",\"pubkey\":");
    push_json_string(&mut buf, e.pubkey.as_str());
    push_str_chars(&mut buf, "}");
    proof {
        assert(buf@ =~= canon_of(e@));
    }
    buf
}

} // verus!

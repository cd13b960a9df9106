//! Text as sequences of characters.
//!
//! Strings cross the library's border as `String` and `&str`; inside, the
//! work is done on vectors of characters, whose view is the `Seq<char>` that
//! the contracts speak of.

use vstd::prelude::*;
use vstd::string::*;

verus! {

/// `String::push` of std: appends one character to the string.
#[verifier::external_body]
fn push_char(s: &mut String, c: char)
    ensures
        final(s)@ == old(s)@.push(c),
{
    s.push(c);
}

/// The characters of `s`, in order.
pub fn to_chars(s: &str) -> (out: Vec<char>)
    ensures
        out@ == s@,
{
    let n = s.unicode_len();
    let mut out: Vec<char> = Vec::new();
    let mut i: usize = 0;
    while i < n
        invariant
            n == s@.len(),
            i <= n,
            out@ == s@.subrange(0, i as int),
        decreases n - i,
    {
        let c = s.get_char(i);
        out.push(c);
        i = i + 1;
        assert(out@ == s@.subrange(0, i as int));
    }
    assert(s@.subrange(0, n as int) == s@);
    out
}

/// The string made of the characters of `chars`, in order.
pub fn from_chars(chars: &Vec<char>) -> (out: String)
    ensures
        out@ == chars@,
{
    let mut out = String::new();
    let mut i: usize = 0;
    while i < chars.len()
        invariant
            i <= chars.len(),
            out@ == chars@.subrange(0, i as int),
        decreases chars.len() - i,
    {
        push_char(&mut out, chars[i]);
        i = i + 1;
        assert(out@ == chars@.subrange(0, i as int));
    }
    assert(chars@.subrange(0, chars.len() as int) == chars@);
    out
}

/// Whether `a` and `b` hold the same characters.
pub fn same_chars(a: &Vec<char>, b: &Vec<char>) -> (same: bool)
    ensures
        same == (a@ == b@),
{
    if a.len() != b.len() {
        return false;
    }
    let mut i: usize = 0;
    while i < a.len()
        invariant
            a.len() == b.len(),
            i <= a.len(),
            a@.subrange(0, i as int) == b@.subrange(0, i as int),
        decreases a.len() - i,
    {
        if a[i] != b[i] {
            return false;
        }
        i = i + 1;
        assert(a@.subrange(0, i as int) == a@.subrange(0, i - 1).push(a@[i - 1]));
        assert(b@.subrange(0, i as int) == b@.subrange(0, i - 1).push(b@[i - 1]));
    }
    assert(a@.subrange(0, a.len() as int) == a@);
    assert(b@.subrange(0, b.len() as int) == b@);
    true
}

/// Whether `a` and `b` are the same text.
pub fn same_text(a: &str, b: &str) -> (same: bool)
    ensures
        same == (a@ == b@),
{
    let x = to_chars(a);
    let y = to_chars(b);
    same_chars(&x, &y)
}

/// Appends the characters of `tail` to `out`.
pub fn append_chars(out: &mut Vec<char>, tail: &Vec<char>)
    ensures
        final(out)@ == old(out)@ + tail@,
{
    let mut i: usize = 0;
    while i < tail.len()
        invariant
            i <= tail.len(),
            out@ == old(out)@ + tail@.subrange(0, i as int),
        decreases tail.len() - i,
    {
        out.push(tail[i]);
        i = i + 1;
        assert(out@ == old(out)@ + tail@.subrange(0, i as int));
    }
    assert(tail@.subrange(0, tail.len() as int) == tail@);
}

/// Appends the characters of `tail` to `out`.
pub fn append_str(out: &mut Vec<char>, tail: &str)
    ensures
        final(out)@ == old(out)@ + tail@,
{
    let t = to_chars(tail);
    append_chars(out, &t);
}

/// Whether `token` stands in `text` at position `at`.
pub open spec fn occurs_at(text: Seq<char>, token: Seq<char>, at: int) -> bool {
    0 <= at && at + token.len() <= text.len() && text.subrange(at, at + token.len()) == token
}

/// `text` with each occurrence of `token` replaced by `value`. Occurrences
/// are found from the left and do not overlap; what was put in is not
/// searched again. An empty token occurs nowhere.
pub open spec fn replace_all(text: Seq<char>, token: Seq<char>, value: Seq<char>) -> Seq<char>
    decreases text.len(),
{
    if token.len() == 0 || text.len() < token.len() {
        text
    } else if occurs_at(text, token, 0) {
        value + replace_all(text.skip(token.len() as int), token, value)
    } else {
        seq![text[0]] + replace_all(text.skip(1), token, value)
    }
}

/// Whether `token` stands in `text` at position `at`.
fn matches_at(text: &Vec<char>, token: &Vec<char>, at: usize) -> (found: bool)
    requires
        at + token.len() <= text.len(),
    ensures
        found == occurs_at(text@, token@, at as int),
{
    let mut j: usize = 0;
    while j < token.len()
        invariant
            at + token.len() <= text.len(),
            j <= token.len(),
            text@.subrange(at as int, at + j) == token@.subrange(0, j as int),
        decreases token.len() - j,
    {
        if text[at + j] != token[j] {
            assert(text@.subrange(at as int, at + token.len())[j as int] != token@[j as int]);
            return false;
        }
        j = j + 1;
        assert(text@.subrange(at as int, at + j) == text@.subrange(at as int, at + j - 1).push(
            text@[at + j - 1],
        ));
        assert(token@.subrange(0, j as int) == token@.subrange(0, j - 1).push(token@[j - 1]));
    }
    assert(token@.subrange(0, token.len() as int) == token@);
    true
}

/// Replaces each occurrence of `token` in `text` by `value`.
pub fn replace_chars(text: &Vec<char>, token: &Vec<char>, value: &Vec<char>) -> (out: Vec<char>)
    ensures
        out@ == replace_all(text@, token@, value@),
{
    let mut out: Vec<char> = Vec::new();
    if token.len() == 0 {
        append_chars(&mut out, text);
        return out;
    }
    let mut i: usize = 0;
    assert(text@.skip(0) == text@);
    assert(out@ + replace_all(text@, token@, value@) == replace_all(text@, token@, value@));
    while i < text.len() && text.len() - i >= token.len()
        invariant
            token.len() > 0,
            i <= text.len(),
            out@ + replace_all(text@.skip(i as int), token@, value@) == replace_all(
                text@,
                token@,
                value@,
            ),
        decreases text.len() - i,
    {
        let ghost rest = text@.skip(i as int);
        if matches_at(text, token, i) {
            assert(rest.subrange(0, token.len() as int) == text@.subrange(
                i as int,
                i + token.len(),
            ));
            assert(rest.skip(token.len() as int) == text@.skip(i + token.len()));
            let ghost before = out@;
            append_chars(&mut out, value);
            i = i + token.len();
            assert(out@ + replace_all(text@.skip(i as int), token@, value@) == before + (value@
                + replace_all(text@.skip(i as int), token@, value@)));
        } else {
            assert(rest.subrange(0, token.len() as int) == text@.subrange(
                i as int,
                i + token.len(),
            ));
            assert(rest.skip(1) == text@.skip(i + 1));
            let ghost before = out@;
            out.push(text[i]);
            i = i + 1;
            assert(out@ + replace_all(text@.skip(i as int), token@, value@) == before + (seq![
                rest[0],
            ] + replace_all(text@.skip(i as int), token@, value@)));
        }
    }
    let ghost rest = text@.skip(i as int);
    assert(replace_all(rest, token@, value@) == rest);
    let ghost before = out@;
    let start = i;
    while i < text.len()
        invariant
            start <= i <= text.len(),
            out@ == before + text@.subrange(start as int, i as int),
        decreases text.len() - i,
    {
        out.push(text[i]);
        i = i + 1;
        assert(out@ == before + text@.subrange(start as int, i as int));
    }
    assert(text@.subrange(start as int, text.len() as int) == rest);
    out
}

/// The place of the first `c` in `s`; the length of `s` where it holds
/// none.
pub open spec fn index_of(s: Seq<char>, c: char) -> int
    decreases s.len(),
{
    if s.len() == 0 || s[0] == c {
        0
    } else {
        1 + index_of(s.skip(1), c)
    }
}

/// The pieces of `s` between the occurrences of `sep`. A text without
/// `sep` is one piece; two occurrences side by side hold an empty piece.
pub open spec fn split_on(s: Seq<char>, sep: char) -> Seq<Seq<char>>
    decreases s.len(),
{
    let k = index_of(s, sep);
    if 0 <= k < s.len() {
        seq![s.subrange(0, k)] + split_on(s.skip(k + 1), sep)
    } else {
        seq![s]
    }
}

/// Where no `c` stands before `k` in `s`, and one stands at `k` or `k` is
/// the length of `s`, the first `c` stands at `k`.
pub proof fn lemma_index_of(s: Seq<char>, c: char, k: int)
    requires
        0 <= k <= s.len(),
        forall|j: int| 0 <= j < k ==> s[j] != c,
        k == s.len() || s[k] == c,
    ensures
        index_of(s, c) == k,
    decreases k,
{
    if k > 0 {
        let rest = s.skip(1);
        assert forall|j: int| 0 <= j < k - 1 implies rest[j] != c by {
            assert(rest[j] == s[j + 1]);
        }
        lemma_index_of(rest, c, k - 1);
    }
}

/// The views of the pieces `pieces`.
pub open spec fn pieces_view(pieces: Seq<Vec<char>>) -> Seq<Seq<char>> {
    pieces.map_values(|p: Vec<char>| p@)
}

/// The pieces of `s` between the occurrences of `sep`.
pub fn split_chars(s: &Vec<char>, sep: char) -> (pieces: Vec<Vec<char>>)
    ensures
        pieces_view(pieces@) == split_on(s@, sep),
{
    let mut pieces: Vec<Vec<char>> = Vec::new();
    let mut piece: Vec<char> = Vec::new();
    let mut start: usize = 0;
    let mut i: usize = 0;
    assert(s@.skip(0) == s@);
    assert(pieces_view(pieces@) + split_on(s@, sep) == split_on(s@, sep));
    while i < s.len()
        invariant
            start <= i <= s.len(),
            piece@ == s@.subrange(start as int, i as int),
            forall|j: int| start <= j < i ==> s@[j] != sep,
            pieces_view(pieces@) + split_on(s@.skip(start as int), sep) == split_on(s@, sep),
        decreases s.len() - i,
    {
        if s[i] == sep {
            proof {
                let rest = s@.skip(start as int);
                assert forall|j: int| 0 <= j < i - start implies rest[j] != sep by {
                    assert(rest[j] == s@[start + j]);
                }
                lemma_index_of(rest, sep, i - start);
                assert(rest.subrange(0, i - start) == piece@);
                assert(rest.skip(i - start + 1) == s@.skip(i + 1));
            }
            let ghost before = pieces@;
            pieces.push(piece);
            assert(pieces_view(pieces@) == pieces_view(before) + seq![
                s@.subrange(start as int, i as int),
            ]);
            assert(pieces_view(pieces@) + split_on(s@.skip(i + 1), sep) == pieces_view(before) + (
            seq![s@.subrange(start as int, i as int)] + split_on(s@.skip(i + 1), sep)));
            piece = Vec::new();
            start = i + 1;
            i = i + 1;
            assert(piece@ == s@.subrange(start as int, i as int));
        } else {
            piece.push(s[i]);
            i = i + 1;
            assert(piece@ == s@.subrange(start as int, i as int));
        }
    }
    proof {
        let rest = s@.skip(start as int);
        assert forall|j: int| 0 <= j < rest.len() implies rest[j] != sep by {
            assert(rest[j] == s@[start + j]);
        }
        lemma_index_of(rest, sep, rest.len() as int);
        assert(rest == piece@);
    }
    let ghost before = pieces@;
    pieces.push(piece);
    assert(pieces_view(pieces@) == pieces_view(before) + seq![s@.skip(start as int)]);
    pieces
}

} // verus!

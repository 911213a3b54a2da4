//! Character-level helpers for reading trace lines: whitespace splitting,
//! splitting on a separator, literal comparison and byte-offset slicing.
use vstd::prelude::*;
use vstd::string::*;
use vstd::utf8::*;

verus! {

broadcast use {encode_utf8_valid_utf8, encode_utf8_decode_utf8};

/// The Unicode `White_Space` property, which `char::is_whitespace` (and so
/// `str::split_whitespace`) tests.
pub open spec fn is_white_space(c: char) -> bool {
    let u = c as u32;
    ||| 0x9 <= u <= 0xD
    ||| u == 0x20
    ||| u == 0x85
    ||| u == 0xA0
    ||| u == 0x1680
    ||| 0x2000 <= u <= 0x200A
    ||| u == 0x2028
    ||| u == 0x2029
    ||| u == 0x202F
    ||| u == 0x205F
    ||| u == 0x3000
}

/// Executable test of the `White_Space` property.
pub fn white_space(c: char) -> (r: bool)
    ensures
        r == is_white_space(c),
{
    let u = c as u32;
    (0x9 <= u && u <= 0xD) || u == 0x20 || u == 0x85 || u == 0xA0 || u == 0x1680 || (0x2000 <= u
        && u <= 0x200A) || u == 0x2028 || u == 0x2029 || u == 0x202F || u == 0x205F || u == 0x3000
}

/// The character views of a sequence of strings.
pub open spec fn views(v: Seq<String>) -> Seq<Seq<char>> {
    v.map_values(|x: String| x@)
}

/// The words of `s`: its maximal runs of non-whitespace characters, in order
/// (see `lemma_words_are_runs`). Defined by reading `s` one character at a time from the left: whitespace
/// ends the current word, any other character extends the word that the
/// previous character belongs to or starts a new one.
pub open spec fn words(s: Seq<char>) -> Seq<Seq<char>>
    decreases s.len(),
{
    if s.len() == 0 {
        seq![]
    } else {
        let prev = words(s.drop_last());
        let c = s.last();
        if is_white_space(c) {
            prev
        } else if s.len() >= 2 && !is_white_space(s[s.len() - 2]) {
            prev.update(prev.len() - 1, prev.last().push(c))
        } else {
            prev.push(seq![c])
        }
    }
}

/// The pieces of `s` between occurrences of `sep`, in order; pieces may be
/// empty (see `lemma_split_on_pieces`).
pub open spec fn split_on(s: Seq<char>, sep: char) -> Seq<Seq<char>>
    decreases s.len(),
{
    if s.len() == 0 {
        seq![seq![]]
    } else {
        let prev = split_on(s.drop_last(), sep);
        if s.last() == sep {
            prev.push(seq![])
        } else {
            prev.update(prev.len() - 1, prev.last().push(s.last()))
        }
    }
}

/// The pieces joined back together with `sep` between each two of them.
pub open spec fn joined(pieces: Seq<Seq<char>>, sep: char) -> Seq<char>
    decreases pieces.len(),
{
    if pieces.len() == 0 {
        seq![]
    } else if pieces.len() == 1 {
        pieces[0]
    } else {
        joined(pieces.drop_last(), sep) + seq![sep] + pieces.last()
    }
}

proof fn lemma_joined_extend_last(p: Seq<Seq<char>>, sep: char, c: char)
    requires
        p.len() >= 1,
    ensures
        joined(p.update(p.len() - 1, p.last().push(c)), sep) == joined(p, sep).push(c),
{
    let q = p.update(p.len() - 1, p.last().push(c));
    if p.len() > 1 {
        assert(q.drop_last() =~= p.drop_last());
        assert(joined(q, sep) =~= joined(p, sep).push(c));
    }
}

/// Splitting loses nothing: the pieces of `s`, joined back with `sep`, give
/// `s` again (and no piece holds `sep`: see `lemma_split_on_pieces`).
pub proof fn lemma_split_on_rejoins(s: Seq<char>, sep: char)
    ensures
        joined(split_on(s, sep), sep) == s,
    decreases s.len(),
{
    if s.len() == 0 {
        assert(joined(split_on(s, sep), sep) =~= s);
    } else {
        lemma_split_on_rejoins(s.drop_last(), sep);
        lemma_split_on_nonempty(s.drop_last(), sep);
        let prev = split_on(s.drop_last(), sep);
        if s.last() == sep {
            let next = prev.push(seq![]);
            assert(next.drop_last() =~= prev);
            assert(joined(next, sep) =~= s);
        } else {
            lemma_joined_extend_last(prev, sep, s.last());
            assert(s.drop_last().push(s.last()) =~= s);
        }
    }
}

/// `split_on` never yields an empty list of pieces.
pub proof fn lemma_split_on_nonempty(s: Seq<char>, sep: char)
    ensures
        split_on(s, sep).len() >= 1,
    decreases s.len(),
{
    if s.len() > 0 {
        lemma_split_on_nonempty(s.drop_last(), sep);
    }
}

/// How many times `c` occurs in `s`.
pub open spec fn occurrences(s: Seq<char>, c: char) -> nat
    decreases s.len(),
{
    if s.len() == 0 {
        0
    } else {
        occurrences(s.drop_last(), c) + if s.last() == c {
            1nat
        } else {
            0nat
        }
    }
}

/// Splitting on `sep` gives one piece more than `s` has separators, and no
/// piece holds a separator.
pub proof fn lemma_split_on_pieces(s: Seq<char>, sep: char)
    ensures
        split_on(s, sep).len() == occurrences(s, sep) + 1,
        forall|i: int, j: int|
            0 <= i < split_on(s, sep).len() && 0 <= j < split_on(s, sep)[i].len() ==> split_on(
                s,
                sep,
            )[i][j] != sep,
    decreases s.len(),
{
    if s.len() > 0 {
        lemma_split_on_pieces(s.drop_last(), sep);
        lemma_split_on_nonempty(s.drop_last(), sep);
        let prev = split_on(s.drop_last(), sep);
        if s.last() != sep {
            let p = split_on(s, sep);
            assert forall|i: int, j: int| 0 <= i < p.len() && 0 <= j < p[i].len() implies p[i][j]
                != sep by {
                if i == prev.len() - 1 {
                    if j < prev.last().len() {
                        assert(p[i][j] == prev[i][j]);
                    }
                } else {
                    assert(p[i] == prev[i]);
                }
            }
        }
    }
}

/// Every word is a non-empty run of characters that are not whitespace.
pub proof fn lemma_words_are_runs(s: Seq<char>)
    ensures
        forall|i: int| 0 <= i < words(s).len() ==> #[trigger] words(s)[i].len() > 0,
        forall|i: int, j: int|
            0 <= i < words(s).len() && 0 <= j < words(s)[i].len() ==> !is_white_space(
                words(s)[i][j],
            ),
    decreases s.len(),
{
    if s.len() > 0 {
        lemma_words_are_runs(s.drop_last());
        let prev = words(s.drop_last());
        let w = words(s);
        let c = s.last();
        if !is_white_space(c) && s.len() >= 2 && !is_white_space(s[s.len() - 2]) {
            // the previous character belongs to the last word of `prev`
            lemma_words_last_char(s.drop_last());
            assert forall|i: int| 0 <= i < w.len() implies #[trigger] w[i].len() > 0 by {
                if i < prev.len() - 1 {
                    assert(w[i] == prev[i]);
                }
            }
            assert forall|i: int, j: int| 0 <= i < w.len() && 0 <= j < w[i].len() implies
                !is_white_space(w[i][j]) by {
                if i == prev.len() - 1 {
                    if j < prev.last().len() {
                        assert(w[i][j] == prev[i][j]);
                    }
                } else {
                    assert(w[i] == prev[i]);
                }
            }
        } else if !is_white_space(c) {
            assert forall|i: int| 0 <= i < w.len() implies #[trigger] w[i].len() > 0 by {
                if i < prev.len() {
                    assert(w[i] == prev[i]);
                }
            }
            assert forall|i: int, j: int| 0 <= i < w.len() && 0 <= j < w[i].len() implies
                !is_white_space(w[i][j]) by {
                if i < prev.len() {
                    assert(w[i] == prev[i]);
                }
            }
        }
    }
}

/// A text that ends in a character other than whitespace has at least one word.
proof fn lemma_words_last_char(s: Seq<char>)
    requires
        s.len() > 0,
        !is_white_space(s.last()),
    ensures
        words(s).len() > 0,
    decreases s.len(),
{
    if s.len() >= 2 && !is_white_space(s[s.len() - 2]) {
        assert(s.drop_last().last() == s[s.len() - 2]);
        lemma_words_last_char(s.drop_last());
    }
}

/// The text of `s` before byte offset `n`, or `None` where `&s[..n]` panics
/// (`n` past the end or inside a character's encoding).
pub open spec fn byte_prefix(s: Seq<char>, n: int) -> Option<Seq<char>> {
    let b = encode_utf8(s);
    if is_char_boundary(b, n) {
        Some(decode_utf8(b.subrange(0, n)))
    } else {
        None
    }
}

/// The text of `s` from byte offset `n` on, or `None` where `&s[n..]` panics.
pub open spec fn byte_suffix(s: Seq<char>, n: int) -> Option<Seq<char>> {
    let b = encode_utf8(s);
    if is_char_boundary(b, n) {
        Some(decode_utf8(b.subrange(n, b.len() as int)))
    } else {
        None
    }
}

/// Whether `s` and `lit` hold the same characters.
pub fn str_equals(s: &str, lit: &str) -> (r: bool)
    ensures
        r == (s@ == lit@),
{
    let n = s.unicode_len();
    if n != lit.unicode_len() {
        return false;
    }
    let mut i: usize = 0;
    while i < n
        invariant
            n == s@.len(),
            n == lit@.len(),
            i <= n,
            forall|k: int| 0 <= k < i ==> s@[k] == lit@[k],
        decreases n - i,
    {
        if s.get_char(i) != lit.get_char(i) {
            return false;
        }
        i += 1;
    }
    assert(s@ =~= lit@);
    true
}

/// Splits `s` into its words, as `str::split_whitespace` does.
pub fn split_words(s: &str) -> (r: Vec<String>)
    ensures
        views(r@) == words(s@),
{
    let n = s.unicode_len();
    let mut out: Vec<String> = Vec::new();
    let mut i: usize = 0;
    let mut start: usize = 0;
    let mut in_word = false;
    while i < n
        invariant
            n == s@.len(),
            i <= n,
            start <= i,
            in_word ==> start < i,
            in_word <==> (i > 0 && !is_white_space(s@[i - 1])),
            in_word ==> words(s@.take(i as int)) == views(out@).push(s@.subrange(start as int, i as int)),
            !in_word ==> words(s@.take(i as int)) == views(out@),
        decreases n - i,
    {
        let c = s.get_char(i);
        let ghost before = views(out@);
        let ghost t = s@.take(i + 1);
        assert(t.drop_last() =~= s@.take(i as int));
        assert(t.last() == c);
        if white_space(c) {
            if in_word {
                let piece = s.substring_char(start, i).to_owned();
                out.push(piece);
                assert(views(out@) =~= before.push(s@.subrange(start as int, i as int)));
                in_word = false;
            }
        } else if !in_word {
            start = i;
            in_word = true;
            assert(s@.subrange(start as int, i + 1) =~= seq![c]);
        } else {
            assert(t[t.len() - 2] == s@[i - 1]);
            assert(s@.subrange(start as int, i as int).push(c) =~= s@.subrange(start as int, i + 1));
            assert(before.push(s@.subrange(start as int, i as int)).update(
                before.len() as int,
                s@.subrange(start as int, i + 1),
            ) =~= before.push(s@.subrange(start as int, i + 1)));
        }
        i += 1;
    }
    if in_word {
        let piece = s.substring_char(start, n).to_owned();
        let ghost before = views(out@);
        out.push(piece);
        assert(views(out@) =~= before.push(s@.subrange(start as int, n as int)));
    }
    assert(s@.take(n as int) =~= s@);
    out
}

/// Splits `s` on every occurrence of `sep`, as `str::split` with a one-character
/// pattern does.
pub fn split_char(s: &str, sep: char) -> (r: Vec<String>)
    ensures
        views(r@) == split_on(s@, sep),
        r@.len() >= 1,
{
    let n = s.unicode_len();
    let mut out: Vec<String> = Vec::new();
    let mut i: usize = 0;
    let mut start: usize = 0;
    assert(s@.take(0) =~= Seq::<char>::empty());
    assert(views(out@).push(s@.subrange(0, 0)) =~= seq![Seq::<char>::empty()]);
    while i < n
        invariant
            n == s@.len(),
            start <= i <= n,
            split_on(s@.take(i as int), sep) == views(out@).push(s@.subrange(start as int, i as int)),
        decreases n - i,
    {
        let c = s.get_char(i);
        let ghost before = views(out@);
        let ghost t = s@.take(i + 1);
        assert(t.drop_last() =~= s@.take(i as int));
        if c == sep {
            let piece = s.substring_char(start, i).to_owned();
            out.push(piece);
            assert(views(out@) =~= before.push(s@.subrange(start as int, i as int)));
            start = i + 1;
            assert(s@.subrange(start as int, i + 1) =~= Seq::<char>::empty());
        } else {
            assert(s@.subrange(start as int, i as int).push(c) =~= s@.subrange(start as int, i + 1));
            assert(before.push(s@.subrange(start as int, i as int)).update(
                before.len() as int,
                s@.subrange(start as int, i + 1),
            ) =~= before.push(s@.subrange(start as int, i + 1)));
        }
        i += 1;
    }
    let piece = s.substring_char(start, n).to_owned();
    let ghost before = views(out@);
    out.push(piece);
    assert(views(out@) =~= before.push(s@.subrange(start as int, n as int)));
    assert(s@.take(n as int) =~= s@);
    out
}

/// `&s[..n]` as an owned string, or `None` where that slice would panic.
pub fn prefix_bytes(s: &str, n: usize) -> (r: Option<String>)
    ensures
        r matches Some(x) ==> byte_prefix(s@, n as int) == Some(x@),
        r is None ==> byte_prefix(s@, n as int) is None,
{
    if s.is_char_boundary(n) {
        let (head, _) = s.split_at(n);
        let out = head.to_owned();
        assert(decode_utf8(encode_utf8(out@)) == out@);
        Some(out)
    } else {
        None
    }
}

/// `&s[n..]` as an owned string, or `None` where that slice would panic.
pub fn suffix_bytes(s: &str, n: usize) -> (r: Option<String>)
    ensures
        r matches Some(x) ==> byte_suffix(s@, n as int) == Some(x@),
        r is None ==> byte_suffix(s@, n as int) is None,
{
    if s.is_char_boundary(n) {
        let (_, tail) = s.split_at(n);
        let out = tail.to_owned();
        assert(decode_utf8(encode_utf8(out@)) == out@);
        Some(out)
    } else {
        None
    }
}

} // verus!

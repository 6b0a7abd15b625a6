//! Operations on text, stated over sequences of characters, and the helpers
//! that carry them out on the characters of a string.

use vstd::prelude::*;
use vstd::string::StringExecFns;

verus! {

/// Whether `c` has the Unicode property `White_Space`.
pub open spec fn white_space(c: char) -> bool {
    ||| '\u{9}' <= c <= '\u{d}'
    ||| c == ' '
    ||| c == '\u{85}'
    ||| c == '\u{a0}'
    ||| c == '\u{1680}'
    ||| '\u{2000}' <= c <= '\u{200a}'
    ||| c == '\u{2028}'
    ||| c == '\u{2029}'
    ||| c == '\u{202f}'
    ||| c == '\u{205f}'
    ||| c == '\u{3000}'
}

/// `s` without the white space at its end.
pub open spec fn trimmed_end(s: Seq<char>) -> Seq<char>
    decreases s.len(),
{
    if s.len() > 0 && white_space(s.last()) {
        trimmed_end(s.drop_last())
    } else {
        s
    }
}

/// `s` without the white space at its start.
pub open spec fn trimmed_start(s: Seq<char>) -> Seq<char>
    decreases s.len(),
{
    if s.len() > 0 && white_space(s.first()) {
        trimmed_start(s.drop_first())
    } else {
        s
    }
}

/// The position of the first `c` in `s`, or the length of `s` if it holds none.
pub open spec fn first_index(s: Seq<char>, c: char) -> int
    decreases s.len(),
{
    if s.len() == 0 || s.first() == c {
        0
    } else {
        1 + first_index(s.drop_first(), c)
    }
}

/// The pieces of `s` between every two occurrences of `sep`. A text without
/// `sep` is one piece, and so is the empty text.
pub open spec fn split(s: Seq<char>, sep: char) -> Seq<Seq<char>>
    decreases s.len(),
{
    let i = first_index(s, sep);
    if 0 <= i < s.len() {
        seq![s.take(i)] + split(s.skip(i + 1), sep)
    } else {
        seq![s]
    }
}

/// What stands before and after the first `sep` in `s`, if there is one.
pub open spec fn split_once(s: Seq<char>, sep: char) -> Option<(Seq<char>, Seq<char>)> {
    let i = first_index(s, sep);
    if 0 <= i < s.len() {
        Some((s.take(i), s.skip(i + 1)))
    } else {
        None
    }
}

/// The parts in their order, with `sep` between every two of them.
pub open spec fn joined(parts: Seq<Seq<char>>, sep: Seq<char>) -> Seq<char>
    decreases parts.len(),
{
    if parts.len() == 0 {
        Seq::empty()
    } else if parts.len() == 1 {
        parts[0]
    } else {
        joined(parts.drop_last(), sep) + sep + parts.last()
    }
}

/// The views of the strings of `v`, in their order.
pub open spec fn texts(v: Seq<String>) -> Seq<Seq<char>> {
    v.map_values(|s: String| s@)
}

/// The view of an optional string.
pub open spec fn view_of(x: Option<String>) -> Option<Seq<char>> {
    match x {
        Some(s) => Some(s@),
        None => None,
    }
}

/// The view of an optional string slice.
pub open spec fn text_of(x: Option<&str>) -> Option<Seq<char>> {
    match x {
        Some(s) => Some(s@),
        None => None,
    }
}

/// `first_index` is the one position before which no `c` stands and at which
/// `s` ends or holds `c`.
pub proof fn lemma_first_index(s: Seq<char>, c: char, i: int)
    requires
        0 <= i <= s.len(),
        forall|j: int| 0 <= j < i ==> s[j] != c,
        i == s.len() || s[i] == c,
    ensures
        first_index(s, c) == i,
    decreases i,
{
    if i > 0 {
        let rest = s.drop_first();
        assert forall|j: int| 0 <= j < i - 1 implies rest[j] != c by {
            assert(rest[j] == s[j + 1]);
        }
        lemma_first_index(rest, c, i - 1);
    }
}

/// `first_index` lies within `s`, no `c` stands before it, and `c` stands at it
/// unless it is the end of `s`.
pub proof fn lemma_first_index_is_first(s: Seq<char>, c: char)
    ensures
        0 <= first_index(s, c) <= s.len(),
        forall|j: int| 0 <= j < first_index(s, c) ==> s[j] != c,
        first_index(s, c) < s.len() ==> s[first_index(s, c)] == c,
    decreases s.len(),
{
    if s.len() > 0 && s.first() != c {
        let rest = s.drop_first();
        lemma_first_index_is_first(rest, c);
        assert forall|j: int| 0 <= j < first_index(s, c) implies s[j] != c by {
            if j > 0 {
                assert(s[j] == rest[j - 1]);
            }
        }
    }
}

/// Trimming the start removes the longest run of white space that `s` begins
/// with.
pub proof fn lemma_trimmed_start(s: Seq<char>, k: int)
    requires
        0 <= k <= s.len(),
        forall|j: int| 0 <= j < k ==> white_space(s[j]),
        k == s.len() || !white_space(s[k]),
    ensures
        trimmed_start(s) == s.skip(k),
    decreases k,
{
    if k > 0 {
        let rest = s.drop_first();
        assert forall|j: int| 0 <= j < k - 1 implies white_space(rest[j]) by {
            assert(rest[j] == s[j + 1]);
        }
        lemma_trimmed_start(rest, k - 1);
        assert(rest.skip(k - 1) =~= s.skip(k));
    } else {
        assert(s.skip(0) =~= s);
    }
}

/// Trimming the end removes the longest run of white space that `s` ends with.
pub proof fn lemma_trimmed_end(s: Seq<char>, e: int)
    requires
        0 <= e <= s.len(),
        forall|j: int| e <= j < s.len() ==> white_space(s[j]),
        e == 0 || !white_space(s[e - 1]),
    ensures
        trimmed_end(s) == s.take(e),
    decreases s.len() - e,
{
    if e < s.len() {
        let rest = s.drop_last();
        lemma_trimmed_end(rest, e);
        assert(rest.take(e) =~= s.take(e));
    } else {
        assert(s.take(e) =~= s);
    }
}

/// What trimming the end leaves is the start of `s`.
pub proof fn lemma_trimmed_end_is_prefix(s: Seq<char>)
    ensures
        trimmed_end(s).len() <= s.len(),
        trimmed_end(s) == s.take(trimmed_end(s).len() as int),
    decreases s.len(),
{
    if s.len() > 0 && white_space(s.last()) {
        let rest = s.drop_last();
        lemma_trimmed_end_is_prefix(rest);
        assert(rest.take(trimmed_end(s).len() as int) =~= s.take(trimmed_end(s).len() as int));
    } else {
        assert(s.take(s.len() as int) =~= s);
    }
}

/// Cutting a text that holds no `c` gives pieces that hold no `c`.
pub proof fn lemma_split_without(s: Seq<char>, sep: char, c: char)
    requires
        !s.contains(c),
    ensures
        forall|j: int| 0 <= j < split(s, sep).len() ==> !(#[trigger] split(s, sep)[j]).contains(c),
    decreases s.len(),
{
    let i = first_index(s, sep);
    lemma_first_index_is_first(s, sep);
    if 0 <= i < s.len() {
        let head = s.take(i);
        let rest = s.skip(i + 1);
        assert(!head.contains(c)) by {
            if head.contains(c) {
                let k = choose|k: int| 0 <= k < head.len() && head[k] == c;
                assert(s[k] == c);
            }
        }
        assert(!rest.contains(c)) by {
            if rest.contains(c) {
                let k = choose|k: int| 0 <= k < rest.len() && rest[k] == c;
                assert(s[i + 1 + k] == c);
            }
        }
        lemma_split_without(rest, sep, c);
        let pieces = split(s, sep);
        assert forall|j: int| 0 <= j < pieces.len() implies !(#[trigger] pieces[j]).contains(
            c,
        ) by {
            if j > 0 {
                assert(pieces[j] == split(rest, sep)[j - 1]);
            }
        }
    }
}

/// Joining one part more appends the separator and that part, unless it is
/// the first.
pub proof fn lemma_joined_push(parts: Seq<Seq<char>>, part: Seq<char>, sep: Seq<char>)
    ensures
        joined(parts.push(part), sep) == if parts.len() == 0 {
            part
        } else {
            joined(parts, sep) + sep + part
        },
{
    assert(parts.push(part).drop_last() =~= parts);
}

/// The same optional text, borrowed.
pub fn as_text(x: &Option<String>) -> (r: Option<&str>)
    ensures
        text_of(r) == view_of(*x),
{
    match x {
        Some(s) => Some(s.as_str()),
        None => None,
    }
}

/// Tells whether `c` is white space.
pub fn is_whitespace(c: char) -> (r: bool)
    ensures
        r == white_space(c),
{
    ('\u{9}' <= c && c <= '\u{d}') || c == ' ' || c == '\u{85}' || c == '\u{a0}' || c
        == '\u{1680}' || ('\u{2000}' <= c && c <= '\u{200a}') || c == '\u{2028}' || c
        == '\u{2029}' || c == '\u{202f}' || c == '\u{205f}' || c == '\u{3000}'
}

/// The characters of `x`, one by one.
pub fn chars_of(x: &str) -> (v: Vec<char>)
    ensures
        v@ == x@,
{
    let mut v: Vec<char> = Vec::new();
    let it = x.chars();
    for c in iter: it
        invariant
            v@ == iter.seq().take(iter.index() as int),
    {
        v.push(c);
    }
    v
}

/// The first position from `from` on, and before `to`, at which `c` stands;
/// `to` if there is none.
pub fn find(cs: &Vec<char>, from: usize, to: usize, c: char) -> (i: usize)
    requires
        from <= to <= cs@.len(),
    ensures
        from <= i <= to,
        i - from == first_index(cs@.subrange(from as int, to as int), c),
{
    let mut i: usize = from;
    while i < to && cs[i] != c
        invariant
            from <= i <= to <= cs@.len(),
            forall|j: int| from <= j < i ==> cs@[j] != c,
        decreases to - i,
    {
        i += 1;
    }
    proof {
        lemma_first_index(cs@.subrange(from as int, to as int), c, i - from);
    }
    i
}

/// The position at which the white space that starts at `from` ends, no
/// further than `to`.
pub fn skip_whitespace(cs: &Vec<char>, from: usize, to: usize) -> (k: usize)
    requires
        from <= to <= cs@.len(),
    ensures
        from <= k <= to,
        cs@.subrange(k as int, to as int) == trimmed_start(cs@.subrange(from as int, to as int)),
{
    let mut k: usize = from;
    while k < to && is_whitespace(cs[k])
        invariant
            from <= k <= to <= cs@.len(),
            forall|j: int| from <= j < k ==> white_space(cs@[j]),
        decreases to - k,
    {
        k += 1;
    }
    proof {
        let s = cs@.subrange(from as int, to as int);
        lemma_trimmed_start(s, k - from);
        assert(s.skip(k - from) =~= cs@.subrange(k as int, to as int));
    }
    k
}

/// The length of `cs` without the white space at its end.
pub fn trimmed_end_len(cs: &Vec<char>) -> (e: usize)
    ensures
        e <= cs@.len(),
        cs@.take(e as int) == trimmed_end(cs@),
{
    let mut e: usize = cs.len();
    while e > 0 && is_whitespace(cs[e - 1])
        invariant
            e <= cs@.len(),
            forall|j: int| e <= j < cs@.len() ==> white_space(cs@[j]),
        decreases e,
    {
        e -= 1;
    }
    proof {
        lemma_trimmed_end(cs@, e as int);
    }
    e
}

/// Joins `parts` with `sep` between every two of them.
pub fn join(parts: &Vec<String>, sep: &str) -> (r: String)
    ensures
        r@ == joined(texts(parts@), sep@),
{
    let mut r = String::new();
    let mut i: usize = 0;
    while i < parts.len()
        invariant
            i <= parts@.len(),
            r@ == joined(texts(parts@).take(i as int), sep@),
        decreases parts@.len() - i,
    {
        proof {
            let done = texts(parts@).take(i as int);
            lemma_joined_push(done, parts@[i as int]@, sep@);
            assert(done.push(parts@[i as int]@) =~= texts(parts@).take(i + 1));
        }
        if i > 0 {
            r.append(sep);
        }
        r.append(parts[i].as_str());
        i += 1;
    }
    assert(texts(parts@).take(i as int) =~= texts(parts@));
    r
}

} // verus!

//! Values written as literals of the scripting language, and the host's
//! answer read back into a record.

use crate::record::StringMap;
use crate::text::{
    chars_of, find, join, joined, lemma_first_index, lemma_joined_push, lemma_split_without,
    lemma_trimmed_end_is_prefix, skip_whitespace, split, split_once, texts, trimmed_end,
    trimmed_end_len, trimmed_start,
};
use vstd::prelude::*;
use vstd::string::{StrSliceExecFns, StringExecFns};

verus! {

/// `x` between two double quotes. Nothing in `x` is escaped.
pub open spec fn quoted(x: Seq<char>) -> Seq<char> {
    seq!['"'] + x + seq!['"']
}

/// Whether `c` is one of the digits `0` to `9`.
pub open spec fn is_digit(c: char) -> bool {
    '0' <= c <= '9'
}

/// The number that the digit `c` stands for.
pub open spec fn digit_value(c: char) -> nat {
    (c as u32 - '0' as u32) as nat
}

/// The digit that stands for `d`, a number below ten.
pub open spec fn digit_char(d: nat) -> char {
    (d + '0' as u32) as char
}

/// The number that the digits `d` stand for, read in base ten.
pub open spec fn decimal_value(d: Seq<char>) -> nat
    decreases d.len(),
{
    if d.len() == 0 {
        0
    } else {
        10 * decimal_value(d.drop_last()) + digit_value(d.last())
    }
}

/// `s` without the plus sign that it may start with.
pub open spec fn unsigned_part(s: Seq<char>) -> Seq<char> {
    if s.len() > 0 && s.first() == '+' {
        s.drop_first()
    } else {
        s
    }
}

/// Whether `s` is written as a number from 0 to 255: one or more digits, after
/// an optional plus sign, whose value in base ten is at most 255.
pub open spec fn is_u8_literal(s: Seq<char>) -> bool {
    let d = unsigned_part(s);
    &&& d.len() > 0
    &&& forall|i: int| 0 <= i < d.len() ==> is_digit(#[trigger] d[i])
    &&& decimal_value(d) <= 255
}

/// `x` as it is where it is written as a number from 0 to 255, and between
/// double quotes where it is not.
pub open spec fn integer_or_text(x: Seq<char>) -> Seq<char> {
    if is_u8_literal(x) {
        x
    } else {
        quoted(x)
    }
}

/// `n` written in base ten, without leading zeros.
pub open spec fn decimal(n: nat) -> Seq<char>
    decreases n,
{
    if n < 10 {
        seq![digit_char(n)]
    } else {
        decimal(n / 10).push(digit_char(n % 10))
    }
}

/// The list literal of `values`: each value between double quotes, in the
/// order given, with commas between them and braces around them.
pub open spec fn list_literal(values: Seq<Seq<char>>) -> Seq<char> {
    seq!['{'] + joined(values.map_values(|v: Seq<char>| quoted(v)), seq![',']) + seq!['}']
}

/// `m` after the fragment `fragment`. A fragment with a colon gives the key
/// before its first colon, without the white space at the key's start, the
/// value after that colon; a fragment without a colon changes nothing.
pub open spec fn with_fragment(m: Map<Seq<char>, Seq<char>>, fragment: Seq<char>) -> Map<
    Seq<char>,
    Seq<char>,
> {
    match split_once(fragment, ':') {
        Some((key, value)) => m.insert(trimmed_start(key), value),
        None => m,
    }
}

/// `m` after each of `fragments`, from the first to the last.
pub open spec fn with_fragments(
    m: Map<Seq<char>, Seq<char>>,
    fragments: Seq<Seq<char>>,
) -> Map<Seq<char>, Seq<char>>
    decreases fragments.len(),
{
    if fragments.len() == 0 {
        m
    } else {
        with_fragments(with_fragment(m, fragments.first()), fragments.drop_first())
    }
}

/// The record that the text `s` holds: `s` without the white space at its end
/// is cut at every comma, and each fragment is read as `key:value`.
pub open spec fn record_of(s: Seq<char>) -> Map<Seq<char>, Seq<char>> {
    with_fragments(Map::empty(), split(trimmed_end(s), ','))
}

/// The list literal of no values is `{}`. That of one value more holds the
/// values so far, unchanged and in their places, and then the new one between
/// double quotes, after a comma unless it is the first: nothing is left out,
/// put elsewhere or merged.
pub proof fn law_list_literal_grows(values: Seq<Seq<char>>, value: Seq<char>)
    ensures
        list_literal(Seq::empty()) == seq!['{', '}'],
        values.len() == 0 ==> list_literal(values.push(value)) == seq!['{'] + quoted(value)
            + seq!['}'],
        values.len() > 0 ==> list_literal(values.push(value)) == list_literal(
            values,
        ).drop_last() + seq![','] + quoted(value) + seq!['}'],
{
    let q = |v: Seq<char>| quoted(v);
    assert(Seq::<Seq<char>>::empty().map_values(q) =~= Seq::<Seq<char>>::empty());
    assert(list_literal(Seq::empty()) =~= seq!['{', '}']);
    assert(values.push(value).map_values(q) =~= values.map_values(q).push(quoted(value)));
    lemma_joined_push(values.map_values(q), quoted(value), seq![',']);
    if values.len() > 0 {
        let inner = joined(values.map_values(q), seq![',']);
        assert(list_literal(values).drop_last() =~= seq!['{'] + inner);
        assert(list_literal(values.push(value)) =~= list_literal(values).drop_last() + seq![',']
            + quoted(value) + seq!['}']);
    } else {
        assert(list_literal(values.push(value)) =~= seq!['{'] + quoted(value) + seq!['}']);
    }
}

/// The key that the fragment `fragment` names, if it holds a colon.
pub open spec fn key_of(fragment: Seq<char>) -> Option<Seq<char>> {
    match split_once(fragment, ':') {
        Some((key, _)) => Some(trimmed_start(key)),
        None => None,
    }
}

/// The value that the fragment `fragment` gives its key, if it holds a colon.
pub open spec fn value_of(fragment: Seq<char>) -> Option<Seq<char>> {
    match split_once(fragment, ':') {
        Some((_, value)) => Some(value),
        None => None,
    }
}

/// Reading fragments one after the other is reading the first of them and
/// then, from there, the rest.
pub proof fn lemma_with_fragments_concat(
    m: Map<Seq<char>, Seq<char>>,
    a: Seq<Seq<char>>,
    b: Seq<Seq<char>>,
)
    ensures
        with_fragments(m, a + b) == with_fragments(with_fragments(m, a), b),
    decreases a.len(),
{
    if a.len() == 0 {
        assert(a + b =~= b);
    } else {
        assert((a + b).first() == a.first());
        assert((a + b).drop_first() =~= a.drop_first() + b);
        lemma_with_fragments_concat(with_fragment(m, a.first()), a.drop_first(), b);
    }
}

/// Fragments that do not name the key `k` leave what `k` has as it is.
pub proof fn lemma_other_keys_keep(
    m: Map<Seq<char>, Seq<char>>,
    fragments: Seq<Seq<char>>,
    k: Seq<char>,
)
    requires
        forall|j: int| 0 <= j < fragments.len() ==> key_of(#[trigger] fragments[j]) != Some(k),
    ensures
        with_fragments(m, fragments).contains_key(k) == m.contains_key(k),
        m.contains_key(k) ==> with_fragments(m, fragments)[k] == m[k],
    decreases fragments.len(),
{
    if fragments.len() > 0 {
        let rest = fragments.drop_first();
        assert(key_of(fragments[0]) != Some(k));
        assert forall|j: int| 0 <= j < rest.len() implies key_of(#[trigger] rest[j]) != Some(
            k,
        ) by {
            assert(rest[j] == fragments[j + 1]);
        }
        lemma_other_keys_keep(with_fragment(m, fragments.first()), rest, k);
    }
}

/// A fragment without a colon is passed over: the record is the one read
/// without it.
pub proof fn law_fragment_without_colon(
    m: Map<Seq<char>, Seq<char>>,
    before: Seq<Seq<char>>,
    fragment: Seq<char>,
    after: Seq<Seq<char>>,
)
    requires
        !fragment.contains(':'),
    ensures
        with_fragment(m, fragment) == m,
        with_fragments(m, before + seq![fragment] + after) == with_fragments(m, before + after),
{
    assert forall|m0: Map<Seq<char>, Seq<char>>| with_fragment(m0, fragment) == m0 by {
        lemma_first_index(fragment, ':', fragment.len() as int);
    }
    let mid = with_fragments(m, before);
    assert(with_fragments(mid, seq![fragment]) == mid) by {
        assert(seq![fragment].drop_first() =~= Seq::<Seq<char>>::empty());
        assert(with_fragments(with_fragment(mid, fragment), Seq::<Seq<char>>::empty())
            == with_fragment(mid, fragment));
    }
    lemma_with_fragments_concat(m, before, seq![fragment]);
    lemma_with_fragments_concat(m, before + seq![fragment], after);
    lemma_with_fragments_concat(m, before, after);
}

/// Of the fragments that name one key the last counts: the record gives the
/// key the value that stands after the first colon of that fragment.
pub proof fn law_last_fragment_of_key_counts(
    m: Map<Seq<char>, Seq<char>>,
    fragments: Seq<Seq<char>>,
    i: int,
)
    requires
        0 <= i < fragments.len(),
        key_of(fragments[i]) is Some,
        forall|j: int| i < j < fragments.len() ==> key_of(#[trigger] fragments[j]) != key_of(
            fragments[i],
        ),
    ensures
        with_fragments(m, fragments).contains_key(key_of(fragments[i])->0),
        Some(with_fragments(m, fragments)[key_of(fragments[i])->0]) == value_of(fragments[i]),
{
    let k = key_of(fragments[i])->0;
    let head = fragments.take(i);
    let tail = fragments.skip(i + 1);
    assert(fragments =~= head + seq![fragments[i]] + tail);
    let reached = with_fragments(m, head);
    let set = with_fragment(reached, fragments[i]);
    assert(with_fragments(reached, seq![fragments[i]]) == set) by {
        assert(seq![fragments[i]].drop_first() =~= Seq::<Seq<char>>::empty());
        assert(with_fragments(set, Seq::<Seq<char>>::empty()) == set);
    }
    lemma_with_fragments_concat(m, head, seq![fragments[i]]);
    lemma_with_fragments_concat(m, head + seq![fragments[i]], tail);
    assert forall|j: int| 0 <= j < tail.len() implies key_of(#[trigger] tail[j]) != Some(k) by {
        assert(tail[j] == fragments[i + 1 + j]);
    }
    lemma_other_keys_keep(set, tail, k);
}

/// A text without a colon holds the empty record.
pub proof fn law_record_without_colon(s: Seq<char>)
    requires
        !s.contains(':'),
    ensures
        record_of(s) == Map::<Seq<char>, Seq<char>>::empty(),
{
    let t = trimmed_end(s);
    lemma_trimmed_end_is_prefix(s);
    assert(!t.contains(':')) by {
        if t.contains(':') {
            let i = choose|i: int| 0 <= i < t.len() && t[i] == ':';
            assert(s[i] == ':');
        }
    }
    lemma_split_without(t, ',', ':');
    lemma_all_passed_over(Map::empty(), split(t, ','));
}

/// Fragments without a colon change nothing.
proof fn lemma_all_passed_over(m: Map<Seq<char>, Seq<char>>, fragments: Seq<Seq<char>>)
    requires
        forall|j: int| 0 <= j < fragments.len() ==> !(#[trigger] fragments[j]).contains(':'),
    ensures
        with_fragments(m, fragments) == m,
    decreases fragments.len(),
{
    if fragments.len() > 0 {
        let rest = fragments.drop_first();
        assert(!fragments[0].contains(':'));
        lemma_first_index(fragments[0], ':', fragments[0].len() as int);
        assert forall|j: int| 0 <= j < rest.len() implies !(#[trigger] rest[j]).contains(':') by {
            assert(rest[j] == fragments[j + 1]);
        }
        lemma_all_passed_over(m, rest);
    }
}

/// A number from 0 to 255, written in base ten, is read back as that number.
pub proof fn law_decimal_is_read_back(n: u8)
    ensures
        is_u8_literal(decimal(n as nat)),
        decimal_value(decimal(n as nat)) == n,
{
    let n = n as nat;
    let d = decimal(n);
    reveal_with_fuel(decimal, 3);
    reveal_with_fuel(decimal_value, 4);
    if n >= 100 {
        assert((n / 10) / 10 == n / 100);
        let want = seq![digit_char(n / 100), digit_char((n / 10) % 10), digit_char(n % 10)];
        assert(d =~= want);
        assert(want.drop_last() =~= seq![digit_char(n / 100), digit_char((n / 10) % 10)]);
        assert(want.drop_last().drop_last() =~= seq![digit_char(n / 100)]);
        assert(want.drop_last().drop_last().drop_last() =~= Seq::<char>::empty());
    } else if n >= 10 {
        let want = seq![digit_char(n / 10), digit_char(n % 10)];
        assert(d =~= want);
        assert(want.drop_last() =~= seq![digit_char(n / 10)]);
        assert(want.drop_last().drop_last() =~= Seq::<char>::empty());
    } else {
        let want = seq![digit_char(n)];
        assert(d =~= want);
        assert(want.drop_last() =~= Seq::<char>::empty());
    }
    assert(unsigned_part(d) == d);
}

/// The digits read so far never stand for more than all of them do.
proof fn lemma_decimal_value_grows(d: Seq<char>, k: int)
    requires
        0 <= k <= d.len(),
    ensures
        decimal_value(d.take(k)) <= decimal_value(d),
    decreases d.len() - k,
{
    if k < d.len() {
        lemma_decimal_value_grows(d.drop_last(), k);
        assert(d.drop_last().take(k) =~= d.take(k));
    } else {
        assert(d.take(k) =~= d);
    }
}

/// Conversions of values into literals of the scripting language.
pub struct Input;

impl Input {
    /// Puts `x` between double quotes. Quotes and backslashes inside `x` stay
    /// as they are, so a value that holds them, or a comma or a colon, may be
    /// read back wrongly by the host or from its answer.
    pub fn quoted(x: &str) -> (r: String)
        ensures
            r@ == quoted(x@),
            r@.len() == x@.len() + 2,
            r@.first() == '"',
            r@.last() == '"',
            r@.subrange(1, r@.len() - 1) == x@,
    {
        proof {
            reveal_strlit("\"");
        }
        let r = String::from_str("\"").concat(x).concat("\"");
        assert(r@ =~= quoted(x@));
        assert(r@.subrange(1, r@.len() - 1) =~= x@);
        r
    }

    /// Tells whether `x` is written as a number from 0 to 255.
    pub fn is_integer(x: &str) -> (r: bool)
        ensures
            r == is_u8_literal(x@),
    {
        let cs = chars_of(x);
        let n = cs.len();
        let start: usize = if n > 0 && cs[0] == '+' {
            1
        } else {
            0
        };
        let ghost d = unsigned_part(x@);
        assert(d =~= cs@.subrange(start as int, n as int));
        if start == n {
            return false;
        }
        let mut value: u16 = 0;
        let mut i: usize = start;
        while i < n
            invariant
                start <= i <= n,
                n == cs@.len(),
                d == unsigned_part(x@),
                d == cs@.subrange(start as int, n as int),
                forall|j: int| 0 <= j < i - start ==> is_digit(#[trigger] d[j]),
                value == decimal_value(d.take(i - start)),
                value <= 255,
            decreases n - i,
        {
            let c = cs[i];
            if !('0' <= c && c <= '9') {
                assert(!is_digit(d[i - start]));
                return false;
            }
            let digit: u16 = (c as u32 - '0' as u32) as u16;
            proof {
                assert(d.take(i - start + 1).drop_last() =~= d.take(i - start));
                assert(d.take(i - start + 1).last() == c);
            }
            value = value * 10 + digit;
            if value > 255 {
                proof {
                    lemma_decimal_value_grows(d, i - start + 1);
                }
                return false;
            }
            i += 1;
        }
        assert(d.take(i - start) =~= d);
        true
    }

    /// Writes a selector that is either a number or a name: `x` as it is where
    /// it is written as a number from 0 to 255, and between double quotes
    /// where it is not.
    pub fn integer_or_text(x: &str) -> (r: String)
        ensures
            r@ == integer_or_text(x@),
    {
        if Input::is_integer(x) {
            String::from_str(x)
        } else {
            Input::quoted(x)
        }
    }

    /// Writes `values` as a list literal: each between double quotes, in the
    /// order given, none left out. No values give `{}`.
    pub fn apple_script_list(v: Vec<String>) -> (r: String)
        ensures
            r@ == list_literal(texts(v@)),
    {
        let ghost wanted = texts(v@).map_values(|x: Seq<char>| quoted(x));
        let mut items: Vec<String> = Vec::new();
        let mut i: usize = 0;
        while i < v.len()
            invariant
                i <= v@.len(),
                wanted == texts(v@).map_values(|x: Seq<char>| quoted(x)),
                texts(items@) == wanted.take(i as int),
            decreases v@.len() - i,
        {
            let item = Input::quoted(v[i].as_str());
            let ghost earlier = texts(items@);
            items.push(item);
            assert(wanted[i as int] == quoted(texts(v@)[i as int]));
            assert(texts(items@) =~= earlier.push(wanted[i as int]));
            assert(texts(items@) =~= wanted.take(i + 1));
            i += 1;
        }
        assert(wanted.take(i as int) =~= wanted);
        proof {
            reveal_strlit("{");
            reveal_strlit(",");
            reveal_strlit("}");
        }
        let r = String::from_str("{").concat(join(&items, ",").as_str()).concat("}");
        assert(","@ =~= seq![',']);
        assert(r@ =~= list_literal(texts(v@)));
        r
    }

    /// Writes `n` in base ten.
    pub fn integer(n: u8) -> (r: String)
        ensures
            r@ == decimal(n as nat),
    {
        let mut r = String::new();
        if n >= 100 {
            r.append(digit_text(n / 100));
        }
        if n >= 10 {
            r.append(digit_text((n / 10) % 10));
        }
        r.append(digit_text(n % 10));
        proof {
            let n = n as nat;
            reveal_with_fuel(decimal, 3);
            if n >= 100 {
                assert((n / 10) / 10 == n / 100);
                assert(r@ =~= decimal(n));
            } else if n >= 10 {
                assert(r@ =~= decimal(n));
            } else {
                assert(r@ =~= decimal(n));
            }
        }
        r
    }
}

/// The digit that stands for `d`, as a text.
fn digit_text(d: u8) -> (r: &'static str)
    requires
        d < 10,
    ensures
        r@ == seq![digit_char(d as nat)],
{
    proof {
        reveal_strlit("0");
        reveal_strlit("1");
        reveal_strlit("2");
        reveal_strlit("3");
        reveal_strlit("4");
        reveal_strlit("5");
        reveal_strlit("6");
        reveal_strlit("7");
        reveal_strlit("8");
        reveal_strlit("9");
    }
    let r = match d {
        0 => "0",
        1 => "1",
        2 => "2",
        3 => "3",
        4 => "4",
        5 => "5",
        6 => "6",
        7 => "7",
        8 => "8",
        _ => "9",
    };
    assert(r@ =~= seq![digit_char(d as nat)]);
    r
}

/// Conversions of the host's answer into values.
pub struct Output;

impl Output {
    /// Reads the record that the answer `x` holds. The white space at the end
    /// of `x` is left out, the rest is cut at every comma, and each fragment is
    /// cut at its first colon into a key and a value. The white space at the
    /// start of a key is left out; a value is taken as it is. A fragment
    /// without a colon is passed over, and of two fragments with the same key
    /// the later one counts. Commas and colons inside a value are not
    /// protected.
    pub fn record(x: &str) -> (r: StringMap)
        ensures
            r@ == record_of(x@),
    {
        let cs = chars_of(x);
        let end = trimmed_end_len(&cs);
        let ghost t = trimmed_end(x@);
        let mut m = StringMap::new();
        let mut start: usize = 0;
        let mut done = false;
        assert(t.skip(0) =~= t);
        while !done
            invariant
                start <= end <= cs@.len(),
                cs@ == x@,
                t == cs@.take(end as int),
                !done ==> with_fragments(m@, split(t.skip(start as int), ',')) == record_of(x@),
                done ==> m@ == record_of(x@),
            decreases end - start + (if done { 0int } else { 1int }),
        {
            let stop = find(&cs, start, end, ',');
            let colon = find(&cs, start, stop, ':');
            let ghost rest = t.skip(start as int);
            let ghost fragment = cs@.subrange(start as int, stop as int);
            let ghost before = m@;
            proof {
                assert(rest =~= cs@.subrange(start as int, end as int));
                assert(rest.take(stop - start) =~= fragment);
            }
            if colon < stop {
                let key_start = skip_whitespace(&cs, start, colon);
                let key = String::from_str(x.substring_char(key_start, colon));
                let value = String::from_str(x.substring_char(colon + 1, stop));
                proof {
                    assert(fragment.take(colon - start) =~= cs@.subrange(
                        start as int,
                        colon as int,
                    ));
                    assert(fragment.skip(colon - start + 1) =~= cs@.subrange(
                        colon + 1,
                        stop as int,
                    ));
                }
                m.insert(key, value);
            }
            assert(m@ == with_fragment(before, fragment));
            if stop < end {
                proof {
                    let pieces = split(rest, ',');
                    assert(rest.skip(stop - start + 1) =~= t.skip(stop + 1));
                    assert(pieces.first() == fragment);
                    assert(pieces.drop_first() =~= split(t.skip(stop + 1), ','));
                }
                start = stop + 1;
            } else {
                proof {
                    let pieces = split(rest, ',');
                    assert(pieces =~= seq![fragment]);
                    assert(pieces.drop_first() =~= Seq::<Seq<char>>::empty());
                    assert(with_fragments(before, pieces) == with_fragments(
                        with_fragment(before, pieces.first()),
                        pieces.drop_first(),
                    ));
                }
                done = true;
            }
        }
        m
    }
}

} // verus!

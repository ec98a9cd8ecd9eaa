//! Text primitives shared by the rest of the library.
//!
//! Every function here is stated over the `Seq<char>` view of its arguments.

use vstd::prelude::*;
use vstd::string::StrSliceExecFns;
use vstd::string::StringExecFns;

verus! {

/// Whether `c` is white space in the sense of Unicode.
pub open spec fn is_space(c: char) -> bool {
    ||| c == ' '
    ||| ('\t' <= c && c <= '\r')
    ||| c == '\u{85}'
    ||| c == '\u{a0}'
    ||| c == '\u{1680}'
    ||| ('\u{2000}' <= c && c <= '\u{200a}')
    ||| c == '\u{2028}'
    ||| c == '\u{2029}'
    ||| c == '\u{202f}'
    ||| c == '\u{205f}'
    ||| c == '\u{3000}'
}

/// Executable test for [`is_space`].
pub fn is_space_char(c: char) -> (r: bool)
    ensures
        r == is_space(c),
{
    c == ' ' || ('\t' <= c && c <= '\r') || c == '\u{85}' || c == '\u{a0}' || c == '\u{1680}' || (
    '\u{2000}' <= c && c <= '\u{200a}') || c == '\u{2028}' || c == '\u{2029}' || c == '\u{202f}'
        || c == '\u{205f}' || c == '\u{3000}'
}

/// The characters of `s`, in order.
pub fn chars_of(s: &str) -> (r: Vec<char>)
    ensures
        r@ == s@,
{
    let mut out: Vec<char> = Vec::new();
    for c in it: s.chars()
        invariant
            out@ == it.seq().take(it.index() as int),
    {
        out.push(c);
    }
    out
}

/// `s` without its leading white space.
pub open spec fn skip_leading(s: Seq<char>) -> Seq<char>
    decreases s.len(),
{
    if s.len() > 0 && is_space(s.first()) {
        skip_leading(s.drop_first())
    } else {
        s
    }
}

/// `s` without its trailing white space.
pub open spec fn skip_trailing(s: Seq<char>) -> Seq<char>
    decreases s.len(),
{
    if s.len() > 0 && is_space(s.last()) {
        skip_trailing(s.drop_last())
    } else {
        s
    }
}

/// `s` with white space removed from both ends.
pub open spec fn trimmed(s: Seq<char>) -> Seq<char> {
    skip_trailing(skip_leading(s))
}

proof fn lemma_skip_leading(s: Seq<char>)
    ensures
        skip_leading(s).len() <= s.len(),
        skip_leading(s) == s.subrange(s.len() - skip_leading(s).len(), s.len() as int),
        forall|i: int| 0 <= i < s.len() - skip_leading(s).len() ==> is_space(s[i]),
        skip_leading(s).len() > 0 ==> !is_space(skip_leading(s).first()),
    decreases s.len(),
{
    if s.len() > 0 && is_space(s.first()) {
        let rest = s.drop_first();
        lemma_skip_leading(rest);
        let kept = skip_leading(rest);
        assert(rest.subrange(rest.len() - kept.len(), rest.len() as int) =~= s.subrange(
            s.len() - kept.len(),
            s.len() as int,
        ));
        assert forall|i: int| 0 <= i < s.len() - kept.len() implies is_space(s[i]) by {
            if i > 0 {
                assert(rest[i - 1] == s[i]);
            }
        }
    } else {
        assert(s.subrange(0, s.len() as int) =~= s);
    }
}

proof fn lemma_skip_trailing(s: Seq<char>)
    ensures
        skip_trailing(s).len() <= s.len(),
        skip_trailing(s) == s.subrange(0, skip_trailing(s).len() as int),
        forall|i: int| skip_trailing(s).len() <= i < s.len() ==> is_space(s[i]),
        skip_trailing(s).len() > 0 ==> !is_space(skip_trailing(s).last()),
    decreases s.len(),
{
    if s.len() > 0 && is_space(s.last()) {
        let rest = s.drop_last();
        lemma_skip_trailing(rest);
        let kept = skip_trailing(rest);
        assert(rest.subrange(0, kept.len() as int) =~= s.subrange(0, kept.len() as int));
        assert forall|i: int| kept.len() <= i < s.len() implies is_space(s[i]) by {
            if i < s.len() - 1 {
                assert(rest[i] == s[i]);
            }
        }
    } else {
        assert(s.subrange(0, s.len() as int) =~= s);
    }
}

/// What trimming comes to: the trimmed text is a stretch of the text with
/// nothing but white space before and after it, and it neither begins nor
/// ends with white space.
pub proof fn lemma_trimmed(s: Seq<char>) -> (bounds: (int, int))
    ensures
        0 <= bounds.0 <= bounds.1 <= s.len(),
        trimmed(s) == s.subrange(bounds.0, bounds.1),
        forall|i: int| 0 <= i < bounds.0 ==> is_space(s[i]),
        forall|i: int| bounds.1 <= i < s.len() ==> is_space(s[i]),
        trimmed(s).len() > 0 ==> !is_space(trimmed(s).first()) && !is_space(trimmed(s).last()),
{
    lemma_skip_leading(s);
    let head = skip_leading(s);
    let from = s.len() - head.len();
    lemma_skip_trailing(head);
    let kept = skip_trailing(head);
    let to = from + kept.len();
    assert(head.subrange(0, kept.len() as int) =~= s.subrange(from, to));
    assert forall|i: int| to <= i < s.len() implies is_space(s[i]) by {
        assert(head[i - from] == s[i]);
    }
    if kept.len() > 0 {
        assert(kept.first() == head.first());
    }
    (from, to)
}

/// Removes white space from both ends of `s`.
pub fn trim(s: &str) -> (r: String)
    ensures
        r@ == trimmed(s@),
{
    let chars = chars_of(s);
    let n: usize = chars.len();
    let mut start: usize = 0;
    assert(s@.subrange(0, n as int) =~= s@);
    while start < n && is_space_char(chars[start])
        invariant
            n == chars@.len(),
            start <= n,
            chars@ == s@,
            skip_leading(s@) == skip_leading(s@.subrange(start as int, n as int)),
        decreases n - start,
    {
        proof {
            let cur = s@.subrange(start as int, n as int);
            assert(cur.drop_first() =~= s@.subrange(start + 1, n as int));
        }
        start = start + 1;
    }
    assert(skip_leading(s@) == s@.subrange(start as int, n as int));
    let mut end: usize = n;
    while end > start && is_space_char(chars[end - 1])
        invariant
            n == chars@.len(),
            start <= end <= n,
            chars@ == s@,
            trimmed(s@) == skip_trailing(s@.subrange(start as int, end as int)),
        decreases end - start,
    {
        proof {
            let cur = s@.subrange(start as int, end as int);
            assert(cur.drop_last() =~= s@.subrange(start as int, end - 1));
        }
        end = end - 1;
    }
    s.substring_char(start, end).to_owned()
}

/// The character that writes the decimal digit `d`.
pub open spec fn digit(d: int) -> char {
    if d == 0 {
        '0'
    } else if d == 1 {
        '1'
    } else if d == 2 {
        '2'
    } else if d == 3 {
        '3'
    } else if d == 4 {
        '4'
    } else if d == 5 {
        '5'
    } else if d == 6 {
        '6'
    } else if d == 7 {
        '7'
    } else if d == 8 {
        '8'
    } else {
        '9'
    }
}

/// Decimal notation of a natural number, without leading zeros.
pub open spec fn decimal_nat(n: nat) -> Seq<char>
    decreases n,
{
    if n < 10 {
        seq![digit(n as int)]
    } else {
        decimal_nat(n / 10).push(digit((n % 10) as int))
    }
}

/// Decimal notation of an integer, with a leading `-` when it is negative.
pub open spec fn decimal(n: int) -> Seq<char> {
    if n < 0 {
        seq!['-'] + decimal_nat((-n) as nat)
    } else {
        decimal_nat(n as nat)
    }
}

fn digit_text(d: u64) -> (r: &'static str)
    requires
        d < 10,
    ensures
        r@ == seq![digit(d as int)],
{
    proof {
        reveal_strlit("0");
        reveal_strlit("1");
        reveal_strlit("2");
        reveal_strlit("3");
        reveal_strlit("4");
        reveal_strlit("5");
        reveal_strlit("6");
        reveal_strlit("7");
        reveal_strlit("8");
        reveal_strlit("9");
    }
    let r = if d == 0 {
        "0"
    } else if d == 1 {
        "1"
    } else if d == 2 {
        "2"
    } else if d == 3 {
        "3"
    } else if d == 4 {
        "4"
    } else if d == 5 {
        "5"
    } else if d == 6 {
        "6"
    } else if d == 7 {
        "7"
    } else if d == 8 {
        "8"
    } else {
        "9"
    };
    assert(r@ =~= seq![digit(d as int)]);
    r
}

/// Writes `n` in decimal notation.
pub fn decimal_nat_text(n: u64) -> (r: String)
    ensures
        r@ == decimal_nat(n as nat),
    decreases n,
{
    if n < 10 {
        String::from_str(digit_text(n))
    } else {
        let mut s = decimal_nat_text(n / 10);
        let ghost before = s@;
        s.append(digit_text(n % 10));
        assert(s@ =~= before.push(digit((n % 10) as int)));
        s
    }
}

/// Writes `n` in decimal notation.
pub fn decimal_text(n: i32) -> (r: String)
    ensures
        r@ == decimal(n as int),
{
    if n < 0 {
        let magnitude: u64 = (-(n as i64)) as u64;
        let digits = decimal_nat_text(magnitude);
        proof {
            reveal_strlit("-");
        }
        let mut s = String::from_str("-");
        s.append(digits.as_str());
        assert(s@ =~= seq!['-'] + decimal_nat((-n) as nat));
        s
    } else {
        decimal_nat_text(n as u64)
    }
}

/// A fresh copy of each of `items`.
pub fn copy_texts(items: &Vec<String>) -> (r: Vec<String>)
    ensures
        r.deep_view() == items.deep_view(),
{
    let mut out: Vec<String> = Vec::new();
    let mut i: usize = 0;
    while i < items.len()
        invariant
            i <= items.len(),
            out.len() == i,
            forall|j: int| 0 <= j < i ==> out[j]@ == items[j]@,
        decreases items.len() - i,
    {
        out.push(items[i].clone());
        i = i + 1;
    }
    assert(out.deep_view() =~= items.deep_view());
    out
}

/// A fresh copy of an optional text.
pub fn copy_optional(item: &Option<String>) -> (r: Option<String>)
    ensures
        r.deep_view() == item.deep_view(),
{
    match item {
        Some(s) => Some(s.clone()),
        None => None,
    }
}

/// Appends a copy of `item` to `list`.
pub fn push_text(list: &mut Vec<String>, item: &str)
    ensures
        final(list).deep_view() == old(list).deep_view().push(item@),
{
    list.push(String::from_str(item));
    assert(list.deep_view() =~= old(list).deep_view().push(item@));
}

/// The list that holds a copy of `item` and nothing else.
pub fn one_text(item: &str) -> (r: Vec<String>)
    ensures
        r.deep_view() == seq![item@],
{
    let mut list: Vec<String> = Vec::new();
    assert(list.deep_view() =~= Seq::<Seq<char>>::empty());
    push_text(&mut list, item);
    list
}

/// The list without any text.
pub fn no_texts() -> (r: Vec<String>)
    ensures
        r.deep_view() == Seq::<Seq<char>>::empty(),
{
    let list: Vec<String> = Vec::new();
    assert(list.deep_view() =~= Seq::<Seq<char>>::empty());
    list
}

/// Whether `needle` occurs in `text` at index `at`.
pub open spec fn occurs_at(text: Seq<char>, needle: Seq<char>, at: int) -> bool {
    0 <= at && at + needle.len() <= text.len() && text.subrange(at, at + needle.len()) == needle
}

/// Whether `needle` occurs somewhere in `text`.
pub open spec fn contains_text(text: Seq<char>, needle: Seq<char>) -> bool {
    exists|at: int| occurs_at(text, needle, at)
}

/// Whether `text` begins with `prefix`.
pub open spec fn starts_with(text: Seq<char>, prefix: Seq<char>) -> bool {
    occurs_at(text, prefix, 0)
}

/// Decides whether `needle` occurs in `text` at index `at`.
fn matches_at(text: &Vec<char>, needle: &Vec<char>, at: usize) -> (r: bool)
    requires
        at + needle.len() <= text.len(),
    ensures
        r == occurs_at(text@, needle@, at as int),
{
    let mut j: usize = 0;
    while j < needle.len()
        invariant
            j <= needle.len(),
            at + needle.len() <= text.len(),
            forall|k: int| 0 <= k < j ==> text@[at + k] == needle@[k],
        decreases needle.len() - j,
    {
        if text[at + j] != needle[j] {
            assert(text@.subrange(at as int, at + needle.len())[j as int] != needle@[j as int]);
            return false;
        }
        j = j + 1;
    }
    assert(text@.subrange(at as int, at + needle.len()) =~= needle@);
    true
}

/// Decides whether `needle` occurs somewhere in `text`.
pub fn has_text(text: &str, needle: &str) -> (r: bool)
    ensures
        r == contains_text(text@, needle@),
{
    let hay = chars_of(text);
    let pin = chars_of(needle);
    if pin.len() > hay.len() {
        return false;
    }
    if pin.len() == 0 {
        assert(occurs_at(text@, needle@, 0)) by {
            assert(text@.subrange(0, 0) =~= needle@);
        }
        return true;
    }
    let last: usize = hay.len() - pin.len();
    let mut at: usize = 0;
    while at <= last
        invariant
            at <= last + 1,
            last == hay.len() - pin.len(),
            0 < pin.len() <= hay.len(),
            hay@ == text@,
            pin@ == needle@,
            forall|k: int| 0 <= k < at ==> !occurs_at(text@, needle@, k),
        decreases last + 1 - at,
    {
        if matches_at(&hay, &pin, at) {
            return true;
        }
        at = at + 1;
    }
    false
}

/// Decides whether `text` begins with `prefix`.
pub fn has_prefix(text: &str, prefix: &str) -> (r: bool)
    ensures
        r == starts_with(text@, prefix@),
{
    let hay = chars_of(text);
    let pin = chars_of(prefix);
    if pin.len() > hay.len() {
        return false;
    }
    matches_at(&hay, &pin, 0)
}

/// The texts of `items` in order, with `sep` between one and the next.
pub open spec fn joined_texts(items: Seq<Seq<char>>, sep: Seq<char>) -> Seq<char>
    decreases items.len(),
{
    if items.len() == 0 {
        Seq::empty()
    } else if items.len() == 1 {
        items[0]
    } else {
        joined_texts(items.drop_last(), sep) + sep + items.last()
    }
}

/// Writes the texts of `items` in order, with `sep` between one and the
/// next.
pub fn join_texts(items: &Vec<String>, sep: &str) -> (r: String)
    ensures
        r@ == joined_texts(items.deep_view(), sep@),
{
    let ghost all = items.deep_view();
    let mut out = String::new();
    let mut i: usize = 0;
    assert(all.take(0) =~= Seq::<Seq<char>>::empty());
    while i < items.len()
        invariant
            i <= items.len(),
            all == items.deep_view(),
            out@ == joined_texts(all.take(i as int), sep@),
        decreases items.len() - i,
    {
        if i > 0 {
            out.append(sep);
        }
        out.append(items[i].as_str());
        proof {
            let next = all.take(i + 1);
            assert(next.drop_last() =~= all.take(i as int));
            assert(next.last() == items[i as int]@);
            if i == 0 {
                assert(out@ =~= items[i as int]@);
            }
        }
        i = i + 1;
    }
    assert(all.take(i as int) =~= all);
    out
}

/// The lower-case form of a text, as the standard library computes it.
pub uninterp spec fn lowercase(s: Seq<char>) -> Seq<char>;

/// Calls `str::to_lowercase`, which maps each character to its lower-case
/// form by the Unicode tables built into the standard library. The result
/// depends on the characters of `s` alone.
#[verifier::external_body]
pub(crate) fn to_lowercase(s: &str) -> (r: String)
    ensures
        r@ == lowercase(s@),
{
    s.to_lowercase()
}

} // verus!

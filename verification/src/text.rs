//! Predicates and procedures on character sequences.
//!
//! Strings are modelled by their view, a `Seq<char>`. Everything here is
//! stated over that view, so that the rest of the crate can speak of
//! substrings and of lexicographic order without looking at bytes.

use vstd::prelude::*;
use vstd::string::StringExecFns;

verus! {

/// `needle` stands in `hay` at offset `at`.
pub open spec fn occurs_at(hay: Seq<char>, needle: Seq<char>, at: int) -> bool {
    &&& 0 <= at
    &&& at + needle.len() <= hay.len()
    &&& hay.subrange(at, at + needle.len()) == needle
}

/// `needle` stands somewhere in `hay`.
pub open spec fn contains_text(hay: Seq<char>, needle: Seq<char>) -> bool {
    exists|at: int| occurs_at(hay, needle, at)
}

/// `a` and `b` hold the same characters at every offset below `k`.
pub open spec fn agree_before(a: Seq<char>, b: Seq<char>, k: int) -> bool {
    &&& 0 <= k <= a.len()
    &&& k <= b.len()
    &&& forall|i: int| 0 <= i < k ==> a[i] == b[i]
}

/// Offset `k` decides that `a` sorts before `b`: the two agree up to `k`,
/// and there `a` ends while `b` goes on, or `a` holds the smaller code point.
pub open spec fn precedes_at(a: Seq<char>, b: Seq<char>, k: int) -> bool {
    &&& agree_before(a, b, k)
    &&& k < b.len()
    &&& k < a.len() ==> a[k] < b[k]
}

/// Lexicographic order by code point, strict.
pub open spec fn precedes(a: Seq<char>, b: Seq<char>) -> bool {
    exists|k: int| precedes_at(a, b, k)
}

/// How two character sequences stand to each other in lexicographic order.
#[derive(Clone, Copy, Debug, PartialEq, Eq, Structural)]
pub enum TextOrder {
    Before,
    Same,
    After,
}

/// The order of `a` relative to `b`.
pub open spec fn text_order(a: Seq<char>, b: Seq<char>) -> TextOrder {
    if precedes(a, b) {
        TextOrder::Before
    } else if a == b {
        TextOrder::Same
    } else {
        TextOrder::After
    }
}

/// No sequence sorts before itself, and no two sort before each other.
pub proof fn lemma_precedes_asymmetric(a: Seq<char>, b: Seq<char>)
    requires
        precedes(a, b),
    ensures
        !precedes(b, a),
        a != b,
{
    let k = choose|k: int| precedes_at(a, b, k);
    assert forall|j: int| !precedes_at(b, a, j) by {
        if j < k {
            assert(precedes_at(b, a, j) ==> b[j] < a[j]);
        } else if k < j {
            assert(precedes_at(b, a, j) ==> b[k] == a[k]);
        }
    }
}

/// The order is transitive.
pub proof fn lemma_precedes_transitive(a: Seq<char>, b: Seq<char>, c: Seq<char>)
    requires
        precedes(a, b),
        precedes(b, c),
    ensures
        precedes(a, c),
{
    let i = choose|k: int| precedes_at(a, b, k);
    let j = choose|k: int| precedes_at(b, c, k);
    let k = if i <= j { i } else { j };
    assert(precedes_at(a, c, k));
}

/// Of two different sequences one sorts before the other.
pub proof fn lemma_precedes_total(a: Seq<char>, b: Seq<char>)
    ensures
        precedes(a, b) || a == b || precedes(b, a),
{
    lemma_order_from(a, b, 0);
}

/// Two sequences that agree below `k` are equal or ordered one way or the other.
proof fn lemma_order_from(a: Seq<char>, b: Seq<char>, k: int)
    requires
        agree_before(a, b, k),
    ensures
        precedes(a, b) || a == b || precedes(b, a),
    decreases a.len() - k,
{
    if k == a.len() && k == b.len() {
        assert(a =~= b);
    } else if k < a.len() && k < b.len() && a[k] == b[k] {
        lemma_order_from(a, b, k + 1);
    } else if k == a.len() || (k < b.len() && a[k] < b[k]) {
        assert(precedes_at(a, b, k));
    } else {
        assert(precedes_at(b, a, k));
    }
}

/// The characters of `s`, in order.
pub fn chars_of(s: &str) -> (v: Vec<char>)
    ensures
        v@ == s@,
{
    let mut v: Vec<char> = Vec::new();
    for c in it: s.chars()
        invariant
            v@ == it.seq().take(it.index() as int),
            it.seq() == s@,
    {
        v.push(c);
    }
    v
}

/// Tells whether `needle` stands in `hay` at offset `at`.
pub(crate) fn matches_at(hay: &[char], needle: &[char], at: usize) -> (r: bool)
    requires
        at + needle@.len() <= hay@.len(),
    ensures
        r == occurs_at(hay@, needle@, at as int),
{
    let end: usize = hay.len();
    let mut i: usize = 0;
    while i < needle.len()
        invariant
            i <= needle@.len(),
            at + needle@.len() <= hay@.len() == end,
            forall|j: int| 0 <= j < i ==> hay@[at + j] == needle@[j],
        decreases needle@.len() - i,
    {
        if hay[at + i] != needle[i] {
            return false;
        }
        i += 1;
    }
    assert(hay@.subrange(at as int, at + needle@.len()) =~= needle@);
    true
}

/// Tells whether `needle` stands somewhere in `hay`.
pub fn contains(hay: &[char], needle: &[char]) -> (r: bool)
    ensures
        r == contains_text(hay@, needle@),
{
    if needle.len() > hay.len() {
        return false;
    }
    let last: usize = hay.len() - needle.len();
    let mut at: usize = 0;
    while at < last
        invariant
            at <= last,
            last + needle@.len() == hay@.len(),
            forall|j: int| 0 <= j < at ==> !occurs_at(hay@, needle@, j),
        decreases last - at,
    {
        if matches_at(hay, needle, at) {
            return true;
        }
        at += 1;
    }
    matches_at(hay, needle, last)
}

/// Compares `a` with `b` in lexicographic order by code point.
pub fn compare(a: &[char], b: &[char]) -> (r: TextOrder)
    ensures
        r == text_order(a@, b@),
        r == TextOrder::After <==> precedes(b@, a@),
{
    let mut i: usize = 0;
    while i < a.len() && i < b.len() && a[i] == b[i]
        invariant
            agree_before(a@, b@, i as int),
        decreases a@.len() - i,
    {
        i += 1;
    }
    if i == a.len() && i == b.len() {
        assert(a@ =~= b@);
        proof {
            if precedes(a@, b@) {
                lemma_precedes_asymmetric(a@, b@);
            }
        }
        TextOrder::Same
    } else if i == a.len() || (i < b.len() && a[i] < b[i]) {
        assert(precedes_at(a@, b@, i as int));
        proof {
            lemma_precedes_asymmetric(a@, b@);
        }
        TextOrder::Before
    } else {
        assert(precedes_at(b@, a@, i as int));
        proof {
            lemma_precedes_asymmetric(b@, a@);
        }
        TextOrder::After
    }
}

/// Tells whether `a` and `b` hold the same characters.
pub fn same_text(a: &str, b: &str) -> (r: bool)
    ensures
        r == (a@ == b@),
{
    let left = chars_of(a);
    let right = chars_of(b);
    compare(left.as_slice(), right.as_slice()) == TextOrder::Same
}

/// The sequences of `parts` one after another, with `separator` between
/// each two neighbours.
pub open spec fn joined(parts: Seq<Seq<char>>, separator: Seq<char>) -> Seq<char>
    decreases parts.len(),
{
    if parts.len() == 0 {
        Seq::empty()
    } else if parts.len() == 1 {
        parts[0]
    } else {
        joined(parts.drop_last(), separator) + separator + parts.last()
    }
}

/// Joins `parts` with `separator` between each two neighbours.
pub fn join(parts: &[String], separator: &str) -> (r: String)
    ensures
        r@ == joined(parts.deep_view(), separator@),
{
    let mut r = String::new();
    let mut i: usize = 0;
    while i < parts.len()
        invariant
            i <= parts@.len(),
            r@ == joined(parts.deep_view().take(i as int), separator@),
        decreases parts@.len() - i,
    {
        assert(parts.deep_view().take(i + 1).drop_last() =~= parts.deep_view().take(i as int));
        if i > 0 {
            r.append(separator);
        }
        r.append(parts[i].as_str());
        i += 1;
    }
    assert(parts.deep_view().take(i as int) =~= parts.deep_view());
    r
}

/// Every sequence of `items` sorts before those that follow it: the order
/// is ascending and nothing occurs twice.
pub open spec fn strictly_ascending(items: Seq<Seq<char>>) -> bool {
    forall|i: int, j: int| 0 <= i < j < items.len() ==> precedes(items[i], items[j])
}

/// There is one way to list given texts in strictly ascending order: two
/// such listings that hold the same texts are the same listing.
pub proof fn lemma_strictly_ascending_unique(a: Seq<Seq<char>>, b: Seq<Seq<char>>)
    requires
        strictly_ascending(a),
        strictly_ascending(b),
        forall|t: Seq<char>| a.contains(t) <==> b.contains(t),
    ensures
        a == b,
    decreases a.len(),
{
    if a.len() == 0 {
        // A listing that holds nothing is empty.
        if b.len() > 0 {
            assert(b.contains(b[0]));
        }
        assert(a =~= b);
    } else {
        // The last text of either listing is the greatest of all, so the
        // two end alike.
        let x = a.last();
        assert(a.contains(x));
        let j = choose|j: int| 0 <= j < b.len() && b[j] == x;
        let y = b.last();
        assert(b.contains(y));
        let i = choose|i: int| 0 <= i < a.len() && a[i] == y;
        if x != y {
            assert(precedes(b[j], y) && precedes(a[i], x));
            lemma_precedes_asymmetric(x, y);
        }
        // Without it, the two still hold the same texts.
        let a0 = a.drop_last();
        let b0 = b.drop_last();
        assert forall|t: Seq<char>| a0.contains(t) <==> b0.contains(t) by {
            if a0.contains(t) {
                let k = choose|k: int| 0 <= k < a0.len() && a0[k] == t;
                lemma_precedes_asymmetric(t, x);
                assert(a.contains(a[k]));
                let m = choose|m: int| 0 <= m < b.len() && b[m] == t;
                assert(b0[m] == t);
            }
            if b0.contains(t) {
                let k = choose|k: int| 0 <= k < b0.len() && b0[k] == t;
                lemma_precedes_asymmetric(t, y);
                assert(b.contains(b[k]));
                let m = choose|m: int| 0 <= m < a.len() && a[m] == t;
                assert(a0[m] == t);
            }
        }
        lemma_strictly_ascending_unique(a0, b0);
        assert(a =~= a0.push(x));
        assert(b =~= b0.push(y));
    }
}

/// The texts of `items` in ascending lexicographic order, each of them once.
pub fn sorted_distinct(items: &[String]) -> (r: Vec<String>)
    ensures
        strictly_ascending(r.deep_view()),
        forall|t: Seq<char>| r.deep_view().contains(t) <==> items.deep_view().contains(t),
{
    let mut out: Vec<String> = Vec::new();
    let mut keys: Vec<Vec<char>> = Vec::new();
    let mut i: usize = 0;
    while i < items.len()
        invariant
            i <= items@.len(),
            keys@.len() == out@.len(),
            forall|k: int| 0 <= k < out@.len() ==> (#[trigger] keys@[k])@ == out@[k]@,
            strictly_ascending(out.deep_view()),
            forall|j: int| 0 <= j < i ==> out.deep_view().contains(#[trigger] items@[j]@),
            forall|k: int|
                0 <= k < out@.len() ==> items.deep_view().contains(#[trigger] out@[k]@),
        decreases items@.len() - i,
    {
        let key = chars_of(items[i].as_str());
        let mut at: usize = out.len();
        while at > 0 && compare(key.as_slice(), keys[at - 1].as_slice()) == TextOrder::Before
            invariant
                at <= out@.len(),
                keys@.len() == out@.len(),
                forall|k: int| 0 <= k < out@.len() ==> (#[trigger] keys@[k])@ == out@[k]@,
                forall|k: int| at <= k < out@.len() ==> precedes(key@, #[trigger] out@[k]@),
            decreases at,
        {
            at -= 1;
        }
        let ghost before = out.deep_view();
        assert(items.deep_view()[i as int] == items@[i as int]@);
        if at > 0 && compare(key.as_slice(), keys[at - 1].as_slice()) == TextOrder::Same {
            assert(before[at - 1] == key@);
        } else {
            out.insert(at, items[i].clone());
            keys.insert(at, key);
            proof {
                let after = out.deep_view();
                assert(after =~= before.insert(at as int, key@));
                assert forall|a: int, b: int| 0 <= a < b < after.len() implies precedes(
                    after[a],
                    after[b],
                ) by {
                    if b == at && a < at - 1 {
                        lemma_precedes_transitive(before[a], before[at - 1], key@);
                    }
                }
                assert forall|j: int| 0 <= j < i implies after.contains(
                    #[trigger] items@[j]@,
                ) by {
                    let k = choose|k: int| 0 <= k < before.len() && before[k] == items@[j]@;
                    let k1 = if k < at { k } else { k + 1 };
                    assert(after[k1] == items@[j]@);
                }
                assert(after[at as int] == key@);
            }
        }
        i += 1;
    }
    proof {
        assert forall|t: Seq<char>| out.deep_view().contains(t) <==> items.deep_view().contains(
            t,
        ) by {
            if items.deep_view().contains(t) {
                let j = choose|j: int| 0 <= j < items@.len() && items.deep_view()[j] == t;
                assert(out.deep_view().contains(items@[j]@));
            }
            if out.deep_view().contains(t) {
                let k = choose|k: int| 0 <= k < out@.len() && out.deep_view()[k] == t;
                assert(items.deep_view().contains(out@[k]@));
            }
        }
    }
    out
}

} // verus!

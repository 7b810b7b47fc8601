//! The order in which the entries of a plan are sorted.
//!
//! Entries are put in order by a key of seven parts, the first part that
//! differs deciding: loose before packed; the stock unit identifier; the
//! case's length, width, height and weight; the staging group. A part that an
//! entry does not have counts as zero, or as the empty text.
use crate::entry::{Entry, EntryView};
use vstd::prelude::*;
use vstd::string::StrSliceExecFns;

verus! {

/// Whether `a` comes before `b` in the dictionary, given that the two agree
/// on their first `i` characters. Characters are ordered by code point, and a
/// text comes after each of its proper prefixes.
pub open spec fn text_lt_from(a: Seq<char>, b: Seq<char>, i: int) -> bool
    decreases b.len() - i,
{
    if i < 0 || i >= b.len() {
        false
    } else if i >= a.len() {
        true
    } else if a[i] != b[i] {
        (a[i] as int) < (b[i] as int)
    } else {
        text_lt_from(a, b, i + 1)
    }
}

/// Whether `a` comes strictly before `b` in the dictionary.
pub open spec fn text_lt(a: Seq<char>, b: Seq<char>) -> bool {
    text_lt_from(a, b, 0)
}

/// Whether two texts agree on their first `i` characters.
pub open spec fn agree_until(a: Seq<char>, b: Seq<char>, i: int) -> bool {
    &&& 0 <= i <= a.len()
    &&& i <= b.len()
    &&& forall|k: int| 0 <= k < i ==> a[k] == b[k]
}

/// Of two texts that agree on their first `i` characters, exactly one of
/// three things holds: the first comes before the second, the second before
/// the first, or they are the same text.
pub proof fn lemma_text_trichotomy_from(a: Seq<char>, b: Seq<char>, i: int)
    requires
        agree_until(a, b, i),
    ensures
        text_lt_from(a, b, i) || text_lt_from(b, a, i) || a == b,
        !(text_lt_from(a, b, i) && text_lt_from(b, a, i)),
        a == b ==> !text_lt_from(a, b, i),
    decreases a.len() + b.len() - 2 * i,
{
    if i < a.len() && i < b.len() {
        if a[i] == b[i] {
            lemma_text_trichotomy_from(a, b, i + 1);
        }
    } else if i == a.len() && i == b.len() {
        assert(a =~= b);
    }
}

/// What comes before something that comes before a third text comes before
/// the third, among texts that agree on their first `i` characters.
pub proof fn lemma_text_lt_transitive_from(a: Seq<char>, b: Seq<char>, c: Seq<char>, i: int)
    requires
        agree_until(a, b, i),
        agree_until(b, c, i),
        text_lt_from(a, b, i),
        text_lt_from(b, c, i),
    ensures
        text_lt_from(a, c, i),
    decreases c.len() - i,
{
    if i < a.len() && i < b.len() && i < c.len() {
        if a[i] == b[i] && b[i] == c[i] {
            lemma_text_lt_transitive_from(a, b, c, i + 1);
        }
    }
}

/// The dictionary order is a strict total order on texts.
pub proof fn lemma_text_order(a: Seq<char>, b: Seq<char>, c: Seq<char>)
    ensures
        !text_lt(a, a),
        text_lt(a, b) || text_lt(b, a) || a == b,
        !(text_lt(a, b) && text_lt(b, a)),
        text_lt(a, b) && text_lt(b, c) ==> text_lt(a, c),
{
    lemma_text_trichotomy_from(a, a, 0);
    lemma_text_trichotomy_from(a, b, 0);
    if text_lt(a, b) && text_lt(b, c) {
        lemma_text_lt_transitive_from(a, b, c, 0);
    }
}

/// The key by which entries are sorted.
pub struct SortKey {
    /// 0 for a loose entry, 1 for a packed one: loose entries come first.
    pub rank: u8,
    pub fnsku: Seq<char>,
    pub length: u32,
    pub width: u32,
    pub height: u32,
    pub weight: u32,
    pub group: Seq<char>,
}

/// The key of an entry. A loose entry has no case: its dimensions and case
/// weight count as zero. A packed entry has no staging group: it counts as
/// the empty text.
pub open spec fn sort_key(e: EntryView) -> SortKey {
    match e {
        EntryView::Loose(l) => SortKey {
            rank: 0,
            fnsku: l.fnsku,
            length: 0,
            width: 0,
            height: 0,
            weight: 0,
            group: l.group,
        },
        EntryView::Packed(p) => SortKey {
            rank: 1,
            fnsku: p.fnsku,
            length: p.case.length,
            width: p.case.width,
            height: p.case.height,
            weight: p.case.gram_weight,
            group: Seq::<char>::empty(),
        },
    }
}

/// Whether key `a` comes strictly before key `b`: the first part in which
/// the two differ decides.
pub open spec fn key_lt(a: SortKey, b: SortKey) -> bool {
    if a.rank != b.rank {
        a.rank < b.rank
    } else if a.fnsku != b.fnsku {
        text_lt(a.fnsku, b.fnsku)
    } else if a.length != b.length {
        a.length < b.length
    } else if a.width != b.width {
        a.width < b.width
    } else if a.height != b.height {
        a.height < b.height
    } else if a.weight != b.weight {
        a.weight < b.weight
    } else {
        text_lt(a.group, b.group)
    }
}

/// Whether entry `a` may stand before entry `b` in a sorted plan: `b` does
/// not come strictly before `a`.
pub open spec fn precedes(a: EntryView, b: EntryView) -> bool {
    !key_lt(sort_key(b), sort_key(a))
}

/// The order of the keys is a strict total order.
pub proof fn lemma_key_order(a: SortKey, b: SortKey, c: SortKey)
    ensures
        !key_lt(a, a),
        key_lt(a, b) || key_lt(b, a) || a == b,
        !(key_lt(a, b) && key_lt(b, a)),
        key_lt(a, b) && key_lt(b, c) ==> key_lt(a, c),
{
    lemma_text_order(a.fnsku, b.fnsku, c.fnsku);
    lemma_text_order(b.fnsku, a.fnsku, c.fnsku);
    lemma_text_order(b.fnsku, c.fnsku, a.fnsku);
    lemma_text_order(a.group, b.group, c.group);
    lemma_text_order(b.group, a.group, c.group);
    lemma_text_order(b.group, c.group, a.group);
}

/// Any two entries can be put in order, every entry may stand before itself,
/// and the order carries over a middle entry.
pub proof fn lemma_precedes_is_total_preorder(a: EntryView, b: EntryView, c: EntryView)
    ensures
        precedes(a, a),
        precedes(a, b) || precedes(b, a),
        precedes(a, b) && precedes(b, c) ==> precedes(a, c),
{
    lemma_key_order(sort_key(a), sort_key(b), sort_key(c));
    lemma_key_order(sort_key(c), sort_key(b), sort_key(a));
    lemma_key_order(sort_key(b), sort_key(a), sort_key(c));
    lemma_key_order(sort_key(c), sort_key(a), sort_key(b));
}

/// Whether `a` comes strictly before `b` in the dictionary.
pub fn text_comes_before(a: &str, b: &str) -> (r: bool)
    ensures
        r == text_lt(a@, b@),
{
    let a_len: usize = a.unicode_len();
    let b_len: usize = b.unicode_len();
    let mut i: usize = 0;
    while i < a_len && i < b_len
        invariant
            a_len == a@.len(),
            b_len == b@.len(),
            agree_until(a@, b@, i as int),
            text_lt(a@, b@) == text_lt_from(a@, b@, i as int),
        decreases a_len - i,
    {
        let x: char = a.get_char(i);
        let y: char = b.get_char(i);
        if x != y {
            return (x as u32) < (y as u32);
        }
        i = i + 1;
    }
    i < b_len
}

/// Whether two texts are the same.
pub fn same_text(a: &str, b: &str) -> (r: bool)
    ensures
        r == (a@ == b@),
{
    let a_len: usize = a.unicode_len();
    let b_len: usize = b.unicode_len();
    if a_len != b_len {
        return false;
    }
    let mut i: usize = 0;
    while i < a_len
        invariant
            a_len == a@.len(),
            b_len == b@.len(),
            a_len == b_len,
            agree_until(a@, b@, i as int),
        decreases a_len - i,
    {
        if a.get_char(i) != b.get_char(i) {
            return false;
        }
        i = i + 1;
    }
    assert(a@ =~= b@);
    true
}

/// Whether entry `a` comes strictly before entry `b` in the order of the
/// keys.
pub fn comes_before(a: &Entry, b: &Entry) -> (r: bool)
    ensures
        r == key_lt(sort_key(a@), sort_key(b@)),
{
    let a_rank: u8 = if a.is_loose() {
        0
    } else {
        1
    };
    let b_rank: u8 = if b.is_loose() {
        0
    } else {
        1
    };
    if a_rank != b_rank {
        return a_rank < b_rank;
    }
    if !same_text(a.get_fnsku(), b.get_fnsku()) {
        return text_comes_before(a.get_fnsku(), b.get_fnsku());
    }
    let a_length: u32 = or_zero(a.try_case_length());
    let b_length: u32 = or_zero(b.try_case_length());
    if a_length != b_length {
        return a_length < b_length;
    }
    let a_width: u32 = or_zero(a.try_case_width());
    let b_width: u32 = or_zero(b.try_case_width());
    if a_width != b_width {
        return a_width < b_width;
    }
    let a_height: u32 = or_zero(a.try_case_height());
    let b_height: u32 = or_zero(b.try_case_height());
    if a_height != b_height {
        return a_height < b_height;
    }
    let a_weight: u32 = or_zero(a.try_case_gram_weight());
    let b_weight: u32 = or_zero(b.try_case_gram_weight());
    if a_weight != b_weight {
        return a_weight < b_weight;
    }
    let a_group: &str = or_empty(a.try_group_name());
    let b_group: &str = or_empty(b.try_group_name());
    text_comes_before(a_group, b_group)
}

/// The number, or zero where there is none.
fn or_zero(n: Option<u32>) -> (r: u32)
    ensures
        r == match n {
            Some(v) => v,
            None => 0,
        },
{
    match n {
        Some(v) => v,
        None => 0,
    }
}

/// The text, or the empty text where there is none.
fn or_empty<'a>(t: Option<&'a str>) -> (r: &'a str)
    ensures
        r@ == match t {
            Some(v) => v@,
            None => Seq::<char>::empty(),
        },
{
    match t {
        Some(v) => v,
        None => {
            let empty: &'static str = "";
            proof {
                reveal_strlit("");
                assert(empty@ =~= Seq::<char>::empty());
            }
            empty
        },
    }
}

} // verus!

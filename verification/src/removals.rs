//! Rows of a removal shipment report.
use crate::order::same_text;
use vstd::prelude::*;
use vstd::string::StrSliceExecFns;

verus! {

/// Whether a character is white space: the characters that Unicode gives the
/// property `White_Space`.
pub open spec fn is_space(c: char) -> bool {
    let code = c as int;
    ||| 0x09 <= code <= 0x0d
    ||| code == 0x20
    ||| code == 0x85
    ||| code == 0xa0
    ||| code == 0x1680
    ||| 0x2000 <= code <= 0x200a
    ||| code == 0x2028
    ||| code == 0x2029
    ||| code == 0x202f
    ||| code == 0x205f
    ||| code == 0x3000
}

/// The number of white space characters at the start of a text.
pub open spec fn leading_spaces(t: Seq<char>) -> nat
    decreases t.len(),
{
    if t.len() > 0 && is_space(t[0]) {
        1 + leading_spaces(t.drop_first())
    } else {
        0
    }
}

/// The number of white space characters at the end of a text.
pub open spec fn trailing_spaces(t: Seq<char>) -> nat
    decreases t.len(),
{
    if t.len() > 0 && is_space(t.last()) {
        1 + trailing_spaces(t.drop_last())
    } else {
        0
    }
}

/// A text without the white space at its start and at its end.
pub open spec fn trimmed(t: Seq<char>) -> Seq<char> {
    let rest = t.skip(leading_spaces(t) as int);
    rest.take(rest.len() - trailing_spaces(rest))
}

/// The parts into which commas divide a text, in their order. A text without
/// a comma is its own single part, and so is the empty text.
pub open spec fn parts(t: Seq<char>) -> Seq<Seq<char>>
    decreases t.len(),
{
    if t.len() == 0 {
        seq![t]
    } else {
        let before = parts(t.drop_last());
        if t.last() == ',' {
            before.push(Seq::<char>::empty())
        } else {
            before.update(before.len() - 1, before.last().push(t.last()))
        }
    }
}

/// The texts without those that occurred before, in their order.
pub open spec fn first_occurrences(s: Seq<Seq<char>>) -> Seq<Seq<char>>
    decreases s.len(),
{
    if s.len() == 0 {
        s
    } else {
        let before = first_occurrences(s.drop_last());
        if before.contains(s.last()) {
            before
        } else {
            before.push(s.last())
        }
    }
}

/// The tracking numbers in a cell that lists them with commas between them:
/// each part of the cell once, in the order in which the parts first occur,
/// and without the white space around it. Parts are compared as they stand
/// in the cell, white space included.
pub open spec fn tracking_numbers(t: Seq<char>) -> Seq<Seq<char>> {
    first_occurrences(parts(t)).map_values(|p: Seq<char>| trimmed(p))
}

/// What each of the texts holds.
pub open spec fn texts(s: Seq<&str>) -> Seq<Seq<char>> {
    s.map_values(|t: &str| t@)
}

/// A text has at least one part, and at least one part is left when each is
/// taken once.
pub proof fn lemma_parts(t: Seq<char>)
    ensures
        parts(t).len() >= 1,
        first_occurrences(parts(t)).len() >= 1,
    decreases t.len(),
{
    if t.len() > 0 {
        lemma_parts(t.drop_last());
    }
    lemma_first_occurrences(parts(t));
}

/// Taking each text once leaves the same texts, none of them twice: never
/// more than there were, and at least one where there was one.
pub proof fn lemma_first_occurrences(s: Seq<Seq<char>>)
    ensures
        first_occurrences(s).len() <= s.len(),
        s.len() >= 1 ==> first_occurrences(s).len() >= 1,
        forall|x: Seq<char>| first_occurrences(s).contains(x) <==> s.contains(x),
        first_occurrences(s).no_duplicates(),
    decreases s.len(),
{
    if s.len() > 0 {
        let front = s.drop_last();
        lemma_first_occurrences(front);
        let before = first_occurrences(front);
        let after = first_occurrences(s);
        assert forall|x: Seq<char>| after.contains(x) <==> s.contains(x) by {
            if after.contains(x) {
                let i = choose|i: int| 0 <= i < after.len() && after[i] == x;
                if before.contains(s.last()) || i < before.len() {
                    assert(before[i] == x);
                    assert(before.contains(x));
                    assert(front.contains(x));
                    let j = choose|j: int| 0 <= j < front.len() && front[j] == x;
                    assert(s[j] == x);
                } else {
                    assert(s[s.len() - 1] == x);
                }
            }
            if s.contains(x) {
                let j = choose|j: int| 0 <= j < s.len() && s[j] == x;
                if j < front.len() {
                    assert(front[j] == x);
                    assert(front.contains(x));
                    let i = choose|i: int| 0 <= i < before.len() && before[i] == x;
                    assert(after[i] == x);
                } else if before.contains(s.last()) {
                } else {
                    assert(after[after.len() - 1] == x);
                }
            }
        }
        if !before.contains(s.last()) {
            assert forall|i: int, j: int| 0 <= i < j < after.len() implies after[i] != after[j] by {
                if j == before.len() {
                    assert(before[i] == after[i]);
                    assert(before.contains(after[i]));
                } else {
                    assert(before[i] != before[j]);
                }
            }
        }
    }
}

/// Whether a character is white space.
pub fn is_white_space(c: char) -> (r: bool)
    ensures
        r == is_space(c),
{
    let code: u32 = c as u32;
    (0x09 <= code && code <= 0x0d) || code == 0x20 || code == 0x85 || code == 0xa0 || code
        == 0x1680 || (0x2000 <= code && code <= 0x200a) || code == 0x2028 || code == 0x2029 || code
        == 0x202f || code == 0x205f || code == 0x3000
}

/// A text without the white space at its start and at its end.
pub fn trim<'a>(t: &'a str) -> (r: &'a str)
    ensures
        r@ == trimmed(t@),
{
    let len: usize = t.unicode_len();
    let mut from: usize = 0;
    assert(t@.skip(0) =~= t@);
    while from < len && is_white_space(t.get_char(from))
        invariant
            from <= len,
            len == t@.len(),
            leading_spaces(t@) == from + leading_spaces(t@.skip(from as int)),
        decreases len - from,
    {
        assert(t@.skip(from as int).drop_first() =~= t@.skip(from + 1));
        from = from + 1;
    }
    let ghost rest = t@.skip(from as int);
    let mut to: usize = len;
    assert(rest.take(rest.len() as int) =~= rest);
    while to > from && is_white_space(t.get_char(to - 1))
        invariant
            from <= to <= len,
            len == t@.len(),
            rest == t@.skip(from as int),
            trailing_spaces(rest) == (len - to) + trailing_spaces(rest.take(to - from)),
        decreases to,
    {
        assert(rest.take(to - from).drop_last() =~= rest.take(to - from - 1));
        assert(rest.take(to - from).last() == t@[to - 1]);
        to = to - 1;
    }
    proof {
        if to > from {
            assert(rest.take(to - from).last() == t@[to - 1]);
        }
        assert(rest.take(to - from) =~= t@.subrange(from as int, to as int));
    }
    t.substring_char(from, to)
}

/// Whether one of the texts is the given text.
fn holds(seen: &Vec<&str>, t: &str) -> (r: bool)
    ensures
        r == texts(seen@).contains(t@),
{
    let n: usize = seen.len();
    let mut i: usize = 0;
    while i < n
        invariant
            i <= n,
            n == seen@.len(),
            forall|k: int| 0 <= k < i ==> (#[trigger] texts(seen@)[k]) != t@,
        decreases n - i,
    {
        if same_text(seen[i], t) {
            assert(texts(seen@)[i as int] == t@);
            return true;
        }
        i = i + 1;
    }
    false
}

/// A row of a removal shipment report.
#[derive(Debug)]
pub struct CsvRemShipParser {
    pub carrier: String,
    pub disposition: String,
    pub fnsku: String,
    pub merchant_sku: String,
    pub order_id: String,
    pub removal_type: String,
    pub request_date: String,
    pub shipment_date: String,
    pub shipped_quantity: u32,
    /// The tracking numbers of the shipment, with commas between them.
    pub tracking: String,
}

impl CsvRemShipParser {
    /// The tracking numbers of the row: each part of the tracking cell once,
    /// without the white space around it. A cell without a comma gives the
    /// whole cell, so that there is always at least one number.
    pub fn split_tracking_numbers(&self) -> (r: Vec<&str>)
        ensures
            texts(r@) == tracking_numbers(self.tracking@),
            r@.len() >= 1,
    {
        let text: &str = self.tracking.as_str();
        let len: usize = text.unicode_len();
        let mut found: Vec<&str> = Vec::new();
        let mut start: usize = 0;
        let mut i: usize = 0;
        assert(text@.take(0) =~= Seq::<char>::empty());
        assert(text@.subrange(0, 0) =~= Seq::<char>::empty());
        assert(texts(found@) =~= first_occurrences(parts(text@.take(0)).drop_last()));
        while i < len
            invariant
                start <= i <= len,
                len == text@.len(),
                parts(text@.take(i as int)).len() >= 1,
                parts(text@.take(i as int)).last() == text@.subrange(start as int, i as int),
                texts(found@) == first_occurrences(parts(text@.take(i as int)).drop_last()),
            decreases len - i,
        {
            let ghost read = parts(text@.take(i as int));
            proof {
                assert(text@.take(i + 1).drop_last() =~= text@.take(i as int));
                assert(text@.take(i + 1).last() == text@[i as int]);
            }
            if text.get_char(i) == ',' {
                let part: &str = text.substring_char(start, i);
                let ghost before = texts(found@);
                if !holds(&found, part) {
                    found.push(part);
                    assert(texts(found@) =~= before.push(part@));
                }
                proof {
                    assert(read.push(Seq::<char>::empty()).drop_last() =~= read);
                    assert(read.drop_last().push(read.last()) =~= read);
                    assert(text@.subrange(i + 1, i + 1) =~= Seq::<char>::empty());
                }
                start = i + 1;
            } else {
                proof {
                    let next = read.update(read.len() - 1, read.last().push(text@[i as int]));
                    assert(next.drop_last() =~= read.drop_last());
                    assert(text@.subrange(start as int, i as int).push(text@[i as int])
                        =~= text@.subrange(start as int, i + 1));
                }
            }
            i = i + 1;
        }
        let part: &str = text.substring_char(start, len);
        let ghost before = texts(found@);
        let ghost all = parts(text@);
        assert(text@.take(len as int) =~= text@);
        assert(all.drop_last().push(all.last()) =~= all);
        if !holds(&found, part) {
            found.push(part);
            assert(texts(found@) =~= before.push(part@));
        }
        proof {
            lemma_parts(text@);
        }
        let n: usize = found.len();
        let mut out: Vec<&str> = Vec::new();
        let mut k: usize = 0;
        while k < n
            invariant
                k <= n,
                n == found@.len(),
                out@.len() == k,
                forall|j: int| 0 <= j < k ==> (#[trigger] out@[j])@ == trimmed(found@[j]@),
            decreases n - k,
        {
            out.push(trim(found[k]));
            k = k + 1;
        }
        assert(texts(out@) =~= texts(found@).map_values(|p: Seq<char>| trimmed(p)));
        out
    }
}

} // verus!

//! From the cells of a row to a draft.
//!
//! A row comes as a list of cells, each under the name of its column. The
//! adapter knows the columns of the planning sheet by the names that they go
//! by, and reads each cell as what its column holds: a text, a whole number
//! or a measurement. A cell that is blank, or that does not read as what its
//! column holds, leaves its field as it was, so that a row is never turned
//! down here: the rules are the builder's.
use crate::entry::{DraftView, Entry, EntryParser, EntryView};
use crate::error::ErrorKind;
use crate::measure::Measure;
use crate::order::same_text;
use vstd::prelude::*;
use vstd::string::StrSliceExecFns;

verus! {

/// The columns of the planning sheet.
#[derive(Clone, Copy, Debug, PartialEq, Eq, Structural)]
pub enum Column {
    Id,
    Fnsku,
    Units,
    PackType,
    StagingGroup,
    UnitWeight,
    CaseQt,
    CaseLength,
    CaseWidth,
    CaseHeight,
    CaseWeight,
    TotalCases,
}

/// The column that goes by the given name, if any does. Every column goes by
/// the label that it has on the sheet and by the name of its field; the
/// units also go by `Total Quantity`.
pub open spec fn column_of(header: Seq<char>) -> Option<Column> {
    if header == "Info"@ || header == "id"@ {
        Some(Column::Id)
    } else if header == "FNSKU"@ || header == "fnsku"@ {
        Some(Column::Fnsku)
    } else if header == "Quantity"@ || header == "Total Quantity"@ || header == "units"@ {
        Some(Column::Units)
    } else if header == "Pack Type"@ || header == "pack_type"@ {
        Some(Column::PackType)
    } else if header == "Staging Group"@ || header == "staging_group"@ {
        Some(Column::StagingGroup)
    } else if header == "Unit Weight"@ || header == "unit_weight"@ {
        Some(Column::UnitWeight)
    } else if header == "Case QT"@ || header == "case_qt"@ {
        Some(Column::CaseQt)
    } else if header == "Case Length"@ || header == "case_length"@ {
        Some(Column::CaseLength)
    } else if header == "Case Width"@ || header == "case_width"@ {
        Some(Column::CaseWidth)
    } else if header == "Case Height"@ || header == "case_height"@ {
        Some(Column::CaseHeight)
    } else if header == "Case Weight"@ || header == "case_weight"@ {
        Some(Column::CaseWeight)
    } else if header == "Total Cases"@ || header == "total_cases"@ {
        Some(Column::TotalCases)
    } else {
        None
    }
}

impl Column {
    /// The column that goes by the given name, if any does.
    pub fn from_header(header: &str) -> (r: Option<Column>)
        ensures
            r == column_of(header@),
    {
        if same_text(header, "Info") || same_text(header, "id") {
            Some(Column::Id)
        } else if same_text(header, "FNSKU") || same_text(header, "fnsku") {
            Some(Column::Fnsku)
        } else if same_text(header, "Quantity") || same_text(header, "Total Quantity") || same_text(
            header,
            "units",
        ) {
            Some(Column::Units)
        } else if same_text(header, "Pack Type") || same_text(header, "pack_type") {
            Some(Column::PackType)
        } else if same_text(header, "Staging Group") || same_text(header, "staging_group") {
            Some(Column::StagingGroup)
        } else if same_text(header, "Unit Weight") || same_text(header, "unit_weight") {
            Some(Column::UnitWeight)
        } else if same_text(header, "Case QT") || same_text(header, "case_qt") {
            Some(Column::CaseQt)
        } else if same_text(header, "Case Length") || same_text(header, "case_length") {
            Some(Column::CaseLength)
        } else if same_text(header, "Case Width") || same_text(header, "case_width") {
            Some(Column::CaseWidth)
        } else if same_text(header, "Case Height") || same_text(header, "case_height") {
            Some(Column::CaseHeight)
        } else if same_text(header, "Case Weight") || same_text(header, "case_weight") {
            Some(Column::CaseWeight)
        } else if same_text(header, "Total Cases") || same_text(header, "total_cases") {
            Some(Column::TotalCases)
        } else {
            None
        }
    }
}

/// What a character is worth as a digit: the ten figures are worth 0 to 9,
/// the letters, small or capital, 10 to 35.
pub open spec fn figure_of(c: char) -> Option<nat> {
    if '0' <= c && c <= '9' {
        Some((c as int - '0' as int) as nat)
    } else if 'a' <= c && c <= 'z' {
        Some((c as int - 'a' as int + 10) as nat)
    } else if 'A' <= c && c <= 'Z' {
        Some((c as int - 'A' as int + 10) as nat)
    } else {
        None
    }
}

/// Whether a character is a digit in the given base.
pub open spec fn is_digit(c: char, radix: nat) -> bool {
    figure_of(c) matches Some(v) && v < radix
}

/// Whether every character is a digit in the given base.
pub open spec fn all_digits(s: Seq<char>, radix: nat) -> bool {
    forall|i: int| 0 <= i < s.len() ==> is_digit(#[trigger] s[i], radix)
}

/// The number that the digits write in the given base, the first digit
/// counting most.
pub open spec fn digits_value(s: Seq<char>, radix: nat) -> nat
    decreases s.len(),
{
    if s.len() == 0 {
        0
    } else {
        digits_value(s.drop_last(), radix) * radix + figure_of(s.last()).unwrap()
    }
}

/// Whether a text starts with `0x`, the mark of a number to the base 16.
pub open spec fn has_hex_mark(text: Seq<char>) -> bool {
    text.len() >= 2 && text[0] == '0' && text[1] == 'x'
}

/// The digits of a text that is read as a whole number: what follows the
/// mark of the base, if there is one, and a plus sign, if there is one.
pub open spec fn digits_of(text: Seq<char>) -> Seq<char> {
    let body = if has_hex_mark(text) {
        text.skip(2)
    } else {
        text
    };
    if body.len() > 0 && body[0] == '+' {
        body.skip(1)
    } else {
        body
    }
}

/// The base in which a text writes a whole number: 16 behind `0x`, else 10.
pub open spec fn radix_of(text: Seq<char>) -> nat {
    if has_hex_mark(text) {
        16
    } else {
        10
    }
}

/// A text read as a whole number: digits and nothing else, at least one, to
/// the base 10, or to the base 16 behind `0x`; a plus sign may stand before
/// the digits. A number that does not fit in 32 bits is no reading.
pub open spec fn count_of(text: Seq<char>) -> Option<u32> {
    let digits = digits_of(text);
    let radix = radix_of(text);
    if digits.len() > 0 && all_digits(digits, radix) && digits_value(digits, radix) <= u32::MAX {
        Some(digits_value(digits, radix) as u32)
    } else {
        None
    }
}

/// Digits write at least what their first digits write.
pub proof fn lemma_digits_value_grows(s: Seq<char>, radix: nat, k: int)
    requires
        0 <= k <= s.len(),
        radix >= 1,
        all_digits(s, radix),
    ensures
        digits_value(s.take(k), radix) <= digits_value(s, radix),
    decreases s.len(),
{
    if k == s.len() {
        assert(s.take(k) =~= s);
    } else {
        let front = s.drop_last();
        assert forall|i: int| 0 <= i < front.len() implies is_digit(#[trigger] front[i], radix) by {
            assert(is_digit(s[i], radix));
        }
        lemma_digits_value_grows(front, radix, k);
        assert(front.take(k) =~= s.take(k));
        assert(digits_value(front, radix) * radix >= digits_value(front, radix))
            by (nonlinear_arith)
            requires
                radix >= 1,
        ;
    }
}

/// What a character is worth as a digit in the given base, if it is one.
fn digit(c: char, radix: u64) -> (r: Option<u64>)
    requires
        radix <= 36,
    ensures
        match r {
            Some(v) => is_digit(c, radix as nat) && figure_of(c) == Some(v as nat) && v < radix,
            None => !is_digit(c, radix as nat),
        },
{
    let code: u32 = c as u32;
    let worth: u64 = if '0' as u32 <= code && code <= '9' as u32 {
        (code - '0' as u32) as u64
    } else if 'a' as u32 <= code && code <= 'z' as u32 {
        (code - 'a' as u32) as u64 + 10
    } else if 'A' as u32 <= code && code <= 'Z' as u32 {
        (code - 'A' as u32) as u64 + 10
    } else {
        return None;
    };
    if worth < radix {
        Some(worth)
    } else {
        None
    }
}

/// Reads a text as a whole number.
pub fn coerce_count(text: &str) -> (r: Option<u32>)
    ensures
        r == count_of(text@),
{
    let len: usize = text.unicode_len();
    let hex: bool = len >= 2 && text.get_char(0) == '0' && text.get_char(1) == 'x';
    let radix: u64 = if hex {
        16
    } else {
        10
    };
    let mut start: usize = if hex {
        2
    } else {
        0
    };
    if start < len && text.get_char(start) == '+' {
        start = start + 1;
    }
    let ghost digits = digits_of(text@);
    assert(digits =~= text@.skip(start as int));
    if start == len {
        return None;
    }
    let mut value: u64 = 0;
    let mut i: usize = start;
    assert(digits.take(0) =~= Seq::<char>::empty());
    while i < len
        invariant
            start <= i <= len,
            len == text@.len(),
            digits == text@.skip(start as int),
            digits == digits_of(text@),
            radix == radix_of(text@),
            radix == 10 || radix == 16,
            all_digits(digits.take(i - start), radix as nat),
            value == digits_value(digits.take(i - start), radix as nat),
            value <= u32::MAX,
        decreases len - i,
    {
        let c: char = text.get_char(i);
        assert(digits[i - start] == c);
        let ghost read = digits.take(i - start);
        let ghost next = digits.take(i - start + 1);
        proof {
            assert(next.drop_last() =~= read);
            assert(next.last() == c);
        }
        match digit(c, radix) {
            None => {
                assert(!is_digit(digits[i - start], radix as nat));
                return None;
            },
            Some(worth) => {
                assert(value * radix + worth <= 0xffff_ffff * 16 + 15) by (nonlinear_arith)
                    requires
                        value <= 0xffff_ffff,
                        radix <= 16,
                        worth < radix,
                ;
                value = value * radix + worth;
                proof {
                    assert forall|k: int| 0 <= k < next.len() implies is_digit(
                        #[trigger] next[k],
                        radix as nat,
                    ) by {
                        if k < read.len() {
                            assert(next[k] == read[k]);
                        }
                    }
                }
                assert(value == digits_value(next, radix as nat));
                if value > 0xffff_ffff {
                    proof {
                        if all_digits(digits, radix as nat) {
                            lemma_digits_value_grows(digits, radix as nat, i - start + 1);
                        }
                    }
                    return None;
                }
            },
        }
        i = i + 1;
    }
    assert(digits.take(len - start) =~= digits);
    Some(value as u32)
}

/// A cell of a row.
#[derive(Debug)]
pub struct RawField {
    /// The name of the column that the cell stands in.
    pub header: String,
    /// What the cell holds, as text.
    pub text: String,
    /// What the cell holds, read as a measurement; `None` where the text
    /// does not read as a number.
    pub number: Option<Measure>,
}

/// What a cell is.
pub struct RawFieldView {
    pub header: Seq<char>,
    pub text: Seq<char>,
    pub number: Option<Measure>,
}

impl View for RawField {
    type V = RawFieldView;

    open spec fn view(&self) -> RawFieldView {
        RawFieldView { header: self.header@, text: self.text@, number: self.number }
    }
}

impl RawField {
    /// The cell with the given text under the given column name.
    pub fn new(header: String, text: String, number: Option<Measure>) -> (r: RawField)
        ensures
            r@ == (RawFieldView { header: header@, text: text@, number }),
    {
        RawField { header, text, number }
    }
}

/// What each of the cells is.
pub open spec fn raw_views(fields: Seq<RawField>) -> Seq<RawFieldView> {
    fields.map_values(|f: RawField| f@)
}

/// The draft with one more cell read into it. A cell under a name that no
/// column goes by, a blank cell, and a cell that does not read as what its
/// column holds leave the draft as it is.
pub open spec fn with_field(d: DraftView, f: RawFieldView) -> DraftView {
    if f.text.len() == 0 {
        d
    } else {
        match column_of(f.header) {
            None => d,
            Some(Column::Id) => match count_of(f.text) {
                Some(n) => DraftView { id: Some(n), ..d },
                None => d,
            },
            Some(Column::Fnsku) => DraftView { fnsku: Some(f.text), ..d },
            Some(Column::Units) => match count_of(f.text) {
                Some(n) => DraftView { units: Some(n), ..d },
                None => d,
            },
            Some(Column::PackType) => DraftView { pack_type: Some(f.text), ..d },
            Some(Column::StagingGroup) => DraftView { staging_group: Some(f.text), ..d },
            Some(Column::UnitWeight) => match f.number {
                Some(m) => DraftView { unit_weight: Some(m), ..d },
                None => d,
            },
            Some(Column::CaseQt) => match count_of(f.text) {
                Some(n) => DraftView { case_qt: Some(n), ..d },
                None => d,
            },
            Some(Column::CaseLength) => match f.number {
                Some(m) => DraftView { case_length: Some(m), ..d },
                None => d,
            },
            Some(Column::CaseWidth) => match f.number {
                Some(m) => DraftView { case_width: Some(m), ..d },
                None => d,
            },
            Some(Column::CaseHeight) => match f.number {
                Some(m) => DraftView { case_height: Some(m), ..d },
                None => d,
            },
            Some(Column::CaseWeight) => match f.number {
                Some(m) => DraftView { case_weight: Some(m), ..d },
                None => d,
            },
            Some(Column::TotalCases) => match count_of(f.text) {
                Some(n) => DraftView { total_cases: Some(n), ..d },
                None => d,
            },
        }
    }
}

/// The draft of a row: the cells read one after the other into a draft that
/// starts out empty.
pub open spec fn draft_of(fields: Seq<RawFieldView>) -> DraftView {
    fields.fold_left(DraftView::empty(), |d: DraftView, f: RawFieldView| with_field(d, f))
}

/// Whether none of the texts of a draft is blank.
pub open spec fn texts_are_not_blank(d: DraftView) -> bool {
    &&& d.fnsku matches Some(t) ==> t.len() > 0
    &&& d.pack_type matches Some(t) ==> t.len() > 0
    &&& d.staging_group matches Some(t) ==> t.len() > 0
}

/// A blank cell is an absent field: none of the texts in the draft of a row
/// is blank.
pub proof fn lemma_draft_texts_are_not_blank(fields: Seq<RawFieldView>)
    ensures
        texts_are_not_blank(draft_of(fields)),
    decreases fields.len(),
{
    if fields.len() > 0 {
        lemma_draft_texts_are_not_blank(fields.drop_last());
    }
}

impl EntryParser {
    /// Reads one more cell into the draft.
    pub fn record(&mut self, field: &RawField)
        ensures
            final(self)@ == with_field(old(self)@, field@),
    {
        if field.text.as_str().unicode_len() == 0 {
            return ;
        }
        let column = match Column::from_header(field.header.as_str()) {
            Some(column) => column,
            None => {
                return ;
            },
        };
        match column {
            Column::Id => {
                if let Some(n) = coerce_count(field.text.as_str()) {
                    self.id = Some(n);
                }
            },
            Column::Fnsku => {
                self.fnsku = Some(field.text.clone());
            },
            Column::Units => {
                if let Some(n) = coerce_count(field.text.as_str()) {
                    self.units = Some(n);
                }
            },
            Column::PackType => {
                self.pack_type = Some(field.text.clone());
            },
            Column::StagingGroup => {
                self.staging_group = Some(field.text.clone());
            },
            Column::UnitWeight => {
                if let Some(m) = field.number {
                    self.unit_weight = Some(m);
                }
            },
            Column::CaseQt => {
                if let Some(n) = coerce_count(field.text.as_str()) {
                    self.case_qt = Some(n);
                }
            },
            Column::CaseLength => {
                if let Some(m) = field.number {
                    self.case_length = Some(m);
                }
            },
            Column::CaseWidth => {
                if let Some(m) = field.number {
                    self.case_width = Some(m);
                }
            },
            Column::CaseHeight => {
                if let Some(m) = field.number {
                    self.case_height = Some(m);
                }
            },
            Column::CaseWeight => {
                if let Some(m) = field.number {
                    self.case_weight = Some(m);
                }
            },
            Column::TotalCases => {
                if let Some(n) = coerce_count(field.text.as_str()) {
                    self.total_cases = Some(n);
                }
            },
        }
    }

    /// The draft of a row. No row is turned down: a cell that cannot be read
    /// leaves its field absent.
    pub fn from_string_record(str_rec: &Vec<RawField>) -> (r: Result<EntryParser, ErrorKind>)
        ensures
            r matches Ok(d) && d@ == draft_of(raw_views(str_rec@)) && texts_are_not_blank(d@),
    {
        proof {
            lemma_draft_texts_are_not_blank(raw_views(str_rec@));
        }
        let ghost all = raw_views(str_rec@);
        let mut draft = EntryParser::default();
        let n: usize = str_rec.len();
        let mut i: usize = 0;
        assert(all.take(0) =~= Seq::<RawFieldView>::empty());
        while i < n
            invariant
                i <= n,
                n == str_rec@.len(),
                all == raw_views(str_rec@),
                draft@ == draft_of(all.take(i as int)),
            decreases n - i,
        {
            proof {
                assert(all.take(i + 1).drop_last() =~= all.take(i as int));
                assert(all.take(i + 1).last() == str_rec@[i as int]@);
            }
            draft.record(&str_rec[i]);
            i = i + 1;
        }
        assert(all.take(n as int) =~= all);
        Ok(draft)
    }
}

impl Entry {
    /// The entry of a row: its cells are read into a draft, and the draft is
    /// held to the rules.
    pub fn from_csv_record(str_rec: &Vec<RawField>) -> (r: Result<Entry, ErrorKind>)
        ensures
            match r {
                Ok(e) => draft_of(raw_views(str_rec@)).outcome() == Ok::<EntryView, ErrorKind>(e@)
                    && e@.wf() && e@.fnsku().len() > 0,
                Err(k) => draft_of(raw_views(str_rec@)).outcome() == Err::<EntryView, ErrorKind>(
                    k,
                ),
            },
    {
        match EntryParser::from_string_record(str_rec) {
            Ok(draft) => draft.build(),
            Err(k) => Err(k),
        }
    }
}

} // verus!

//! Entries of a shipment plan, and the draft from which one is built.
//!
//! A row of the planning sheet arrives as an [`EntryParser`]: a draft in which
//! every field may be absent. [`EntryParser::build`] holds the draft to the
//! rules and gives a validated [`Entry`], packed or loose, or the first rule
//! that the draft breaks.
use crate::error::ErrorKind;
use crate::measure::Measure;
use vstd::prelude::*;

verus! {

/// The largest of three numbers.
pub open spec fn max3(a: u32, b: u32, c: u32) -> u32 {
    if a >= b && a >= c {
        a
    } else if b >= c {
        b
    } else {
        c
    }
}

/// The smallest of three numbers.
pub open spec fn min3(a: u32, b: u32, c: u32) -> u32 {
    if a <= b && a <= c {
        a
    } else if b <= c {
        b
    } else {
        c
    }
}

/// The one of three numbers that is left when the largest and the smallest
/// are taken away.
pub open spec fn mid3(a: u32, b: u32, c: u32) -> u32 {
    (a + b + c - max3(a, b, c) - min3(a, b, c)) as u32
}

/// What a case is: its three dimensions in whole inches and its weight in
/// grams.
pub struct CaseView {
    pub length: u32,
    pub width: u32,
    pub height: u32,
    pub gram_weight: u32,
}

impl CaseView {
    /// The longest dimension comes first, the shortest last.
    pub open spec fn longest_first(self) -> bool {
        self.length >= self.width && self.width >= self.height
    }

    /// The case with the three given dimensions, whatever their order.
    pub open spec fn of_dims(a: u32, b: u32, c: u32, gram_weight: u32) -> CaseView {
        CaseView { length: max3(a, b, c), width: mid3(a, b, c), height: min3(a, b, c), gram_weight }
    }
}

/// The envelope of one packed container. Its dimensions are stored longest
/// first, so that two cases of the same shape are equal however they were
/// measured.
#[derive(Clone, Copy, Debug)]
pub struct Case {
    length: u32,
    width: u32,
    height: u32,
    gram_weight: u32,
}

impl View for Case {
    type V = CaseView;

    closed spec fn view(&self) -> CaseView {
        CaseView {
            length: self.length,
            width: self.width,
            height: self.height,
            gram_weight: self.gram_weight,
        }
    }
}

impl Case {
    #[verifier::type_invariant]
    spec fn inv(self) -> bool {
        self@.longest_first()
    }

    /// The case with the given dimensions, which come longest first.
    pub fn from_sorted_dims(length: u32, width: u32, height: u32, gram_weight: u32) -> (r: Case)
        requires
            length >= width,
            width >= height,
        ensures
            r@ == (CaseView { length, width, height, gram_weight }),
    {
        Case { length, width, height, gram_weight }
    }

    /// The case with the three given dimensions, in whatever order they come.
    pub fn from_dims(a: u32, b: u32, c: u32, gram_weight: u32) -> (r: Case)
        ensures
            r@ == CaseView::of_dims(a, b, c, gram_weight),
            r@.longest_first(),
    {
        let mut length: u32 = a;
        let mut width: u32 = b;
        let mut height: u32 = c;
        if length < width {
            let swap: u32 = length;
            length = width;
            width = swap;
        }
        if width < height {
            let swap: u32 = width;
            width = height;
            height = swap;
        }
        if length < width {
            let swap: u32 = length;
            length = width;
            width = swap;
        }
        Case::from_sorted_dims(length, width, height, gram_weight)
    }

    /// The longest dimension, in whole inches.
    pub fn length(&self) -> (r: u32)
        ensures
            r == self@.length,
            self@.longest_first(),
    {
        proof {
            use_type_invariant(self);
        }
        self.length
    }

    /// The middle dimension, in whole inches.
    pub fn width(&self) -> (r: u32)
        ensures
            r == self@.width,
            self@.longest_first(),
    {
        proof {
            use_type_invariant(self);
        }
        self.width
    }

    /// The shortest dimension, in whole inches.
    pub fn height(&self) -> (r: u32)
        ensures
            r == self@.height,
            self@.longest_first(),
    {
        proof {
            use_type_invariant(self);
        }
        self.height
    }

    /// The weight of the case, in grams.
    pub fn gram_weight(&self) -> (r: u32)
        ensures
            r == self@.gram_weight,
    {
        self.gram_weight
    }
}

/// What a packed entry is.
pub struct PackedView {
    pub id: u32,
    pub fnsku: Seq<char>,
    pub units: u32,
    pub per_case: u32,
    pub case: CaseView,
}

impl PackedView {
    /// A packed entry holds whole cases: the units per case are not zero and
    /// divide the units, and the case's dimensions come longest first.
    pub open spec fn wf(self) -> bool {
        &&& self.per_case > 0
        &&& self.units % self.per_case == 0
        &&& self.case.longest_first()
    }

    /// The number of cases.
    pub open spec fn cases(self) -> nat
        recommends
            self.per_case > 0,
    {
        (self.units / self.per_case) as nat
    }

    /// The entry of one of the cases: the same case of the same stock unit,
    /// holding the units of a single case.
    pub open spec fn single_case(self) -> PackedView {
        PackedView { units: self.per_case, ..self }
    }
}

/// What a loose entry is.
pub struct LooseView {
    pub id: u32,
    pub fnsku: Seq<char>,
    pub units: u32,
    pub gram_weight: u32,
    pub group: Seq<char>,
}

/// What an entry is.
pub enum EntryView {
    Packed(PackedView),
    Loose(LooseView),
}

impl EntryView {
    /// Every packed entry holds whole cases; a loose entry has no rule of
    /// its own.
    pub open spec fn wf(self) -> bool {
        match self {
            EntryView::Packed(p) => p.wf(),
            EntryView::Loose(_) => true,
        }
    }

    /// How the units of the entry are packaged.
    pub open spec fn pack_config(self) -> PackConfig {
        match self {
            EntryView::Packed(_) => PackConfig::Packed,
            EntryView::Loose(_) => PackConfig::Loose,
        }
    }

    /// Whether the entry is packed.
    pub open spec fn is_packed(self) -> bool {
        self is Packed
    }

    /// Whether the entry is loose.
    pub open spec fn is_loose(self) -> bool {
        self is Loose
    }

    /// Whether the entry stands for a single thing to handle: a loose entry
    /// does, and so does a packed entry of one case.
    pub open spec fn is_handling_unit(self) -> bool {
        match self {
            EntryView::Packed(p) => p.units == p.per_case,
            EntryView::Loose(_) => true,
        }
    }

    /// The number given to the row.
    pub open spec fn id(self) -> u32 {
        match self {
            EntryView::Packed(p) => p.id,
            EntryView::Loose(l) => l.id,
        }
    }

    /// The stock unit identifier.
    pub open spec fn fnsku(self) -> Seq<char> {
        match self {
            EntryView::Packed(p) => p.fnsku,
            EntryView::Loose(l) => l.fnsku,
        }
    }

    /// The total number of units.
    pub open spec fn units(self) -> u32 {
        match self {
            EntryView::Packed(p) => p.units,
            EntryView::Loose(l) => l.units,
        }
    }

    /// The number of cases: the units over the units per case for a packed
    /// entry, one for a loose entry.
    pub open spec fn cases(self) -> nat {
        match self {
            EntryView::Packed(p) => p.cases(),
            EntryView::Loose(_) => 1,
        }
    }

    /// The units in one case, where the entry is packed.
    pub open spec fn per_case(self) -> Option<u32> {
        match self {
            EntryView::Packed(p) => Some(p.per_case),
            EntryView::Loose(_) => None,
        }
    }

    /// The case, where the entry is packed.
    pub open spec fn case(self) -> Option<CaseView> {
        match self {
            EntryView::Packed(p) => Some(p.case),
            EntryView::Loose(_) => None,
        }
    }

    /// The weight of one unit in grams, where the entry is loose.
    pub open spec fn unit_gram_weight(self) -> Option<u32> {
        match self {
            EntryView::Packed(_) => None,
            EntryView::Loose(l) => Some(l.gram_weight),
        }
    }

    /// The staging group, where the entry is loose.
    pub open spec fn group(self) -> Option<Seq<char>> {
        match self {
            EntryView::Packed(_) => None,
            EntryView::Loose(l) => Some(l.group),
        }
    }
}

/// How the units of an entry are packaged.
#[derive(Clone, Copy, Debug, PartialEq, Eq, Structural)]
pub enum PackConfig {
    Loose,
    Packed,
}

impl PackConfig {
    /// Whether the units come in cases.
    pub fn is_packed(&self) -> (r: bool)
        ensures
            r == (*self == PackConfig::Packed),
            r != (*self == PackConfig::Loose),
    {
        match self {
            PackConfig::Loose => false,
            PackConfig::Packed => true,
        }
    }

    /// Whether the units are handled one by one.
    pub fn is_loose(&self) -> (r: bool)
        ensures
            r == (*self == PackConfig::Loose),
            r != (*self == PackConfig::Packed),
    {
        match self {
            PackConfig::Loose => true,
            PackConfig::Packed => false,
        }
    }
}

/// A row that stands for one or more identical cases, each with the same
/// number of units.
#[derive(Debug)]
pub struct Packed {
    id: u32,
    fnsku: String,
    units: u32,
    per_case: u32,
    case: Case,
}

impl View for Packed {
    type V = PackedView;

    closed spec fn view(&self) -> PackedView {
        PackedView {
            id: self.id,
            fnsku: self.fnsku@,
            units: self.units,
            per_case: self.per_case,
            case: self.case@,
        }
    }
}

impl Clone for Packed {
    fn clone(&self) -> (r: Self)
        ensures
            r@ == self@,
    {
        proof {
            use_type_invariant(self);
        }
        Packed {
            id: self.id,
            fnsku: self.fnsku.clone(),
            units: self.units,
            per_case: self.per_case,
            case: self.case,
        }
    }
}

impl Packed {
    #[verifier::type_invariant]
    spec fn inv(self) -> bool {
        self@.wf()
    }

    /// The entry of one of the cases.
    pub fn single_case(&self) -> (r: Packed)
        ensures
            self@.wf(),
            r@ == self@.single_case(),
    {
        proof {
            use_type_invariant(self);
            assert(self.per_case % self.per_case == 0) by (nonlinear_arith)
                requires
                    self.per_case > 0,
            ;
        }
        Packed {
            id: self.id,
            fnsku: self.fnsku.clone(),
            units: self.per_case,
            per_case: self.per_case,
            case: self.case,
        }
    }
}

/// A row that stands for units that are handled one by one.
#[derive(Debug)]
pub struct Loose {
    id: u32,
    fnsku: String,
    units: u32,
    gram_weight: u32,
    group: String,
}

impl View for Loose {
    type V = LooseView;

    closed spec fn view(&self) -> LooseView {
        LooseView {
            id: self.id,
            fnsku: self.fnsku@,
            units: self.units,
            gram_weight: self.gram_weight,
            group: self.group@,
        }
    }
}

impl Clone for Loose {
    fn clone(&self) -> (r: Self)
        ensures
            r@ == self@,
    {
        Loose {
            id: self.id,
            fnsku: self.fnsku.clone(),
            units: self.units,
            gram_weight: self.gram_weight,
            group: self.group.clone(),
        }
    }
}

/// A validated row of a plan.
#[derive(Debug)]
pub enum Entry {
    Packed(Packed),
    Loose(Loose),
}

impl View for Entry {
    type V = EntryView;

    open spec fn view(&self) -> EntryView {
        match self {
            Entry::Packed(p) => EntryView::Packed(p@),
            Entry::Loose(l) => EntryView::Loose(l@),
        }
    }
}

impl Clone for Entry {
    fn clone(&self) -> (r: Self)
        ensures
            r@ == self@,
    {
        match self {
            Entry::Packed(p) => Entry::Packed(p.clone()),
            Entry::Loose(l) => Entry::Loose(l.clone()),
        }
    }
}

/// Whether the units of a packed entry fill whole cases.
pub fn is_evenly_packed(p: &Packed) -> (r: bool)
    ensures
        r == (p@.per_case != 0 && p@.units % p@.per_case == 0),
        r,
{
    proof {
        use_type_invariant(p);
    }
    p.per_case != 0 && p.units % p.per_case == 0
}

impl Entry {
    /// The number of cases of this entry: one for a loose entry, the units
    /// over the units per case for a packed one. The division leaves no
    /// remainder, so the cases together hold exactly the units.
    pub fn num_of_cases(&self) -> (r: Result<u32, ErrorKind>)
        ensures
            self@.wf(),
            r == Ok::<u32, ErrorKind>(self@.cases() as u32),
            self@ matches EntryView::Packed(p) ==> self@.cases() * p.per_case == p.units,
    {
        match self {
            Entry::Loose(_) => Ok(1),
            Entry::Packed(p) => {
                proof {
                    use_type_invariant(p);
                }
                if !is_evenly_packed(p) {
                    return Err(ErrorKind::NonDivisibleCaseQt);
                }
                let cases: u32 = p.units / p.per_case;
                proof {
                    lemma_cases_fill_units(p@);
                }
                Ok(cases)
            },
        }
    }

    /// The number of cases of a packed entry; `None` for a loose entry.
    pub fn cases(&self) -> (r: Option<u32>)
        ensures
            match r {
                Some(n) => self@.is_packed() && n == self@.cases(),
                None => self@.is_loose(),
            },
    {
        match self {
            Entry::Loose(_) => None,
            Entry::Packed(p) => {
                proof {
                    use_type_invariant(p);
                }
                Some(p.units / p.per_case)
            },
        }
    }

    /// Whether the entry stands for a single thing to handle: a loose entry
    /// does, and so does a packed entry of one case.
    pub fn is_handling_unit(&self) -> (r: bool)
        ensures
            r == self@.is_handling_unit(),
    {
        match self {
            Entry::Loose(_) => true,
            Entry::Packed(p) => p.units == p.per_case,
        }
    }

    /// How the units of the entry are packaged.
    pub fn pack_config(&self) -> (r: PackConfig)
        ensures
            r == self@.pack_config(),
    {
        match self {
            Entry::Packed(_) => PackConfig::Packed,
            Entry::Loose(_) => PackConfig::Loose,
        }
    }

    /// Whether the entry is packed.
    pub fn is_packed(&self) -> (r: bool)
        ensures
            r == self@.is_packed(),
            r != self@.is_loose(),
    {
        match self {
            Entry::Packed(_) => true,
            Entry::Loose(_) => false,
        }
    }

    /// Whether the entry is loose.
    pub fn is_loose(&self) -> (r: bool)
        ensures
            r == self@.is_loose(),
            r != self@.is_packed(),
    {
        match self {
            Entry::Packed(_) => false,
            Entry::Loose(_) => true,
        }
    }

    /// The number given to the row.
    pub fn get_id(&self) -> (r: u32)
        ensures
            r == self@.id(),
    {
        match self {
            Entry::Packed(p) => p.id,
            Entry::Loose(l) => l.id,
        }
    }

    /// The stock unit identifier.
    pub fn get_fnsku(&self) -> (r: &str)
        ensures
            r@ == self@.fnsku(),
    {
        match self {
            Entry::Packed(p) => p.fnsku.as_str(),
            Entry::Loose(l) => l.fnsku.as_str(),
        }
    }

    /// The total number of units.
    pub fn get_units(&self) -> (r: u32)
        ensures
            r == self@.units(),
    {
        match self {
            Entry::Packed(p) => p.units,
            Entry::Loose(l) => l.units,
        }
    }

    /// The units in one case; `None` for a loose entry.
    pub fn try_per_case(&self) -> (r: Option<u32>)
        ensures
            r == self@.per_case(),
    {
        match self {
            Entry::Packed(p) => Some(p.per_case),
            Entry::Loose(_) => None,
        }
    }

    /// The longest dimension of the case; `None` for a loose entry.
    pub fn try_case_length(&self) -> (r: Option<u32>)
        ensures
            r == match self@.case() {
                Some(c) => Some(c.length),
                None => None,
            },
    {
        match self {
            Entry::Packed(p) => Some(p.case.length()),
            Entry::Loose(_) => None,
        }
    }

    /// The middle dimension of the case; `None` for a loose entry.
    pub fn try_case_width(&self) -> (r: Option<u32>)
        ensures
            r == match self@.case() {
                Some(c) => Some(c.width),
                None => None,
            },
    {
        match self {
            Entry::Packed(p) => Some(p.case.width()),
            Entry::Loose(_) => None,
        }
    }

    /// The shortest dimension of the case; `None` for a loose entry.
    pub fn try_case_height(&self) -> (r: Option<u32>)
        ensures
            r == match self@.case() {
                Some(c) => Some(c.height),
                None => None,
            },
    {
        match self {
            Entry::Packed(p) => Some(p.case.height()),
            Entry::Loose(_) => None,
        }
    }

    /// The weight of the case in grams; `None` for a loose entry.
    pub fn try_case_gram_weight(&self) -> (r: Option<u32>)
        ensures
            r == match self@.case() {
                Some(c) => Some(c.gram_weight),
                None => None,
            },
    {
        match self {
            Entry::Packed(p) => Some(p.case.gram_weight()),
            Entry::Loose(_) => None,
        }
    }

    /// The weight of one unit in grams; `None` for a packed entry.
    pub fn try_unit_gram_weight(&self) -> (r: Option<u32>)
        ensures
            r == self@.unit_gram_weight(),
    {
        match self {
            Entry::Packed(_) => None,
            Entry::Loose(l) => Some(l.gram_weight),
        }
    }

    /// The staging group; `None` for a packed entry.
    pub fn try_group_name(&self) -> (r: Option<&str>)
        ensures
            match r {
                Some(g) => self@.group() == Some(g@),
                None => self@.group() is None,
            },
    {
        match self {
            Entry::Packed(_) => None,
            Entry::Loose(l) => Some(l.group.as_str()),
        }
    }
}

/// The cases of a packed entry hold exactly its units.
pub proof fn lemma_cases_fill_units(p: PackedView)
    requires
        p.wf(),
    ensures
        p.cases() * p.per_case == p.units,
{
    assert((p.units / p.per_case) * p.per_case == p.units) by (nonlinear_arith)
        requires
            p.per_case > 0,
            p.units % p.per_case == 0,
    ;
}

/// Every entry is packed or loose, and never both.
pub proof fn lemma_packed_or_loose(e: EntryView)
    ensures
        e.is_packed() != e.is_loose(),
{
}

/// The case made of three dimensions does not depend on the order in which
/// they are given, and holds them longest first.
pub proof fn lemma_dims_order_is_irrelevant(a: u32, b: u32, c: u32, gram_weight: u32)
    ensures
        CaseView::of_dims(a, b, c, gram_weight).longest_first(),
        CaseView::of_dims(a, b, c, gram_weight) == CaseView::of_dims(a, c, b, gram_weight),
        CaseView::of_dims(a, b, c, gram_weight) == CaseView::of_dims(b, a, c, gram_weight),
        CaseView::of_dims(a, b, c, gram_weight) == CaseView::of_dims(b, c, a, gram_weight),
        CaseView::of_dims(a, b, c, gram_weight) == CaseView::of_dims(c, a, b, gram_weight),
        CaseView::of_dims(a, b, c, gram_weight) == CaseView::of_dims(c, b, a, gram_weight),
{
}

/// Whether a measurement is there and is a number above zero.
pub open spec fn present_and_positive(m: Option<Measure>) -> bool {
    m matches Some(v) && v.spec_is_positive()
}

/// The characters of a text that may be absent.
pub open spec fn text_of(t: Option<String>) -> Option<Seq<char>> {
    match t {
        Some(s) => Some(s@),
        None => None,
    }
}

/// What a draft is: the fields of a row, each of which may be absent.
pub struct DraftView {
    pub id: Option<u32>,
    pub fnsku: Option<Seq<char>>,
    pub units: Option<u32>,
    pub pack_type: Option<Seq<char>>,
    pub staging_group: Option<Seq<char>>,
    pub unit_weight: Option<Measure>,
    pub case_qt: Option<u32>,
    pub case_length: Option<Measure>,
    pub case_width: Option<Measure>,
    pub case_height: Option<Measure>,
    pub case_weight: Option<Measure>,
    pub total_cases: Option<u32>,
}

impl DraftView {
    /// The draft of an empty row: every field is absent.
    pub open spec fn empty() -> DraftView {
        DraftView {
            id: None,
            fnsku: None,
            units: None,
            pack_type: None,
            staging_group: None,
            unit_weight: None,
            case_qt: None,
            case_length: None,
            case_width: None,
            case_height: None,
            case_weight: None,
            total_cases: None,
        }
    }

    /// The first of the four fields that every entry needs and that the draft
    /// lacks: the id, the stock unit identifier, the pack type, the units.
    pub open spec fn bare_error(self) -> Option<ErrorKind> {
        if self.id is None {
            Some(ErrorKind::MissingId)
        } else if self.fnsku is None {
            Some(ErrorKind::MissingFnsku)
        } else if self.pack_type is None {
            Some(ErrorKind::MissingPackType)
        } else if self.units is None {
            Some(ErrorKind::MissingUnits)
        } else {
            None
        }
    }

    /// The first rule for packed entries that the draft breaks, given that
    /// its units are there: the units per case are there and not zero; they
    /// divide the units; the case's weight is there; its three dimensions are
    /// there and above zero.
    pub open spec fn packed_error(self) -> Option<ErrorKind>
        recommends
            self.units is Some,
    {
        if self.case_qt is None || self.case_qt == Some(0u32) {
            Some(ErrorKind::MissingCaseQt)
        } else if self.units.unwrap() % self.case_qt.unwrap() != 0 {
            Some(ErrorKind::NonDivisibleCaseQt)
        } else if self.case_weight is None {
            Some(ErrorKind::MissingPackedWeight)
        } else if !(present_and_positive(self.case_length) && present_and_positive(
            self.case_width,
        ) && present_and_positive(self.case_height)) {
            Some(ErrorKind::MissingPackedDimensions)
        } else {
            None
        }
    }

    /// The packed entry that the draft describes, given that it breaks no
    /// rule: each dimension rounded up to whole inches, the three of them
    /// longest first, and the case's weight in grams, rounded up.
    pub open spec fn packed_view(self) -> PackedView
        recommends
            self.bare_error() is None,
            self.packed_error() is None,
    {
        PackedView {
            id: self.id.unwrap(),
            fnsku: self.fnsku.unwrap(),
            units: self.units.unwrap(),
            per_case: self.case_qt.unwrap(),
            case: CaseView::of_dims(
                self.case_length.unwrap().spec_ceil(),
                self.case_width.unwrap().spec_ceil(),
                self.case_height.unwrap().spec_ceil(),
                self.case_weight.unwrap().spec_grams(),
            ),
        }
    }

    /// The first rule for loose entries that the draft breaks: the staging
    /// group is there; the weight of a unit is there.
    pub open spec fn loose_error(self) -> Option<ErrorKind> {
        if self.staging_group is None {
            Some(ErrorKind::MissingGroup)
        } else if self.unit_weight is None {
            Some(ErrorKind::MissingUnitWeight)
        } else {
            None
        }
    }

    /// The loose entry that the draft describes, given that it breaks no
    /// rule: the weight of a unit is in grams, rounded up.
    pub open spec fn loose_view(self) -> LooseView
        recommends
            self.bare_error() is None,
            self.loose_error() is None,
    {
        LooseView {
            id: self.id.unwrap(),
            fnsku: self.fnsku.unwrap(),
            units: self.units.unwrap(),
            gram_weight: self.unit_weight.unwrap().spec_grams(),
            group: self.staging_group.unwrap(),
        }
    }

    /// What becomes of the draft as a packed entry.
    pub open spec fn packed_outcome(self) -> Result<PackedView, ErrorKind> {
        if self.bare_error() is Some {
            Err(self.bare_error().unwrap())
        } else if self.packed_error() is Some {
            Err(self.packed_error().unwrap())
        } else {
            Ok(self.packed_view())
        }
    }

    /// What becomes of the draft as a loose entry.
    pub open spec fn loose_outcome(self) -> Result<LooseView, ErrorKind> {
        if self.bare_error() is Some {
            Err(self.bare_error().unwrap())
        } else if self.loose_error() is Some {
            Err(self.loose_error().unwrap())
        } else {
            Ok(self.loose_view())
        }
    }

    /// What becomes of the draft. The four fields that every entry needs come
    /// first. Then the pack type decides, to the letter: `Packed` asks for the
    /// rules of packed entries, `Loose` for those of loose entries, and
    /// anything else is turned down.
    pub open spec fn outcome(self) -> Result<EntryView, ErrorKind> {
        if self.bare_error() is Some {
            Err(self.bare_error().unwrap())
        } else if self.pack_type.unwrap() == "Packed"@ {
            match self.packed_outcome() {
                Ok(p) => Ok(EntryView::Packed(p)),
                Err(k) => Err(k),
            }
        } else if self.pack_type.unwrap() == "Loose"@ {
            match self.loose_outcome() {
                Ok(l) => Ok(EntryView::Loose(l)),
                Err(k) => Err(k),
            }
        } else {
            Err(ErrorKind::InvalidPackType)
        }
    }

    /// Whether the draft describes a packed entry in full: every field that
    /// a packed entry needs is there, the pack type says `Packed`, the units
    /// fill whole cases of at least one unit, and the dimensions are above
    /// zero.
    pub open spec fn is_complete_packed(self) -> bool {
        &&& self.id is Some
        &&& self.fnsku is Some
        &&& self.units is Some
        &&& self.pack_type == Some("Packed"@)
        &&& self.case_qt is Some
        &&& self.case_qt.unwrap() != 0
        &&& self.units.unwrap() % self.case_qt.unwrap() == 0
        &&& self.case_weight is Some
        &&& present_and_positive(self.case_length)
        &&& present_and_positive(self.case_width)
        &&& present_and_positive(self.case_height)
    }
}

/// A row as it was read: every field may be absent, and nothing has been
/// checked yet. Lengths are in inches and weights in pounds.
#[derive(Debug)]
pub struct EntryParser {
    pub id: Option<u32>,
    pub fnsku: Option<String>,
    pub units: Option<u32>,
    pub pack_type: Option<String>,
    pub staging_group: Option<String>,
    pub unit_weight: Option<Measure>,
    pub case_qt: Option<u32>,
    pub case_length: Option<Measure>,
    pub case_width: Option<Measure>,
    pub case_height: Option<Measure>,
    pub case_weight: Option<Measure>,
    /// Carried along for the reader's sake; no rule looks at it.
    pub total_cases: Option<u32>,
}

impl View for EntryParser {
    type V = DraftView;

    open spec fn view(&self) -> DraftView {
        DraftView {
            id: self.id,
            fnsku: text_of(self.fnsku),
            units: self.units,
            pack_type: text_of(self.pack_type),
            staging_group: text_of(self.staging_group),
            unit_weight: self.unit_weight,
            case_qt: self.case_qt,
            case_length: self.case_length,
            case_width: self.case_width,
            case_height: self.case_height,
            case_weight: self.case_weight,
            total_cases: self.total_cases,
        }
    }
}

/// A copy of a text that may be absent.
fn clone_text(t: &Option<String>) -> (r: Option<String>)
    ensures
        text_of(r) == text_of(*t),
{
    match t {
        Some(s) => Some(s.clone()),
        None => None,
    }
}

impl Clone for EntryParser {
    fn clone(&self) -> (r: Self)
        ensures
            r@ == self@,
    {
        EntryParser {
            id: self.id,
            fnsku: clone_text(&self.fnsku),
            units: self.units,
            pack_type: clone_text(&self.pack_type),
            staging_group: clone_text(&self.staging_group),
            unit_weight: self.unit_weight,
            case_qt: self.case_qt,
            case_length: self.case_length,
            case_width: self.case_width,
            case_height: self.case_height,
            case_weight: self.case_weight,
            total_cases: self.total_cases,
        }
    }
}

impl Default for EntryParser {
    /// The draft of an empty row: every field is absent.
    fn default() -> (r: Self)
        ensures
            r@ == DraftView::empty(),
    {
        EntryParser {
            id: None,
            fnsku: None,
            units: None,
            pack_type: None,
            staging_group: None,
            unit_weight: None,
            case_qt: None,
            case_length: None,
            case_width: None,
            case_height: None,
            case_weight: None,
            total_cases: None,
        }
    }
}

impl EntryParser {
    /// Builds the entry that the draft describes, or names the first rule
    /// that the draft breaks.
    pub fn build(&self) -> (r: Result<Entry, ErrorKind>)
        ensures
            match r {
                Ok(e) => self@.outcome() == Ok::<EntryView, ErrorKind>(e@) && e@.wf(),
                Err(k) => self@.outcome() == Err::<EntryView, ErrorKind>(k),
            },
    {
        match self.check_bare_validity() {
            Err(k) => {
                return Err(k);
            },
            Ok(_) => {},
        }
        let packed_tag: String = "Packed".to_owned();
        let loose_tag: String = "Loose".to_owned();
        match &self.pack_type {
            Some(pt) => {
                if *pt == packed_tag {
                    match self.build_packed() {
                        Ok(p) => Ok(Entry::Packed(p)),
                        Err(k) => Err(k),
                    }
                } else if *pt == loose_tag {
                    match self.build_loose() {
                        Ok(l) => Ok(Entry::Loose(l)),
                        Err(k) => Err(k),
                    }
                } else {
                    Err(ErrorKind::InvalidPackType)
                }
            },
            None => Err(ErrorKind::InvalidPackType),
        }
    }

    /// Builds the loose entry that the draft describes, whatever its pack
    /// type says, or names the first rule that the draft breaks.
    pub fn build_loose(&self) -> (r: Result<Loose, ErrorKind>)
        ensures
            match r {
                Ok(l) => self@.loose_outcome() == Ok::<LooseView, ErrorKind>(l@),
                Err(k) => self@.loose_outcome() == Err::<LooseView, ErrorKind>(k),
            },
    {
        match self.check_bare_validity() {
            Err(k) => {
                return Err(k);
            },
            Ok(_) => {},
        }
        let (id, fnsku, units) = match (self.id, &self.fnsku, self.units) {
            (Some(id), Some(fnsku), Some(units)) => (id, fnsku, units),
            _ => {
                return Err(ErrorKind::MissingId);
            },
        };
        let group = match &self.staging_group {
            Some(group) => group,
            None => {
                return Err(ErrorKind::MissingGroup);
            },
        };
        let weight = match self.unit_weight {
            Some(weight) => weight,
            None => {
                return Err(ErrorKind::MissingUnitWeight);
            },
        };
        Ok(Loose { id, fnsku: fnsku.clone(), units, gram_weight: weight.grams(), group: group.clone() })
    }

    /// Says which of the four fields that every entry needs is the first to
    /// be absent, if any is.
    pub fn check_bare_validity(&self) -> (r: Result<(), ErrorKind>)
        ensures
            match r {
                Ok(_) => self@.bare_error() is None,
                Err(k) => self@.bare_error() == Some(k),
            },
    {
        if self.id.is_none() {
            return Err(ErrorKind::MissingId);
        }
        if self.fnsku.is_none() {
            return Err(ErrorKind::MissingFnsku);
        }
        if self.pack_type.is_none() {
            return Err(ErrorKind::MissingPackType);
        }
        if self.units.is_none() {
            return Err(ErrorKind::MissingUnits);
        }
        Ok(())
    }

    /// Builds the packed entry that the draft describes, whatever its pack
    /// type says, or names the first rule that the draft breaks.
    pub fn build_packed(&self) -> (r: Result<Packed, ErrorKind>)
        ensures
            match r {
                Ok(p) => self@.packed_outcome() == Ok::<PackedView, ErrorKind>(p@) && p@.wf(),
                Err(k) => self@.packed_outcome() == Err::<PackedView, ErrorKind>(k),
            },
    {
        match self.check_bare_validity() {
            Err(k) => {
                return Err(k);
            },
            Ok(_) => {},
        }
        let (id, fnsku, units) = match (self.id, &self.fnsku, self.units) {
            (Some(id), Some(fnsku), Some(units)) => (id, fnsku, units),
            _ => {
                return Err(ErrorKind::MissingId);
            },
        };
        let case_qt: u32 = match self.case_qt {
            Some(case_qt) => case_qt,
            None => {
                return Err(ErrorKind::MissingCaseQt);
            },
        };
        if case_qt == 0 {
            return Err(ErrorKind::MissingCaseQt);
        }
        if units % case_qt != 0 {
            return Err(ErrorKind::NonDivisibleCaseQt);
        }
        let weight = match self.case_weight {
            Some(weight) => weight,
            None => {
                return Err(ErrorKind::MissingPackedWeight);
            },
        };
        let (length, width, height) = match (self.case_length, self.case_width, self.case_height) {
            (Some(length), Some(width), Some(height)) => (length, width, height),
            _ => {
                return Err(ErrorKind::MissingPackedDimensions);
            },
        };
        if !(length.is_positive() && width.is_positive() && height.is_positive()) {
            return Err(ErrorKind::MissingPackedDimensions);
        }
        let case = Case::from_dims(length.ceil(), width.ceil(), height.ceil(), weight.grams());
        Ok(Packed { id, fnsku: fnsku.clone(), units, per_case: case_qt, case })
    }
}

/// A draft that describes a packed entry in full is built into that entry,
/// and the cases of the entry hold exactly its units.
pub proof fn lemma_complete_packed_draft_builds(d: DraftView)
    requires
        d.is_complete_packed(),
    ensures
        d.outcome() == Ok::<EntryView, ErrorKind>(EntryView::Packed(d.packed_view())),
        d.packed_view().wf(),
        d.packed_view().cases() * d.case_qt.unwrap() == d.units.unwrap(),
{
    lemma_cases_fill_units(d.packed_view());
}

/// Take one field away from a draft that describes a packed entry in full:
/// the draft is turned down, and the error is the one that belongs to that
/// field.
pub proof fn lemma_omitted_packed_field_is_named(d: DraftView)
    requires
        d.is_complete_packed(),
    ensures
        (DraftView { id: None, ..d }).outcome() == Err::<EntryView, ErrorKind>(
            ErrorKind::MissingId,
        ),
        (DraftView { fnsku: None, ..d }).outcome() == Err::<EntryView, ErrorKind>(
            ErrorKind::MissingFnsku,
        ),
        (DraftView { pack_type: None, ..d }).outcome() == Err::<EntryView, ErrorKind>(
            ErrorKind::MissingPackType,
        ),
        (DraftView { units: None, ..d }).outcome() == Err::<EntryView, ErrorKind>(
            ErrorKind::MissingUnits,
        ),
        (DraftView { case_qt: None, ..d }).outcome() == Err::<EntryView, ErrorKind>(
            ErrorKind::MissingCaseQt,
        ),
        (DraftView { case_weight: None, ..d }).outcome() == Err::<EntryView, ErrorKind>(
            ErrorKind::MissingPackedWeight,
        ),
        (DraftView { case_length: None, ..d }).outcome() == Err::<EntryView, ErrorKind>(
            ErrorKind::MissingPackedDimensions,
        ),
        (DraftView { case_width: None, ..d }).outcome() == Err::<EntryView, ErrorKind>(
            ErrorKind::MissingPackedDimensions,
        ),
        (DraftView { case_height: None, ..d }).outcome() == Err::<EntryView, ErrorKind>(
            ErrorKind::MissingPackedDimensions,
        ),
{
}

/// The packed entry that a draft describes does not depend on which of the
/// three dimensions of the case stands in which field.
pub proof fn lemma_dimension_fields_may_be_swapped(d: DraftView)
    ensures
        (DraftView { case_length: d.case_width, case_width: d.case_length, ..d }).outcome()
            == d.outcome(),
        (DraftView { case_width: d.case_height, case_height: d.case_width, ..d }).outcome()
            == d.outcome(),
        (DraftView { case_length: d.case_height, case_height: d.case_length, ..d }).outcome()
            == d.outcome(),
{
    if d.case_length is Some && d.case_width is Some && d.case_height is Some {
        let a = d.case_length.unwrap().spec_ceil();
        let b = d.case_width.unwrap().spec_ceil();
        let c = d.case_height.unwrap().spec_ceil();
        let g = if d.case_weight is Some {
            d.case_weight.unwrap().spec_grams()
        } else {
            0
        };
        lemma_dims_order_is_irrelevant(a, b, c, g);
    }
}

/// Units that do not fill whole cases are turned down, in a draft that is
/// otherwise the draft of a packed entry.
pub proof fn lemma_uneven_units_are_turned_down(d: DraftView)
    requires
        d.bare_error() is None,
        d.pack_type == Some("Packed"@),
        d.case_qt is Some,
        d.case_qt.unwrap() != 0,
        d.units.unwrap() % d.case_qt.unwrap() != 0,
    ensures
        d.outcome() == Err::<EntryView, ErrorKind>(ErrorKind::NonDivisibleCaseQt),
{
}

/// A draft without a pack type is turned down for that, whatever its other
/// fields hold, as long as it has an id and a stock unit identifier, whose
/// absence is named first.
pub proof fn lemma_missing_pack_type(d: DraftView)
    requires
        d.id is Some,
        d.fnsku is Some,
        d.pack_type is None,
    ensures
        d.outcome() == Err::<EntryView, ErrorKind>(ErrorKind::MissingPackType),
{
}

} // verus!

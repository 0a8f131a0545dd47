//! The data of name resolution: where each item of a package is defined, and what the
//! imports of each file resolve to.
use crate::ast::{ASTId, ItemKind};
use crate::diagnostics::code_window::{CodeWindow, MarkKind};
use crate::display_table::DisplayIdx;
use crate::parser::errors_reporter::{is_mark, labels_view};
use crate::span::{is_stable_sort_of, sort_spans, Span};
use crate::text::{decimal_digits, decimal_text};
use std::collections::HashMap;
use vstd::prelude::*;

verus! {

/// A file after parsing: its path, its lines and its syntax tree.
#[derive(Debug)]
pub struct ParsedFile {
    pub path: String,
    pub lines: Vec<String>,
    pub ast: crate::ast::File,
}

/// How many items of each kind were found, used to index the items of the NIR.
#[derive(Debug, Default, Clone, Copy)]
pub struct ASTItemsCounter {
    pub unit_structs: usize,
    pub tuple_structs: usize,
    pub fields_structs: usize,
    pub fns: usize,
}

/// An item's kind (in the high bits) and its index among the items of that kind (in the
/// low bits), packed in one `u64`.
#[derive(Clone, Copy, Debug, PartialEq, Eq, Structural)]
pub struct FileItemKindAndIdx(u64);

pub open spec fn file_item_kind_mask() -> u64 {
    0b11u64 << 60u64
}

pub open spec fn file_item_index_mask() -> u64 {
    !(0b11u64 << 60u64)
}

impl FileItemKindAndIdx {
    const KIND_BITS: u64 = 4;
    const KIND_SHIFT: u64 = 60;
    const KIND_MASK: u64 = 0b11 << 60;
    const INDEX_MASK: u64 = !(0b11u64 << 60);

    // Possible kinds
    pub const UNIT_STRUCT: u64 = 0 << 60;
    pub const TUPLE_STRUCT: u64 = 1 << 60;
    pub const FIELDS_STRUCT: u64 = 2 << 60;
    pub const FN: u64 = 3 << 60;

    /// The packed integer.
    pub closed spec fn bits(self) -> u64 {
        self.0
    }

    /// Creates a new encoded value for a given kind and index.
    pub fn new(kind: u64, index: usize) -> (r: Self)
        ensures
            r.bits() == kind | (index as u64),
    {
        Self(kind | index as u64)
    }

    /// Decodes the kind of the item: the bits of the kind mask.
    pub fn kind(self) -> (r: u64)
        ensures
            r == self.bits() & file_item_kind_mask(),
    {
        self.0 & Self::KIND_MASK
    }

    /// Decodes the index of the item: the bits outside the kind mask.
    pub fn index(self) -> (r: usize)
        ensures
            r == (self.bits() & file_item_index_mask()) as usize,
    {
        (self.0 & Self::INDEX_MASK) as usize
    }
}

/// Packing a kind and an index and then decoding gives them back, when the kind lies within
/// the kind mask (each of the four kinds does) and the index below it.
pub proof fn lemma_file_item_kind_and_idx_roundtrip(kind: u64, index: u64)
    requires
        kind & file_item_index_mask() == 0,
        index & file_item_kind_mask() == 0,
    ensures
        (kind | index) & file_item_kind_mask() == kind,
        (kind | index) & file_item_index_mask() == index,
{
    assert((kind | index) & (0b11u64 << 60u64) == kind && (kind | index) & !(0b11u64 << 60u64)
        == index) by (bit_vector)
        requires
            kind & !(0b11u64 << 60u64) == 0,
            index & (0b11u64 << 60u64) == 0,
    ;
}

/// Where an item is defined.
#[derive(Clone, Copy, Debug)]
pub struct ItemInFile {
    /// The kind and index in the NIR
    pub kind_and_idx: FileItemKindAndIdx,
    /// The file index where the item is defined
    pub file_idx: usize,
    /// The item index in the list of file items
    pub item_idx: usize,
}

/// An import that was resolved: the package and the item it names, and the name it is known
/// by in the importing file.
#[derive(Clone, Copy, Debug)]
pub struct ResolvedImport {
    /// The pkg idx of the resolved item
    pub pkg_idx: usize,
    /// The resolved item
    pub item: ItemInFile,
    /// The alias of the resolved item
    pub alias: ASTId,
}

pub struct NameResolutionTree {
    /// Each pkg has a map of ids to their occurrence in the package (the file index and the item index in that file)
    pub packages_to_items: Vec<HashMap<DisplayIdx, ItemInFile>>,
    /// Each pkg will have HashMap<usize, Vec<ResolvedImport>>,
    /// which is the map of file idx to its resolved imports
    pub resolved_imports: Vec<HashMap<usize, Vec<ResolvedImport>>>,
    /// Each pkg will have HashMap<usize, Vec<usize>>,
    /// which is the map of file idx to its resolved pkgs indexes
    pub resolved_star_imports: Vec<HashMap<usize, Vec<usize>>>,
    /// The counter for items (used to construct NIR)
    pub ast_counter: ASTItemsCounter,
}

/// How messages name an item of the kind `kind`: a function, or else a structure.
pub open spec fn item_kind_name(kind: ItemKind) -> Seq<char> {
    match kind {
        ItemKind::Fn(_) => "الدالة"@,
        _ => "الهيكل"@,
    }
}

#[inline]
pub fn item_kind_to_str(kind: &ItemKind) -> (r: &'static str)
    ensures
        r@ == item_kind_name(*kind),
{
    match kind {
        ItemKind::UnitStruct | ItemKind::TupleStruct(_) | ItemKind::FieldsStruct(_) => "الهيكل",
        ItemKind::Fn(_) => "الدالة",
    }
}

/// The label of the occurrence number `n` of a name: its ordinal in words up to the tenth,
/// then its number.
pub open spec fn occurrence_label(n: nat) -> Seq<char> {
    if n == 1 {
        "هنا تم العثور على أول عنصر بهذا الاسم"@
    } else if n == 2 {
        "هنا تم العثور على نفس الاسم للمرة الثانية"@
    } else if n == 3 {
        "هنا تم العثور على نفس الاسم للمرة الثالثة"@
    } else if n == 4 {
        "هنا تم العثور على نفس الاسم للمرة الرابعة"@
    } else if n == 5 {
        "هنا تم العثور على نفس الاسم للمرة الخامسة"@
    } else if n == 6 {
        "هنا تم العثور على نفس الاسم للمرة السادسة"@
    } else if n == 7 {
        "هنا تم العثور على نفس الاسم للمرة السابعة"@
    } else if n == 8 {
        "هنا تم العثور على نفس الاسم للمرة الثامنة"@
    } else if n == 9 {
        "هنا تم العثور على نفس الاسم للمرة التاسعة"@
    } else if n == 10 {
        "هنا تم العثور على نفس الاسم للمرة العاشرة"@
    } else {
        "هنا تم العثور على نفس الاسم للمرة "@ + decimal_digits(n)
    }
}

fn occurrence_label_text(n: usize) -> (r: String)
    ensures
        r@ == occurrence_label(n as nat),
{
    match n {
        1 => String::from_str("هنا تم العثور على أول عنصر بهذا الاسم"),
        2 => String::from_str("هنا تم العثور على نفس الاسم للمرة الثانية"),
        3 => String::from_str("هنا تم العثور على نفس الاسم للمرة الثالثة"),
        4 => String::from_str("هنا تم العثور على نفس الاسم للمرة الرابعة"),
        5 => String::from_str("هنا تم العثور على نفس الاسم للمرة الخامسة"),
        6 => String::from_str("هنا تم العثور على نفس الاسم للمرة السادسة"),
        7 => String::from_str("هنا تم العثور على نفس الاسم للمرة السابعة"),
        8 => String::from_str("هنا تم العثور على نفس الاسم للمرة الثامنة"),
        9 => String::from_str("هنا تم العثور على نفس الاسم للمرة التاسعة"),
        10 => String::from_str("هنا تم العثور على نفس الاسم للمرة العاشرة"),
        o => {
            let mut label = String::from_str("هنا تم العثور على نفس الاسم للمرة ");
            label.append(decimal_text(o as u64).as_str());
            label
        },
    }
}

/// A code window that marks the occurrences of one name, in the order of their positions:
/// the first occurrence of all as the error, the others as secondary, each labelled with
/// its number, counted on from `occurrences`. The window starts where the first of the
/// given spans starts.
pub fn occurrences_code_window(
    _parsed_file: &ParsedFile,
    occurrences: &mut usize,
    spans: Vec<Span>,
) -> (r: CodeWindow)
    requires
        spans@.len() > 0,
        *old(occurrences) + spans@.len() <= usize::MAX,
        *old(occurrences) >= 1,
        spans@.len() <= u64::MAX,
    ensures
        *final(occurrences) == *old(occurrences) + spans@.len(),
        r.start == spans@[0].start,
        r.marks@.len() == spans@.len(),
        exists|sorted: Seq<Span>|
            #![trigger is_stable_sort_of(sorted, spans@)]
            is_stable_sort_of(sorted, spans@) && forall|i: int|
                0 <= i < sorted.len() ==> is_mark(
                    #[trigger] r.marks@[i],
                    sorted[i],
                    if *old(occurrences) + i == 1 {
                        MarkKind::Error
                    } else {
                        MarkKind::Secondary
                    },
                    seq![occurrence_label((*old(occurrences) + i) as nat)],
                ),
{
    let mut code_window = CodeWindow::new(spans[0].start);
    let ghost start = spans@[0].start;
    let mut spans = spans;
    sort_spans(spans.as_mut_slice());
    let ghost sorted = spans@;
    let ghost first = *occurrences;
    let mut i: usize = 0;
    while i < spans.len()
        invariant
            spans@ == sorted,
            code_window.start == start,
            i <= sorted.len(),
            *occurrences == first + i,
            first + sorted.len() <= usize::MAX,
            first >= 1,
            code_window.marks@.len() == i,
            forall|k: int|
                0 <= k < i ==> is_mark(
                    #[trigger] code_window.marks@[k],
                    sorted[k],
                    if first + k == 1 {
                        MarkKind::Error
                    } else {
                        MarkKind::Secondary
                    },
                    seq![occurrence_label((first + k) as nat)],
                ),
        decreases sorted.len() - i,
    {
        let span = spans[i];
        let occurrence_str = occurrence_label_text(*occurrences);
        let ghost label = occurrence_str@;
        let labels = vec![occurrence_str];
        proof {
            assert(labels_view(labels@) =~= seq![label]);
        }
        if *occurrences == 1 {
            code_window.mark_error(span, labels);
        } else {
            code_window.mark_secondary(span, labels);
        }
        *occurrences += 1;
        i = i + 1;
    }
    code_window
}

} // verus!

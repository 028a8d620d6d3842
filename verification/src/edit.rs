//! Text edits, and the edits of one action gathered by document.

use vstd::prelude::*;
use vstd::string::StringExecFns;
use vstd::utf8::valid_utf8;
use crate::position::{range_at, Position, PositionIndex, Range};
use crate::span::SrcSpan;
use crate::text::{lemma_coordinates_bounded, lemma_coordinates_monotonic, valid_offset};

verus! {

/// Replace the text in `range` by `new_text`.
#[derive(Debug)]
pub struct TextEdit {
    pub range: Range,
    pub new_text: String,
}

/// A text edit as a value: its range and the characters it puts there.
pub ghost struct TextEditView {
    pub range: Range,
    pub new_text: Seq<char>,
}

impl View for TextEdit {
    type V = TextEditView;

    open spec fn view(&self) -> TextEditView {
        TextEditView { range: self.range, new_text: self.new_text@ }
    }
}

/// The values of a sequence of edits.
pub open spec fn edits_view(edits: Seq<TextEdit>) -> Seq<TextEditView> {
    edits.map_values(|e: TextEdit| e@)
}

/// A wish to put `text` in the place of `span`.
#[derive(Debug)]
pub struct Replacement {
    pub span: SrcSpan,
    pub text: String,
}

/// A replacement as a value.
pub ghost struct ReplacementView {
    pub span: SrcSpan,
    pub text: Seq<char>,
}

impl View for Replacement {
    type V = ReplacementView;

    open spec fn view(&self) -> ReplacementView {
        ReplacementView { span: self.span, text: self.text@ }
    }
}

/// The values of a sequence of replacements.
pub open spec fn replacements_view(replacements: Seq<Replacement>) -> Seq<ReplacementView> {
    replacements.map_values(|r: Replacement| r@)
}

/// Whether both ends of `span` are places in the text.
pub open spec fn span_in_text(bytes: Seq<u8>, span: SrcSpan) -> bool {
    valid_offset(bytes, span.start as int) && valid_offset(bytes, span.end as int)
}

/// The edit that puts `text` in the place of `span`.
pub open spec fn substitution(bytes: Seq<u8>, span: SrcSpan, text: Seq<char>) -> TextEditView {
    TextEditView { range: range_at(bytes, span.start, span.end), new_text: text }
}

/// Whether the replacements can be made together: each span is well
/// formed and lies in the text, and each ends before the next begins.
pub open spec fn composable(bytes: Seq<u8>, replacements: Seq<ReplacementView>) -> bool {
    &&& forall|i: int|
        0 <= i < replacements.len() ==> (#[trigger] replacements[i]).span.wf() && span_in_text(
            bytes,
            replacements[i].span,
        )
    &&& forall|i: int, j: int|
        0 <= i < j < replacements.len() ==> (#[trigger] replacements[i]).span.end <= (
        #[trigger] replacements[j]).span.start
}

/// The edits that make the replacements, one for each and in their order,
/// if they can be made together.
pub open spec fn composed(bytes: Seq<u8>, replacements: Seq<ReplacementView>) -> Option<
    Seq<TextEditView>,
> {
    if composable(bytes, replacements) {
        Some(
            Seq::new(
                replacements.len(),
                |i: int| substitution(bytes, replacements[i].span, replacements[i].text),
            ),
        )
    } else {
        None
    }
}

/// Whether position `a` is at or before position `b`.
pub open spec fn position_le(a: Position, b: Position) -> bool {
    a.line < b.line || (a.line == b.line && a.character <= b.character)
}

/// Whether the edits can be applied one after the other: no range ends
/// before it begins, and each ends at or before the start of every later
/// one.
pub open spec fn ordered_edits(edits: Seq<TextEditView>) -> bool {
    &&& forall|i: int|
        0 <= i < edits.len() ==> position_le(
            (#[trigger] edits[i]).range.start,
            edits[i].range.end,
        )
    &&& forall|i: int, j: int|
        0 <= i < j < edits.len() ==> position_le(
            (#[trigger] edits[i]).range.end,
            (#[trigger] edits[j]).range.start,
        )
}

/// Composed edits never overlap and come in ascending order.
pub proof fn lemma_composed_is_ordered(bytes: Seq<u8>, replacements: Seq<ReplacementView>)
    requires
        valid_utf8(bytes),
        bytes.len() <= u32::MAX,
        composed(bytes, replacements) is Some,
    ensures
        ordered_edits(composed(bytes, replacements)->0),
        composed(bytes, replacements)->0.len() == replacements.len(),
{
    let edits = composed(bytes, replacements)->0;
    assert forall|i: int| 0 <= i < edits.len() implies position_le(
        (#[trigger] edits[i]).range.start,
        edits[i].range.end,
    ) by {
        let span = replacements[i].span;
        lemma_coordinates_monotonic(bytes, span.start as int, span.end as int);
        lemma_coordinates_bounded(bytes, span.start as int);
        lemma_coordinates_bounded(bytes, span.end as int);
    }
    assert forall|i: int, j: int| 0 <= i < j < edits.len() implies position_le(
        (#[trigger] edits[i]).range.end,
        (#[trigger] edits[j]).range.start,
    ) by {
        let from = replacements[i].span.end;
        let to = replacements[j].span.start;
        lemma_coordinates_monotonic(bytes, from as int, to as int);
        lemma_coordinates_bounded(bytes, from as int);
        lemma_coordinates_bounded(bytes, to as int);
    }
}

/// Turns replacements into edits, if they can be made together: the Edit
/// Composer. It refuses spans that reach outside the text, that end before
/// they begin, that overlap, and that are out of order.
pub fn compose_edits(line_numbers: &PositionIndex, replacements: &Vec<Replacement>) -> (edits:
    Option<Vec<TextEdit>>)
    ensures
        edits is Some <==> composed(line_numbers@, replacements_view(replacements@)) is Some,
        edits matches Some(list) ==> composed(line_numbers@, replacements_view(replacements@))
            == Some(edits_view(list@)),
{
    let ghost bytes = line_numbers@;
    let ghost wanted = replacements_view(replacements@);
    let mut edits: Vec<TextEdit> = Vec::new();
    let mut last_end: u32 = 0;
    let mut i: usize = 0;
    while i < replacements.len()
        invariant
            i <= replacements@.len(),
            bytes == line_numbers@,
            wanted == replacements_view(replacements@),
            edits@.len() == i,
            i > 0 ==> last_end == wanted[i - 1].span.end,
            forall|k: int|
                0 <= k < i ==> (#[trigger] wanted[k]).span.wf() && span_in_text(
                    bytes,
                    wanted[k].span,
                ) && wanted[k].span.end <= last_end,
            forall|a: int, b: int|
                0 <= a < b < i ==> (#[trigger] wanted[a]).span.end <= (
                #[trigger] wanted[b]).span.start,
            forall|k: int|
                0 <= k < i ==> (#[trigger] edits@[k])@ == substitution(
                    bytes,
                    wanted[k].span,
                    wanted[k].text,
                ),
        decreases replacements.len() - i,
    {
        let span = replacements[i].span;
        assert(wanted[i as int] == replacements@[i as int]@);
        if span.start > span.end || (i > 0 && span.start < last_end) {
            proof {
                if span.start <= span.end {
                    assert(wanted[i - 1].span.end > wanted[i as int].span.start);
                }
            }
            return None;
        }
        let range = match line_numbers.range(span.start, span.end) {
            Ok(range) => range,
            Err(_) => {
                assert(!span_in_text(bytes, wanted[i as int].span));
                return None;
            },
        };
        edits.push(TextEdit { range, new_text: replacements[i].text.clone() });
        last_end = span.end;
        i += 1;
    }
    proof {
        assert(composable(bytes, wanted));
        assert(edits_view(edits@) =~= composed(bytes, wanted)->0);
    }
    Some(edits)
}

/// The edits of one document.
#[derive(Debug)]
pub struct DocumentChange {
    pub uri: String,
    pub edits: Vec<TextEdit>,
}

/// The edits of one action, by document. No document occurs twice.
#[derive(Debug)]
pub struct WorkspaceEdit {
    changes: Vec<DocumentChange>,
}

/// Whether no two entries name the same document.
pub open spec fn distinct_documents(entries: Seq<DocumentChange>) -> bool {
    forall|i: int, j: int|
        0 <= i < entries.len() && 0 <= j < entries.len() && i != j ==> entries[i].uri@
            != entries[j].uri@
}

/// The map that the first `n` entries build, a later entry replacing an
/// earlier one of the same document.
pub open spec fn changes_map(entries: Seq<DocumentChange>, n: nat) -> Map<
    Seq<char>,
    Seq<TextEditView>,
>
    decreases n,
{
    if n == 0 || n > entries.len() {
        Map::empty()
    } else {
        changes_map(entries, (n - 1) as nat).insert(
            entries[n - 1].uri@,
            edits_view(entries[n - 1].edits@),
        )
    }
}

/// Replacing the edits of an entry whose document no other entry names
/// is an insertion into the map.
proof fn lemma_replace_entry(
    before: Seq<DocumentChange>,
    after: Seq<DocumentChange>,
    j: int,
    n: nat,
)
    requires
        0 <= j < before.len(),
        after.len() == before.len(),
        forall|k: int| 0 <= k < before.len() && k != j ==> after[k] == before[k],
        after[j].uri@ == before[j].uri@,
        forall|k: int| 0 <= k < before.len() && k != j ==> before[k].uri@ != before[j].uri@,
        n <= before.len(),
    ensures
        n <= j ==> changes_map(after, n) == changes_map(before, n),
        n > j ==> changes_map(after, n) == changes_map(before, n).insert(
            after[j].uri@,
            edits_view(after[j].edits@),
        ),
    decreases n,
{
    if n > 0 {
        lemma_replace_entry(before, after, j, (n - 1) as nat);
        if n > j {
            assert(changes_map(after, n) =~= changes_map(before, n).insert(
                after[j].uri@,
                edits_view(after[j].edits@),
            ));
        }
    }
}

/// A document that no entry names is no key of the map.
proof fn lemma_absent_key(entries: Seq<DocumentChange>, n: nat, uri: Seq<char>)
    requires
        n <= entries.len(),
        forall|k: int| 0 <= k < n ==> entries[k].uri@ != uri,
    ensures
        !changes_map(entries, n).dom().contains(uri),
    decreases n,
{
    if n > 0 {
        lemma_absent_key(entries, (n - 1) as nat, uri);
    }
}

impl View for WorkspaceEdit {
    type V = Map<Seq<char>, Seq<TextEditView>>;

    /// The edits of each document that has any.
    closed spec fn view(&self) -> Map<Seq<char>, Seq<TextEditView>> {
        changes_map(self.changes@, self.changes@.len())
    }
}

impl WorkspaceEdit {
    #[verifier::type_invariant]
    spec fn inv(&self) -> bool {
        distinct_documents(self.changes@)
    }

    /// An edit of no document.
    pub fn new() -> (edit: WorkspaceEdit)
        ensures
            edit@ == Map::<Seq<char>, Seq<TextEditView>>::empty(),
    {
        WorkspaceEdit { changes: Vec::new() }
    }

    /// Sets the edits of document `uri`, in place of those it had.
    pub fn insert(&mut self, uri: String, edits: Vec<TextEdit>)
        ensures
            final(self)@ == old(self)@.insert(uri@, edits_view(edits@)),
    {
        proof {
            use_type_invariant(&*self);
        }
        let ghost before = self.changes@;
        let mut i: usize = 0;
        while i < self.changes.len() && self.changes[i].uri != uri
            invariant
                i <= self.changes@.len(),
                self.changes@ == before,
                forall|k: int| 0 <= k < i ==> before[k].uri@ != uri@,
            decreases self.changes.len() - i,
        {
            i += 1;
        }
        let mut changes = Vec::new();
        std::mem::swap(&mut changes, &mut self.changes);
        if i < changes.len() {
            let _ = changes.remove(i);
            changes.insert(i, DocumentChange { uri, edits });
            proof {
                lemma_replace_entry(before, changes@, i as int, before.len());
            }
        } else {
            changes.push(DocumentChange { uri, edits });
            proof {
                lemma_same_prefix(changes@, before, before.len());
            }
        }
        *self = WorkspaceEdit { changes };
    }

    /// The edits of document `uri`, if it has any.
    pub fn get(&self, uri: &str) -> (edits: Option<&Vec<TextEdit>>)
        ensures
            edits is Some <==> self@.dom().contains(uri@),
            edits matches Some(found) ==> edits_view(found@) == self@[uri@],
    {
        proof {
            use_type_invariant(self);
        }
        let wanted = String::from_str(uri);
        let mut i: usize = 0;
        while i < self.changes.len()
            invariant
                i <= self.changes@.len(),
                wanted@ == uri@,
                distinct_documents(self.changes@),
                forall|k: int| 0 <= k < i ==> self.changes@[k].uri@ != uri@,
            decreases self.changes.len() - i,
        {
            if self.changes[i].uri == wanted {
                proof {
                    lemma_replace_entry(
                        self.changes@,
                        self.changes@,
                        i as int,
                        self.changes@.len(),
                    );
                }
                return Some(&self.changes[i].edits);
            }
            i += 1;
        }
        proof {
            lemma_absent_key(self.changes@, self.changes@.len(), uri@);
        }
        None
    }

    /// The documents that have edits, in the order in which they got them.
    pub fn documents(&self) -> (entries: &Vec<DocumentChange>)
        ensures
            distinct_documents(entries@),
            changes_map(entries@, entries@.len()) == self@,
    {
        proof {
            use_type_invariant(self);
        }
        &self.changes
    }
}

/// Two sequences of entries that agree on a prefix build the same map
/// from it.
proof fn lemma_same_prefix(a: Seq<DocumentChange>, b: Seq<DocumentChange>, n: nat)
    requires
        n <= a.len(),
        n <= b.len(),
        forall|k: int| 0 <= k < n ==> a[k] == b[k],
    ensures
        changes_map(a, n) == changes_map(b, n),
    decreases n,
{
    if n > 0 {
        lemma_same_prefix(a, b, (n - 1) as nat);
    }
}

} // verus!

//! Splicing edits into loaded chart XML: each edit replaces a byte range.
use vstd::prelude::*;
use crate::errors::{OmError, OmErrorCode};
use crate::sort::{lemma_sorted_by_map, sorted_by, stable_sort};

verus! {

/// An edit of a document: the byte range `[start, end)` and its replacement.
pub type ChartXmlEdit = (usize, usize, Vec<u8>);

/// What an edit holds.
pub type EditView = (nat, nat, Seq<u8>);

/// The view of an edit.
pub open spec fn edit_view(e: ChartXmlEdit) -> EditView {
    (e.0 as nat, e.1 as nat, e.2@)
}

/// Edits are applied by start, then by end.
pub open spec fn edit_lt(a: EditView, b: EditView) -> bool {
    a.0 < b.0 || (a.0 == b.0 && a.1 < b.1)
}

/// The same order on edits.
pub open spec fn edit_value_lt(a: ChartXmlEdit, b: ChartXmlEdit) -> bool {
    edit_lt(edit_view(a), edit_view(b))
}

/// Applies edits `k` on, in order, to `xml` read up to `cursor` and written
/// as `out`: none when an edit starts before the cursor, ends before it
/// starts, or ends past the document.
pub open spec fn splice_run(xml: Seq<u8>, edits: Seq<EditView>, k: int, cursor: nat, out: Seq<u8>) -> Option<Seq<u8>>
    decreases edits.len() - k,
{
    if k < 0 || k >= edits.len() {
        if cursor <= xml.len() {
            Some(out + xml.skip(cursor as int))
        } else {
            None
        }
    } else {
        let (s, e, rep) = edits[k];
        if s < cursor || e < s || e > xml.len() {
            None
        } else {
            splice_run(xml, edits, k + 1, e, out + xml.subrange(cursor as int, s as int) + rep)
        }
    }
}

/// The document with the edits applied in order of their ranges; none when
/// two edits overlap or an edit leaves the document.
pub open spec fn apply_edits(xml: Seq<u8>, edits: Seq<EditView>) -> Option<Seq<u8>> {
    if edits.len() == 0 {
        Some(xml)
    } else {
        splice_run(xml, sorted_by(edits, |a: EditView, b: EditView| edit_lt(a, b)), 0, 0, Seq::empty())
    }
}

/// The message for overlapping edits.
pub open spec fn overlap_message(label: Seq<char>) -> Seq<char> {
    "loaded chart "@ + label + " XML edits overlap"@
}

/// The views of a list of edits.
pub open spec fn edit_views(v: Seq<ChartXmlEdit>) -> Seq<EditView> {
    v.map_values(|e: ChartXmlEdit| edit_view(e))
}

fn edit_before(a: &ChartXmlEdit, b: &ChartXmlEdit) -> (r: bool)
    ensures
        r == edit_value_lt(*a, *b),
{
    a.0 < b.0 || (a.0 == b.0 && a.1 < b.1)
}

pub(crate) fn append_range(out: &mut Vec<u8>, xml: &[u8], from: usize, to: usize)
    requires
        from <= to <= xml@.len(),
    ensures
        final(out)@ == old(out)@ + xml@.subrange(from as int, to as int),
{
    let mut i: usize = from;
    let ghost start = out@;
    while i < to
        invariant
            from <= i <= to,
            to <= xml@.len(),
            out@ == start + xml@.subrange(from as int, i as int),
        decreases to - i,
    {
        out.push(xml[i]);
        assert(xml@.subrange(from as int, i + 1) =~= xml@.subrange(from as int, i as int).push(xml@[i as int]));
        i += 1;
    }
}

/// Applies edits to loaded chart XML, in order of their byte ranges; an
/// invalid-state error names the edits by `label` when two overlap or one
/// leaves the document.
pub fn apply_loaded_chart_xml_edits(
    existing_chart_xml: &[u8],
    edits: Vec<ChartXmlEdit>,
    label: &str,
) -> (r: Result<Vec<u8>, OmError>)
    ensures
        match apply_edits(existing_chart_xml@, edit_views(edits@)) {
            Some(x) => r matches Ok(v) && v@ == x,
            None => r matches Err(e) && e.code == OmErrorCode::InvalidState && e.message@ == overlap_message(label@),
        },
{
    let ghost xml = existing_chart_xml@;
    if edits.len() == 0 {
        let mut out: Vec<u8> = Vec::new();
        append_range(&mut out, existing_chart_xml, 0, existing_chart_xml.len());
        assert(out@ =~= xml);
        return Ok(out);
    }
    let ghost unsorted = edits@;
    let sorted = stable_sort(edits, edit_before, Ghost(|a: ChartXmlEdit, b: ChartXmlEdit| edit_value_lt(a, b)));
    let ghost order = sorted_by(edit_views(unsorted), |a: EditView, b: EditView| edit_lt(a, b));
    proof {
        lemma_sorted_by_map(
            unsorted,
            |e: ChartXmlEdit| edit_view(e),
            |a: ChartXmlEdit, b: ChartXmlEdit| edit_value_lt(a, b),
            |a: EditView, b: EditView| edit_lt(a, b),
        );
        assert(edit_views(unsorted) == unsorted.map_values(|e: ChartXmlEdit| edit_view(e)));
        assert(edit_views(sorted@) == order);
    }
    let mut out: Vec<u8> = Vec::new();
    let mut cursor: usize = 0;
    let mut k: usize = 0;
    while k < sorted.len()
        invariant
            k <= sorted@.len(),
            cursor <= xml.len(),
            xml == existing_chart_xml@,
            edit_views(sorted@) == order,
            apply_edits(xml, edit_views(unsorted)) == splice_run(xml, order, k as int, cursor as nat, out@),
            unsorted.len() > 0,
            unsorted == edits@,
        decreases sorted@.len() - k,
    {
        let start = sorted[k].0;
        let end = sorted[k].1;
        assert(order[k as int] == edit_view(sorted@[k as int]));
        if start < cursor || end < start || end > existing_chart_xml.len() {
            assert(splice_run(xml, order, k as int, cursor as nat, out@) is None);
            proof {
                reveal_strlit("loaded chart ");
                reveal_strlit(" XML edits overlap");
            }
            let mut message = String::from_str("loaded chart ");
            message.append(label);
            message.append(" XML edits overlap");
            return Err(OmError { code: OmErrorCode::InvalidState, message });
        }
        append_range(&mut out, existing_chart_xml, cursor, start);
        let ghost before = out@;
        let replacement = &sorted[k].2;
        let mut j: usize = 0;
        while j < replacement.len()
            invariant
                j <= replacement@.len(),
                out@ == before + replacement@.subrange(0, j as int),
            decreases replacement@.len() - j,
        {
            out.push(replacement[j]);
            assert(replacement@.subrange(0, j + 1) =~= replacement@.subrange(0, j as int).push(replacement@[j as int]));
            j += 1;
        }
        assert(replacement@.subrange(0, replacement@.len() as int) =~= replacement@);
        cursor = end;
        k += 1;
    }
    append_range(&mut out, existing_chart_xml, cursor, existing_chart_xml.len());
    assert(xml.subrange(cursor as int, xml.len() as int) =~= xml.skip(cursor as int));
    Ok(out)
}

/// A single edit inside the document replaces its range: the bytes before
/// `start`, the replacement, then the bytes from `end` on.
pub proof fn lemma_single_edit_splices(xml: Seq<u8>, start: nat, end: nat, replacement: Seq<u8>)
    requires
        start <= end <= xml.len(),
    ensures
        apply_edits(xml, seq![(start, end, replacement)]) == Some(
            xml.subrange(0, start as int) + replacement + xml.skip(end as int),
        ),
{
    let edits = seq![(start, end, replacement)];
    let lt = |a: EditView, b: EditView| edit_lt(a, b);
    assert(edits.drop_last() =~= Seq::<EditView>::empty());
    assert(sorted_by(edits.drop_last(), lt) =~= Seq::<EditView>::empty());
    assert(crate::sort::insert_sorted(Seq::<EditView>::empty(), edits.last(), lt) == seq![edits.last()]);
    assert(sorted_by(edits, lt) =~= edits);
    let out = Seq::<u8>::empty() + xml.subrange(0, start as int) + replacement;
    assert(out =~= xml.subrange(0, start as int) + replacement);
    assert(splice_run(xml, edits, 1, end, out) == Some(out + xml.skip(end as int)));
    assert(splice_run(xml, edits, 0, 0, Seq::empty()) == splice_run(xml, edits, 1, end, out));
}

/// Applying no edits gives the document back.
pub proof fn lemma_no_edits_is_identity(xml: Seq<u8>)
    ensures
        apply_edits(xml, Seq::empty()) == Some(xml),
{
}

} // verus!

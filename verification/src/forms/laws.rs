//! What holds of forms whatever their fields are: how a conditional block
//! shows in the fields that count, and that neither showing a form nor
//! checking a submission changes anything when done a second time.

use vstd::prelude::*;
use crate::fields::{FieldDefaultView, FieldDefineView};
use crate::forms::answers::FormAnswerView;
use crate::forms::blocks::{
    block_scan, block_scan_from, block_step, blocks_closed, lemma_scan_concat,
    lemma_scan_drops_markers, lemma_scan_keeps_prefix, lemma_scan_plain, lemma_scan_skips,
    visible_fields, BlockScan,
};
use crate::forms::defaults::{resolved_default, resolved_field, resolved_fields};
use crate::forms::form::{
    effective_fields, entry_outcome, form_outcome, found_issues, insert_by_order, kept_entries,
    lemma_insert_by_order, sorted_by_order,
};
use crate::forms::schema::SchemaFieldView;
use crate::forms::shape::{data_keys_unique, keys_unique, lemma_visible_keys_unique};
use crate::forms::validate::{field_outcome, FieldError, UploadsView};
use crate::json::JsonValueView;
use crate::text::lemma_trimmed_idempotent;

verus! {

/// Walking through a single field is taking one step.
pub proof fn lemma_scan_one(start: BlockScan, field: SchemaFieldView)
    ensures
        block_scan_from(start, seq![field]) == block_step(start, field),
{
    assert(seq![field].drop_last() =~= Seq::<SchemaFieldView>::empty());
    assert(block_scan_from(start, seq![field].drop_last()) == start);
}

/// A conditional block shows whole or not at all.
///
/// Take a list of fields in which a block stands: an opening marker, the
/// fields inside, and the closing marker with the same key. Let the block
/// be reached outside any skipped block, let no field inside close it
/// early, and let the blocks inside be closed where the condition holds.
/// Then the fields that count are those that count before the block, then
/// those that count inside it if its condition holds and none of them
/// otherwise, then those that count after it.
pub proof fn lemma_conditional_block(
    before: Seq<SchemaFieldView>,
    opening: SchemaFieldView,
    inside: Seq<SchemaFieldView>,
    closing: SchemaFieldView,
    after: Seq<SchemaFieldView>,
)
    requires
        blocks_closed(before),
        opening.define is IfEqual,
        closing.define is IfEnd,
        closing.define->IfEnd_key == opening.define->IfEqual_key,
        forall|i: int|
            0 <= i < inside.len() ==> !(#[trigger] inside[i].define matches FieldDefineView::IfEnd {
                key,
            } && key == opening.define->IfEqual_key),
        opening.define.condition_holds() ==> blocks_closed(inside),
    ensures
        visible_fields(before + seq![opening] + inside + seq![closing] + after) == visible_fields(
            before,
        ) + (if opening.define.condition_holds() {
            visible_fields(inside)
        } else {
            Seq::empty()
        }) + visible_fields(after),
        blocks_closed(before + seq![opening] + inside + seq![closing] + after) == blocks_closed(
            after,
        ),
{
    let start = BlockScan { suppressed: None, kept: Seq::empty() };
    let kept = visible_fields(before);
    let s0 = block_scan(before);
    assert(s0 == BlockScan { suppressed: None, kept });
    lemma_scan_concat(start, before + seq![opening] + inside + seq![closing], after);
    lemma_scan_concat(start, before + seq![opening] + inside, seq![closing]);
    lemma_scan_concat(start, before + seq![opening], inside);
    lemma_scan_concat(start, before, seq![opening]);
    lemma_scan_one(s0, opening);
    let s1 = block_step(s0, opening);
    let s2 = block_scan_from(s1, inside);
    lemma_scan_one(s2, closing);
    let s3 = block_step(s2, closing);
    if opening.define.condition_holds() {
        assert(s1 == s0);
        lemma_scan_keeps_prefix(kept, inside);
        assert(s2 == BlockScan { suppressed: None, kept: kept + visible_fields(inside) });
        assert(s3 == s2);
        lemma_scan_keeps_prefix(kept + visible_fields(inside), after);
    } else {
        assert(s1 == BlockScan { suppressed: Some(opening.define->IfEqual_key), kept });
        lemma_scan_skips(s1, inside);
        assert(s2 == s1);
        assert(s3 == BlockScan { suppressed: None, kept });
        lemma_scan_keeps_prefix(kept, after);
        assert(kept + Seq::<SchemaFieldView>::empty() =~= kept);
    }
}

/// Of a block without markers inside, the fields inside count exactly if
/// the condition of the block holds; the markers themselves never count.
pub proof fn lemma_plain_block(
    before: Seq<SchemaFieldView>,
    opening: SchemaFieldView,
    inside: Seq<SchemaFieldView>,
    closing: SchemaFieldView,
    after: Seq<SchemaFieldView>,
)
    requires
        blocks_closed(before),
        opening.define is IfEqual,
        closing.define is IfEnd,
        closing.define->IfEnd_key == opening.define->IfEqual_key,
        forall|i: int| 0 <= i < inside.len() ==> !(#[trigger] inside[i]).define.is_marker(),
    ensures
        visible_fields(before + seq![opening] + inside + seq![closing] + after) == visible_fields(
            before,
        ) + (if opening.define.condition_holds() {
            inside
        } else {
            Seq::empty()
        }) + visible_fields(after),
{
    lemma_scan_plain(inside);
    lemma_conditional_block(before, opening, inside, closing, after);
}

/// No marker is among the fields that count.
pub proof fn lemma_visible_without_markers(fields: Seq<SchemaFieldView>)
    ensures
        forall|i: int|
            0 <= i < visible_fields(fields).len() ==> !(#[trigger] visible_fields(
                fields,
            )[i]).define.is_marker(),
{
    lemma_scan_drops_markers(BlockScan { suppressed: None, kept: Seq::empty() }, fields);
}

/// Every field that a walk keeps was kept at its start or is one of the fields walked through.
pub proof fn lemma_scan_keeps_fields(start: BlockScan, fields: Seq<SchemaFieldView>)
    ensures
        forall|i: int|
            0 <= i < block_scan_from(start, fields).kept.len() ==> start.kept.contains(
                #[trigger] block_scan_from(start, fields).kept[i],
            ) || fields.contains(block_scan_from(start, fields).kept[i]),
    decreases fields.len(),
{
    if fields.len() == 0 {
    } else {
        let front = fields.drop_last();
        lemma_scan_keeps_fields(start, front);
        let mid = block_scan_from(start, front);
        let end = block_scan_from(start, fields);
        assert forall|i: int| 0 <= i < end.kept.len() implies start.kept.contains(
            #[trigger] end.kept[i],
        ) || fields.contains(end.kept[i]) by {
            if i < mid.kept.len() {
                assert(end.kept[i] == mid.kept[i]);
                if front.contains(mid.kept[i]) {
                    let j = choose|j: int| 0 <= j < front.len() && front[j] == mid.kept[i];
                    assert(fields[j] == mid.kept[i]);
                }
            } else {
                assert(end.kept[i] == fields[fields.len() - 1]);
            }
        }
    }
}

/// Resolving a default a second time against the same answers changes nothing.
pub proof fn lemma_resolved_default_twice(default: FieldDefaultView, history: Seq<FormAnswerView>)
    ensures
        resolved_default(resolved_default(default, history), history) == resolved_default(
            default,
            history,
        ),
{
}

/// Resolving a field a second time against the same answers changes nothing.
pub proof fn lemma_resolved_field_twice(field: SchemaFieldView, history: Seq<FormAnswerView>)
    ensures
        resolved_field(resolved_field(field, history), history) == resolved_field(field, history),
{
    match field.define {
        FieldDefineView::IfEqual { from, .. } => {
            lemma_resolved_default_twice(from, history);
        },
        _ => {},
    }
}

/// Showing a form a second time changes nothing: the fields that count for
/// a principal, taken as the fields of a form and resolved against the same
/// answers again, are the same fields.
pub proof fn lemma_effective_fields_idempotent(
    fields: Seq<SchemaFieldView>,
    history: Seq<FormAnswerView>,
)
    ensures
        effective_fields(effective_fields(fields, history), history) == effective_fields(
            fields,
            history,
        ),
{
    let resolved = resolved_fields(fields, history);
    let shown = effective_fields(fields, history);
    let start = BlockScan { suppressed: None, kept: Seq::empty() };
    lemma_scan_keeps_fields(start, resolved);
    lemma_visible_without_markers(resolved);
    assert forall|i: int| 0 <= i < shown.len() implies resolved_field(#[trigger] shown[i], history)
        == shown[i] by {
        assert(resolved.contains(shown[i]));
        let j = choose|j: int| 0 <= j < resolved.len() && resolved[j] == shown[i];
        lemma_resolved_field_twice(fields[j], history);
    }
    assert(resolved_fields(shown, history) =~= shown);
    lemma_scan_plain(shown);
}

/// A field makes of a value that it has kept what it made of the value
/// submitted: it keeps it as it is.
pub proof fn lemma_kept_value_stable(
    field: SchemaFieldView,
    uploads: UploadsView,
    data: JsonValueView,
)
    ensures
        field_outcome(field, uploads, data) matches Ok(kept) ==> kept is Null || field_outcome(
            field,
            uploads,
            kept,
        ) == Ok::<JsonValueView, FieldError>(kept),
{
    if let JsonValueView::Text(value) = data {
        lemma_trimmed_idempotent(value);
    }
}

/// With keys that are unique, what is kept under the key of a field is
/// what that field keeps, and nothing is kept under the key of a field
/// that keeps nothing.
pub proof fn lemma_kept_entries(
    fields: Seq<SchemaFieldView>,
    uploads: UploadsView,
    data: Map<Seq<char>, JsonValueView>,
)
    requires
        keys_unique(fields),
    ensures
        forall|i: int|
            0 <= i < fields.len() ==> match entry_outcome(#[trigger] fields[i], uploads, data) {
                Some(Ok(kept)) => kept_entries(fields, uploads, data).dom().contains(fields[i].key)
                    && kept_entries(fields, uploads, data)[fields[i].key] == kept,
                _ => !kept_entries(fields, uploads, data).dom().contains(fields[i].key),
            },
        forall|key: Seq<char>| #[trigger]
            kept_entries(fields, uploads, data).dom().contains(key) ==> exists|i: int|
                0 <= i < fields.len() && (#[trigger] fields[i]).key == key,
    decreases fields.len(),
{
    if fields.len() > 0 {
        let front = fields.drop_last();
        let last = fields.last();
        assert(keys_unique(front)) by {
            assert forall|i: int, j: int| 0 <= i < j < front.len() implies (
            #[trigger] front[i]).key != (#[trigger] front[j]).key by {
                assert(front[i] == fields[i] && front[j] == fields[j]);
            }
        }
        lemma_kept_entries(front, uploads, data);
        let before = kept_entries(front, uploads, data);
        let all = kept_entries(fields, uploads, data);
        assert(!before.dom().contains(last.key)) by {
            if before.dom().contains(last.key) {
                let i = choose|i: int|
                    0 <= i < front.len() && (#[trigger] front[i]).key == last.key;
                assert(fields[i].key == fields[fields.len() - 1].key);
            }
        }
        assert forall|i: int| 0 <= i < fields.len() implies match entry_outcome(
            #[trigger] fields[i],
            uploads,
            data,
        ) {
            Some(Ok(kept)) => all.dom().contains(fields[i].key) && all[fields[i].key] == kept,
            _ => !all.dom().contains(fields[i].key),
        } by {
            if i < front.len() {
                assert(front[i] == fields[i]);
                assert(fields[i].key != fields[fields.len() - 1].key);
            }
        }
        assert forall|key: Seq<char>| #[trigger] all.dom().contains(key) implies exists|i: int|
            0 <= i < fields.len() && (#[trigger] fields[i]).key == key by {
            if before.dom().contains(key) {
                let i = choose|i: int| 0 <= i < front.len() && (#[trigger] front[i]).key == key;
                assert(fields[i].key == key);
            } else {
                assert(fields[fields.len() - 1].key == key);
            }
        }
    }
}

/// Where no error is found for a list of fields, none is found for any field of it.
pub proof fn lemma_no_issues(
    fields: Seq<SchemaFieldView>,
    uploads: UploadsView,
    data: Map<Seq<char>, JsonValueView>,
)
    requires
        found_issues(fields, uploads, data).len() == 0,
    ensures
        forall|i: int|
            0 <= i < fields.len() ==> !(entry_outcome(
                #[trigger] fields[i],
                uploads,
                data,
            ) matches Some(Err(_))),
    decreases fields.len(),
{
    if fields.len() > 0 {
        let front = fields.drop_last();
        lemma_no_issues(front, uploads, data);
        assert forall|i: int| 0 <= i < fields.len() implies !(entry_outcome(
            #[trigger] fields[i],
            uploads,
            data,
        ) matches Some(Err(_))) by {
            if i < front.len() {
                assert(front[i] == fields[i]);
            }
        }
    }
}

/// Checking the first `n` of the fields against what the whole form has
/// kept finds no error and keeps what they kept before.
proof fn lemma_recheck_prefix(
    fields: Seq<SchemaFieldView>,
    uploads: UploadsView,
    data: Map<Seq<char>, JsonValueView>,
    n: int,
)
    requires
        0 <= n <= fields.len(),
        keys_unique(fields),
        found_issues(fields, uploads, data).len() == 0,
        forall|i: int|
            0 <= i < fields.len() && (#[trigger] fields[i]).required && !fields[i].editable
                ==> !data.dom().contains(fields[i].key),
    ensures
        found_issues(fields.take(n), uploads, kept_entries(fields, uploads, data)).len() == 0,
        kept_entries(fields.take(n), uploads, kept_entries(fields, uploads, data)) == kept_entries(
            fields.take(n),
            uploads,
            data,
        ),
    decreases n,
{
    let kept = kept_entries(fields, uploads, data);
    if n > 0 {
        lemma_recheck_prefix(fields, uploads, data, n - 1);
        lemma_kept_entries(fields, uploads, data);
        lemma_no_issues(fields, uploads, data);
        let field = fields[n - 1];
        assert(fields.take(n).drop_last() =~= fields.take(n - 1));
        assert(fields.take(n).last() == field);
        if data.dom().contains(field.key) {
            lemma_kept_value_stable(field, uploads, data[field.key]);
        }
        assert(entry_outcome(field, uploads, kept) == entry_outcome(field, uploads, data));
    }
}

/// Checking what a form has kept keeps it as it is.
///
/// If a form accepts a submission, it accepts the values that it kept of
/// it, and keeps exactly these. This holds of forms whose data fields have
/// keys of their own, for submissions that hold nothing for a required
/// field that cannot be edited.
pub proof fn lemma_normalized_is_stable(
    fields: Seq<SchemaFieldView>,
    uploads: UploadsView,
    data: Map<Seq<char>, JsonValueView>,
)
    requires
        form_outcome(fields, uploads, data) is Ok,
        data_keys_unique(fields),
        forall|i: int|
            0 <= i < visible_fields(fields).len() && (#[trigger] visible_fields(
                fields,
            )[i]).required && !visible_fields(fields)[i].editable ==> !data.dom().contains(
                visible_fields(fields)[i].key,
            ),
    ensures
        form_outcome(fields, uploads, form_outcome(fields, uploads, data)->Ok_0) == form_outcome(
            fields,
            uploads,
            data,
        ),
{
    let visible = visible_fields(fields);
    lemma_visible_keys_unique(fields);
    lemma_recheck_prefix(visible, uploads, data, visible.len() as int);
    assert(visible.take(visible.len() as int) =~= visible);
}

/// Whether the fields stand in ascending order.
pub open spec fn in_ascending_order(fields: Seq<SchemaFieldView>) -> bool {
    forall|i: int, j: int|
        0 <= i < j < fields.len() ==> (#[trigger] fields[i]).order <= (#[trigger] fields[j]).order
}

/// The place at which a field is put into fields in ascending order: behind
/// the last field whose order is not greater.
pub open spec fn place_by_order(sorted: Seq<SchemaFieldView>, field: SchemaFieldView) -> int
    decreases sorted.len(),
{
    if sorted.len() == 0 || sorted.last().order <= field.order {
        sorted.len() as int
    } else {
        place_by_order(sorted.drop_last(), field)
    }
}

/// Putting a field in by order puts it at its place, behind the fields
/// whose order is not greater and before those whose order is.
pub proof fn lemma_place_by_order(sorted: Seq<SchemaFieldView>, field: SchemaFieldView)
    ensures
        0 <= place_by_order(sorted, field) <= sorted.len(),
        insert_by_order(sorted, field) == sorted.insert(place_by_order(sorted, field), field),
        forall|j: int|
            place_by_order(sorted, field) <= j < sorted.len() ==> (#[trigger] sorted[j]).order
                > field.order,
        place_by_order(sorted, field) > 0 ==> sorted[place_by_order(sorted, field) - 1].order
            <= field.order,
    decreases sorted.len(),
{
    if sorted.len() == 0 || sorted.last().order <= field.order {
    } else {
        let front = sorted.drop_last();
        lemma_place_by_order(front, field);
        assert forall|j: int| place_by_order(sorted, field) <= j < sorted.len() implies (
        #[trigger] sorted[j]).order > field.order by {
            if j < front.len() {
                assert(front[j] == sorted[j]);
            }
        }
        if place_by_order(sorted, field) > 0 {
            assert(front[place_by_order(sorted, field) - 1] == sorted[place_by_order(sorted, field)
                - 1]);
        }
    }
    lemma_insert_by_order(sorted, field, place_by_order(sorted, field));
}

/// Sorting the fields of a form puts them in ascending order and neither
/// adds nor loses a field.
pub proof fn lemma_sorted_by_order(fields: Seq<SchemaFieldView>)
    ensures
        in_ascending_order(sorted_by_order(fields)),
        sorted_by_order(fields).to_multiset() == fields.to_multiset(),
        sorted_by_order(fields).len() == fields.len(),
    decreases fields.len(),
{
    broadcast use vstd::seq_lib::to_multiset_build, vstd::seq_lib::to_multiset_insert;

    if fields.len() == 0 {
        assert(fields =~= Seq::<SchemaFieldView>::empty());
    } else {
        let front = fields.drop_last();
        let last = fields.last();
        lemma_sorted_by_order(front);
        let sorted = sorted_by_order(front);
        lemma_place_by_order(sorted, last);
        let at = place_by_order(sorted, last);
        let all = sorted.insert(at, last);
        assert forall|i: int, j: int| 0 <= i < j < all.len() implies (#[trigger] all[i]).order <= (
        #[trigger] all[j]).order by {
            if j < at {
                assert(all[i] == sorted[i] && all[j] == sorted[j]);
            } else if j == at {
                assert(all[i] == sorted[i]);
                assert(sorted[i].order <= sorted[at - 1].order);
            } else if i < at {
                assert(all[i] == sorted[i] && all[j] == sorted[j - 1]);
            } else if i == at {
                assert(all[j] == sorted[j - 1]);
            } else {
                assert(all[i] == sorted[i - 1] && all[j] == sorted[j - 1]);
            }
        }
        assert(front.push(last) =~= fields);
    }
}

/// Fields that stand in ascending order stay as they are when sorted: in
/// particular, fields of equal order keep their places.
pub proof fn lemma_sorted_stays(fields: Seq<SchemaFieldView>)
    requires
        in_ascending_order(fields),
    ensures
        sorted_by_order(fields) == fields,
    decreases fields.len(),
{
    if fields.len() > 0 {
        let front = fields.drop_last();
        assert(in_ascending_order(front)) by {
            assert forall|i: int, j: int| 0 <= i < j < front.len() implies (
            #[trigger] front[i]).order <= (#[trigger] front[j]).order by {
                assert(front[i] == fields[i] && front[j] == fields[j]);
            }
        }
        lemma_sorted_stays(front);
        if front.len() > 0 {
            assert(front.last() == fields[front.len() - 1]);
            assert(fields[front.len() - 1].order <= fields[fields.len() - 1].order);
        }
        assert(front.push(fields.last()) =~= fields);
    } else {
        assert(fields =~= Seq::<SchemaFieldView>::empty());
    }
}

} // verus!

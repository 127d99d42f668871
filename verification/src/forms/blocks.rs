//! Conditional blocks: which fields of a list count, given the markers in it.

use vstd::prelude::*;
use crate::fields::FieldDefineView;
use crate::forms::schema::SchemaFieldView;

verus! {

/// Where a walk through a list of fields stands: the key of the block that
/// is being skipped, if one is, and the fields kept so far.
pub struct BlockScan {
    pub suppressed: Option<Seq<char>>,
    pub kept: Seq<SchemaFieldView>,
}

/// One step of the walk. While a block is skipped, only the closing marker
/// with the block's key ends the skipping. Otherwise an opening marker whose
/// condition fails starts skipping its block, markers are dropped, and any
/// other field is kept.
pub open spec fn block_step(state: BlockScan, field: SchemaFieldView) -> BlockScan {
    match state.suppressed {
        Some(skipped) => match field.define {
            FieldDefineView::IfEnd { key } => if key == skipped {
                BlockScan { suppressed: None, kept: state.kept }
            } else {
                state
            },
            _ => state,
        },
        None => match field.define {
            FieldDefineView::IfEqual { key, .. } => if field.define.condition_holds() {
                state
            } else {
                BlockScan { suppressed: Some(key), kept: state.kept }
            },
            FieldDefineView::IfEnd { .. } => state,
            _ => BlockScan { suppressed: None, kept: state.kept.push(field) },
        },
    }
}

/// The walk through `fields` in order, begun at `start`.
pub open spec fn block_scan_from(start: BlockScan, fields: Seq<SchemaFieldView>) -> BlockScan
    decreases fields.len(),
{
    if fields.len() == 0 {
        start
    } else {
        block_step(block_scan_from(start, fields.drop_last()), fields.last())
    }
}

/// The walk through `fields` from the beginning.
pub open spec fn block_scan(fields: Seq<SchemaFieldView>) -> BlockScan {
    block_scan_from(BlockScan { suppressed: None, kept: Seq::empty() }, fields)
}

/// The fields that count: those outside every skipped block, without the markers.
pub open spec fn visible_fields(fields: Seq<SchemaFieldView>) -> Seq<SchemaFieldView> {
    block_scan(fields).kept
}

/// Whether every block that was skipped in `fields` has been closed.
pub open spec fn blocks_closed(fields: Seq<SchemaFieldView>) -> bool {
    block_scan(fields).suppressed is None
}

/// Walking through two lists in a row is walking through the first and then,
/// from where that ended, through the second.
pub proof fn lemma_scan_concat(
    start: BlockScan,
    first: Seq<SchemaFieldView>,
    second: Seq<SchemaFieldView>,
)
    ensures
        block_scan_from(start, first + second) == block_scan_from(
            block_scan_from(start, first),
            second,
        ),
    decreases second.len(),
{
    if second.len() == 0 {
        assert(first + second =~= first);
    } else {
        lemma_scan_concat(start, first, second.drop_last());
        assert((first + second).drop_last() =~= first + second.drop_last());
        assert((first + second).last() == second.last());
    }
}

/// A walk that starts outside any skipped block keeps what it had and adds
/// what the same walk from the beginning keeps.
pub proof fn lemma_scan_keeps_prefix(kept: Seq<SchemaFieldView>, fields: Seq<SchemaFieldView>)
    ensures
        block_scan_from(BlockScan { suppressed: None, kept }, fields).suppressed == block_scan(
            fields,
        ).suppressed,
        block_scan_from(BlockScan { suppressed: None, kept }, fields).kept == kept + block_scan(
            fields,
        ).kept,
    decreases fields.len(),
{
    let empty = Seq::<SchemaFieldView>::empty();
    if fields.len() == 0 {
        assert(kept + empty =~= kept);
    } else {
        lemma_scan_keeps_prefix(kept, fields.drop_last());
        let a = block_scan_from(BlockScan { suppressed: None, kept }, fields.drop_last());
        let b = block_scan(fields.drop_last());
        assert(a.kept == kept + b.kept);
        assert((kept + b.kept).push(fields.last()) =~= kept + b.kept.push(fields.last()));
    }
}

/// While a block is skipped, fields that do not close it change nothing.
pub proof fn lemma_scan_skips(state: BlockScan, fields: Seq<SchemaFieldView>)
    requires
        state.suppressed matches Some(skipped) && forall|i: int|
            0 <= i < fields.len() ==> !(#[trigger] fields[i].define matches FieldDefineView::IfEnd {
                key,
            } && key == skipped),
    ensures
        block_scan_from(state, fields) == state,
    decreases fields.len(),
{
    if fields.len() > 0 {
        let front = fields.drop_last();
        assert forall|i: int| 0 <= i < front.len() implies !(
        #[trigger] front[i].define matches FieldDefineView::IfEnd { key } && key
            == state.suppressed->0) by {
            assert(front[i] == fields[i]);
        }
        lemma_scan_skips(state, front);
        assert(fields.last() == fields[fields.len() - 1]);
    }
}

/// A list without markers is kept whole.
pub proof fn lemma_scan_plain(fields: Seq<SchemaFieldView>)
    requires
        forall|i: int| 0 <= i < fields.len() ==> !(#[trigger] fields[i]).define.is_marker(),
    ensures
        block_scan(fields).suppressed is None,
        visible_fields(fields) == fields,
    decreases fields.len(),
{
    if fields.len() > 0 {
        let front = fields.drop_last();
        assert forall|i: int| 0 <= i < front.len() implies !(
        #[trigger] front[i]).define.is_marker() by {
            assert(front[i] == fields[i]);
        }
        lemma_scan_plain(front);
        assert(fields.last() == fields[fields.len() - 1]);
        assert(front.push(fields.last()) =~= fields);
    }
}

/// No marker is among the fields that a walk keeps, if none was there at its start.
pub proof fn lemma_scan_drops_markers(start: BlockScan, fields: Seq<SchemaFieldView>)
    requires
        forall|i: int| 0 <= i < start.kept.len() ==> !(#[trigger] start.kept[i]).define.is_marker(),
    ensures
        forall|i: int|
            0 <= i < block_scan_from(start, fields).kept.len() ==> !(#[trigger] block_scan_from(
                start,
                fields,
            ).kept[i]).define.is_marker(),
    decreases fields.len(),
{
    if fields.len() > 0 {
        lemma_scan_drops_markers(start, fields.drop_last());
    }
}

} // verus!

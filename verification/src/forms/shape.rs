//! The shape that the fields of a form are meant to have: data fields with
//! keys of their own, and conditional blocks that are closed.

use vstd::prelude::*;
use crate::fields::{FieldDefineView, FormFieldDefine};
use crate::forms::blocks::{block_scan, blocks_closed, visible_fields};
use crate::forms::schema::{FormSchema, SchemaFieldView};
use crate::views::view_each;

verus! {

/// Whether no two of the fields have the same key.
pub open spec fn keys_unique(fields: Seq<SchemaFieldView>) -> bool {
    forall|i: int, j: int|
        0 <= i < j < fields.len() ==> (#[trigger] fields[i]).key != (#[trigger] fields[j]).key
}

/// Whether no two data fields have the same key.
pub open spec fn data_keys_unique(fields: Seq<SchemaFieldView>) -> bool {
    forall|i: int, j: int|
        0 <= i < j < fields.len() && !(#[trigger] fields[i]).define.is_marker() && !(
        #[trigger] fields[j]).define.is_marker() ==> fields[i].key != fields[j].key
}

/// Whether every data field has a key.
pub open spec fn data_keys_present(fields: Seq<SchemaFieldView>) -> bool {
    forall|i: int|
        0 <= i < fields.len() && !(#[trigger] fields[i]).define.is_marker() ==> fields[i].key.len()
            > 0
}

/// Whether the field at `j` closes the block with the key `key`.
pub open spec fn closes(fields: Seq<SchemaFieldView>, j: int, key: Seq<char>) -> bool {
    0 <= j < fields.len() && fields[j].define is IfEnd && fields[j].define->IfEnd_key == key
}

/// Whether a closing marker with the key `key` stands behind the place `i`.
pub open spec fn closed_after(fields: Seq<SchemaFieldView>, i: int, key: Seq<char>) -> bool {
    exists|j: int| i < j && closes(fields, j, key)
}

/// Whether every opening marker is followed by a closing marker with its key.
pub open spec fn blocks_matched(fields: Seq<SchemaFieldView>) -> bool {
    forall|i: int|
        0 <= i < fields.len() && (#[trigger] fields[i]).define is IfEqual ==> closed_after(
            fields,
            i,
            fields[i].define->IfEqual_key,
        )
}

/// Whether the fields have the shape that a form is meant to have.
pub open spec fn well_formed_fields(fields: Seq<SchemaFieldView>) -> bool {
    data_keys_unique(fields) && data_keys_present(fields) && blocks_matched(fields)
}

/// The places in `fields` of the fields that count, in ascending order.
pub open spec fn visible_places(fields: Seq<SchemaFieldView>) -> Seq<int>
    decreases fields.len(),
{
    if fields.len() == 0 {
        Seq::empty()
    } else {
        let before = visible_places(fields.drop_last());
        if visible_fields(fields).len() > visible_fields(fields.drop_last()).len() {
            before.push(fields.len() - 1)
        } else {
            before
        }
    }
}

/// The fields that count are data fields of the list, taken from places
/// that ascend.
pub proof fn lemma_visible_places(fields: Seq<SchemaFieldView>)
    ensures
        visible_places(fields).len() == visible_fields(fields).len(),
        forall|k: int|
            0 <= k < visible_places(fields).len() ==> 0 <= (#[trigger] visible_places(fields)[k])
                < fields.len() && visible_fields(fields)[k] == fields[visible_places(fields)[k]]
                && !fields[visible_places(fields)[k]].define.is_marker(),
        forall|a: int, b: int|
            0 <= a < b < visible_places(fields).len() ==> (#[trigger] visible_places(fields)[a]) < (
            #[trigger] visible_places(fields)[b]),
    decreases fields.len(),
{
    if fields.len() > 0 {
        let front = fields.drop_last();
        lemma_visible_places(front);
        let places = visible_places(fields);
        let before = visible_places(front);
        assert forall|k: int| 0 <= k < places.len() implies 0 <= (#[trigger] places[k])
            < fields.len() && visible_fields(fields)[k] == fields[places[k]]
            && !fields[places[k]].define.is_marker() by {
            if k < before.len() {
                assert(places[k] == before[k]);
                assert(front[before[k]] == fields[before[k]]);
            }
        }
        assert forall|a: int, b: int| 0 <= a < b < places.len() implies (#[trigger] places[a]) < (
        #[trigger] places[b]) by {
            if b < before.len() {
                assert(places[a] == before[a] && places[b] == before[b]);
            } else {
                assert(places[a] == before[a]);
            }
        }
    }
}

/// Of fields whose data fields have keys of their own, those that count
/// have keys of their own.
pub proof fn lemma_visible_keys_unique(fields: Seq<SchemaFieldView>)
    requires
        data_keys_unique(fields),
    ensures
        keys_unique(visible_fields(fields)),
{
    lemma_visible_places(fields);
    let visible = visible_fields(fields);
    let places = visible_places(fields);
    assert forall|i: int, j: int| 0 <= i < j < visible.len() implies (#[trigger] visible[i]).key != (
    #[trigger] visible[j]).key by {
        assert(places[i] < places[j]);
        assert(visible[i] == fields[places[i]] && visible[j] == fields[places[j]]);
    }
}

/// While a block is skipped at the end of a walk, its opening marker has
/// no closing marker with its key behind it.
pub proof fn lemma_open_block(fields: Seq<SchemaFieldView>)
    ensures
        block_scan(fields).suppressed matches Some(key) ==> exists|i: int|
            0 <= i < fields.len() && (#[trigger] fields[i]).define is IfEqual
                && fields[i].define->IfEqual_key == key && !closed_after(fields, i, key),
    decreases fields.len(),
{
    if fields.len() > 0 {
        let front = fields.drop_last();
        let last = fields.last();
        lemma_open_block(front);
        if let Some(key) = block_scan(fields).suppressed {
            if block_scan(front).suppressed is Some {
                let i = choose|i: int|
                    0 <= i < front.len() && (#[trigger] front[i]).define is IfEqual
                        && front[i].define->IfEqual_key == key && !closed_after(front, i, key);
                assert(fields[i] == front[i]);
                assert(!closed_after(fields, i, key)) by {
                    if closed_after(fields, i, key) {
                        let j = choose|j: int| i < j && closes(fields, j, key);
                        if j < front.len() {
                            assert(front[j] == fields[j]);
                            assert(closes(front, j, key));
                        }
                    }
                }
            } else {
                let i = fields.len() - 1;
                assert(fields[i] == last);
                assert(!closed_after(fields, i, key));
            }
        }
    }
}

/// Where every opening marker has its closing marker, no block is left
/// open at the end.
pub proof fn lemma_matched_blocks_close(fields: Seq<SchemaFieldView>)
    requires
        blocks_matched(fields),
    ensures
        blocks_closed(fields),
{
    lemma_open_block(fields);
}

impl FormSchema {
    /// Whether the fields of this form have the shape that a form is meant
    /// to have: every data field has a key, and one of its own; and every
    /// opening marker is followed by a closing marker with its key.
    pub fn is_well_formed(&self) -> (well_formed: bool)
        ensures
            well_formed == well_formed_fields(self@.fields),
    {
        let fields = &self.fields;
        let ghost views = view_each(fields@);
        let mut i: usize = 0;
        while i < fields.len()
            invariant
                i <= fields.len(),
                views == view_each(fields@),
                views == self@.fields,
                forall|a: int, b: int|
                    0 <= a < b < fields.len() && a < i && !(#[trigger] views[a]).define.is_marker()
                        && !(#[trigger] views[b]).define.is_marker() ==> views[a].key
                        != views[b].key,
                forall|a: int|
                    0 <= a < i && !(#[trigger] views[a]).define.is_marker() ==> views[a].key.len()
                        > 0,
                forall|a: int|
                    0 <= a < i && (#[trigger] views[a]).define is IfEqual ==> closed_after(
                        views,
                        a,
                        views[a].define->IfEqual_key,
                    ),
            decreases fields.len() - i,
        {
            let field = &fields[i];
            proof {
                assert(views[i as int] == field@);
            }
            match &field.define {
                FormFieldDefine::IfEqual { key, .. } => {
                    let mut found = false;
                    let mut j: usize = i + 1;
                    while j < fields.len() && !found
                        invariant
                            i < j <= fields.len(),
                            views == view_each(fields@),
                            views == self@.fields,
                            found ==> closed_after(views, i as int, key@),
                            !found ==> forall|k: int| i < k < j ==> !closes(views, k, key@),
                        decreases fields.len() - j + if found {
                            0int
                        } else {
                            1int
                        },
                    {
                        proof {
                            assert(views[j as int] == fields[j as int]@);
                        }
                        let closing = match &fields[j].define {
                            FormFieldDefine::IfEnd { key: end_key } => *end_key == *key,
                            _ => false,
                        };
                        if closing {
                            proof {
                                assert(closes(views, j as int, key@));
                            }
                            found = true;
                        } else {
                            j += 1;
                        }
                    }
                    if !found {
                        proof {
                            assert(!closed_after(views, i as int, key@));
                            assert(views[i as int].define is IfEqual);
                            assert(!blocks_matched(views));
                        }
                        return false;
                    }
                },
                FormFieldDefine::IfEnd { .. } => {},
                _ => {
                    if field.key.as_str().is_empty() {
                        proof {
                            assert(!views[i as int].define.is_marker());
                            assert(!data_keys_present(views));
                        }
                        return false;
                    }
                    let mut j: usize = i + 1;
                    while j < fields.len()
                        invariant
                            i < j <= fields.len(),
                            views == view_each(fields@),
                            views == self@.fields,
                            !views[i as int].define.is_marker(),
                            views[i as int].key == field.key@,
                            forall|k: int|
                                i < k < j && !(#[trigger] views[k]).define.is_marker()
                                    ==> views[k].key != field.key@,
                        decreases fields.len() - j,
                    {
                        proof {
                            assert(views[j as int] == fields[j as int]@);
                        }
                        let data = match &fields[j].define {
                            FormFieldDefine::IfEqual { .. } => false,
                            FormFieldDefine::IfEnd { .. } => false,
                            _ => true,
                        };
                        if data && fields[j].key == field.key {
                            proof {
                                assert(!views[j as int].define.is_marker());
                                assert(views[i as int].key == views[j as int].key);
                                assert(!data_keys_unique(views));
                            }
                            return false;
                        }
                        j += 1;
                    }
                },
            }
            i += 1;
        }
        true
    }
}

} // verus!

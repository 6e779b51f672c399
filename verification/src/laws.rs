//! Laws of the reconciliation: a run links every row that it writes, a first
//! run adds exactly the row of a new vendor, and a second run over the same
//! items changes nothing.
//!
//! The proofs follow one name at a time: what the row of a name holds after
//! a run depends only on what it held before and on the items of that name.

use crate::finance::{linked, reconciled, reconciled_all, Item};
use crate::store::{
    find, has_name, index_of, lemma_index_of_unique, lemma_pushed_unique, lemma_replaced_unique,
    unique_names,
};
use crate::vendor::{VendorFields, VendorRow};
use vstd::prelude::*;

verus! {

/// Some item has this name.
pub open spec fn mentions(items: Seq<Item>, name: Seq<char>) -> bool
    decreases items.len(),
{
    items.len() > 0 && (items.last().entity.name == name || mentions(items.drop_last(), name))
}

/// The entity of the last item of this name, if `mentions`.
pub open spec fn last_entity(items: Seq<Item>, name: Seq<char>) -> VendorFields
    decreases items.len(),
{
    if items.len() == 0 {
        VendorFields::blank()
    } else if items.last().entity.name == name {
        items.last().entity
    } else {
        last_entity(items.drop_last(), name)
    }
}

/// The link of the row of this name after the items, where it was `link`
/// before them (empty where there was no row): the first that is not empty
/// among `link` and the ids of the items of this name, in order.
pub open spec fn settled_link(link: Seq<char>, items: Seq<Item>, name: Seq<char>) -> Seq<char>
    decreases items.len(),
{
    if items.len() == 0 {
        link
    } else if items.last().entity.name == name {
        linked(settled_link(link, items.drop_last(), name), items.last().id)
    } else {
        settled_link(link, items.drop_last(), name)
    }
}

/// The link of a row that may not be there.
pub open spec fn link_of(row: Option<VendorRow>) -> Seq<char> {
    match row {
        Some(r) => r.airtable_record_id,
        None => Seq::empty(),
    }
}

/// The row of a name after the items, given the row before them.
pub open spec fn settled_row(row: Option<VendorRow>, items: Seq<Item>, name: Seq<char>) -> Option<
    VendorRow,
> {
    if mentions(items, name) {
        Some(
            VendorRow {
                entity: last_entity(items, name),
                airtable_record_id: settled_link(link_of(row), items, name),
            },
        )
    } else {
        row
    }
}

/// One reconciled item keeps the names unique and the rows in their places,
/// adds a row only for a new name, and changes the row of its own name only.
pub proof fn lemma_reconciled(rows: Seq<VendorRow>, item: Item, name: Seq<char>)
    requires
        unique_names(rows),
    ensures
        unique_names(reconciled(rows, item)),
        reconciled(rows, item).len() >= rows.len(),
        has_name(rows, item.entity.name) ==> reconciled(rows, item).len() == rows.len(),
        forall|i: int|
            0 <= i < rows.len() ==> (#[trigger] reconciled(rows, item)[i]).entity.name
                == rows[i].entity.name,
        find(reconciled(rows, item), name) == if name == item.entity.name {
            Some(
                VendorRow {
                    entity: item.entity,
                    airtable_record_id: linked(link_of(find(rows, name)), item.id),
                },
            )
        } else {
            find(rows, name)
        },
{
    let after = reconciled(rows, item);
    let key = item.entity.name;
    if has_name(rows, key) {
        let k = index_of(rows, key);
        lemma_replaced_unique(rows, k, after[k]);
        if name == key {
            lemma_index_of_unique(after, k);
        } else if has_name(rows, name) {
            let m = index_of(rows, name);
            assert(after[m] == rows[m]);
            lemma_index_of_unique(after, m);
        } else {
            if has_name(after, name) {
                let j = index_of(after, name);
                assert(after[j].entity.name == rows[j].entity.name);
                assert(rows[j].entity.name == name);
            }
        }
    } else {
        lemma_pushed_unique(rows, VendorRow { entity: item.entity, airtable_record_id: item.id });
        if name == key {
            lemma_index_of_unique(after, rows.len() as int);
        } else if has_name(rows, name) {
            let m = index_of(rows, name);
            assert(after[m] == rows[m]);
            lemma_index_of_unique(after, m);
        } else {
            if has_name(after, name) {
                let j = index_of(after, name);
                if j < rows.len() {
                    assert(rows[j].entity.name == name);
                }
            }
        }
    }
}

/// A run keeps the names unique and the rows that were there in their places.
pub proof fn lemma_reconciled_all_keeps_places(rows: Seq<VendorRow>, items: Seq<Item>)
    requires
        unique_names(rows),
    ensures
        unique_names(reconciled_all(rows, items)),
        reconciled_all(rows, items).len() >= rows.len(),
        forall|i: int|
            0 <= i < rows.len() ==> (#[trigger] reconciled_all(rows, items)[i]).entity.name
                == rows[i].entity.name,
    decreases items.len(),
{
    if items.len() > 0 {
        let front = reconciled_all(rows, items.drop_last());
        lemma_reconciled_all_keeps_places(rows, items.drop_last());
        lemma_reconciled(front, items.last(), items.last().entity.name);
        assert forall|i: int| 0 <= i < rows.len() implies (#[trigger] reconciled_all(
            rows,
            items,
        )[i]).entity.name == rows[i].entity.name by {
            assert(reconciled(front, items.last())[i].entity.name == front[i].entity.name);
        }
    }
}

/// Items that do not mention a name leave its link as it was.
pub proof fn lemma_unmentioned_link(link: Seq<char>, items: Seq<Item>, name: Seq<char>)
    requires
        !mentions(items, name),
    ensures
        settled_link(link, items, name) == link,
    decreases items.len(),
{
    if items.len() > 0 {
        lemma_unmentioned_link(link, items.drop_last(), name);
    }
}

/// After a run, the row of each name is the settled row.
pub proof fn lemma_reconciled_all_find(rows: Seq<VendorRow>, items: Seq<Item>, name: Seq<char>)
    requires
        unique_names(rows),
    ensures
        find(reconciled_all(rows, items), name) == settled_row(find(rows, name), items, name),
    decreases items.len(),
{
    if items.len() > 0 {
        let front_items = items.drop_last();
        let front = reconciled_all(rows, front_items);
        lemma_reconciled_all_keeps_places(rows, front_items);
        lemma_reconciled_all_find(rows, front_items, name);
        lemma_reconciled(front, items.last(), name);
        if !mentions(front_items, name) {
            lemma_unmentioned_link(link_of(find(rows, name)), front_items, name);
        }
    }
}

/// A run over names that all have their row adds no row.
pub proof fn lemma_reconciled_all_same_len(rows: Seq<VendorRow>, items: Seq<Item>)
    requires
        unique_names(rows),
        forall|j: int| 0 <= j < items.len() ==> has_name(rows, (#[trigger] items[j]).entity.name),
    ensures
        reconciled_all(rows, items).len() == rows.len(),
    decreases items.len(),
{
    if items.len() > 0 {
        let front_items = items.drop_last();
        let front = reconciled_all(rows, front_items);
        assert forall|j: int| 0 <= j < front_items.len() implies has_name(
            rows,
            (#[trigger] front_items[j]).entity.name,
        ) by {
            assert(front_items[j] == items[j]);
        }
        lemma_reconciled_all_same_len(rows, front_items);
        lemma_reconciled_all_keeps_places(rows, front_items);
        let key = items.last().entity.name;
        assert(has_name(rows, items[items.len() - 1].entity.name));
        let k = index_of(rows, key);
        assert(front[k].entity.name == key);
        assert(has_name(front, key));
        lemma_reconciled(front, items.last(), key);
    }
}

/// Each item's name is mentioned by the items.
pub proof fn lemma_mentions_each(items: Seq<Item>, j: int)
    requires
        0 <= j < items.len(),
    ensures
        mentions(items, items[j].entity.name),
    decreases items.len(),
{
    if j < items.len() - 1 {
        lemma_mentions_each(items.drop_last(), j);
    }
}

/// A link that is there is kept.
pub proof fn lemma_link_kept(link: Seq<char>, items: Seq<Item>, name: Seq<char>)
    requires
        link.len() > 0,
    ensures
        settled_link(link, items, name) == link,
    decreases items.len(),
{
    if items.len() > 0 {
        lemma_link_kept(link, items.drop_last(), name);
    }
}

/// The items settle a link that they have settled before to itself.
pub proof fn lemma_settled_link_idempotent(link: Seq<char>, items: Seq<Item>, name: Seq<char>)
    ensures
        settled_link(settled_link(link, items, name), items, name) == settled_link(
            link,
            items,
            name,
        ),
{
    let once = settled_link(link, items, name);
    if once.len() > 0 {
        lemma_link_kept(once, items, name);
    } else {
        if link.len() > 0 {
            lemma_link_kept(link, items, name);
        }
        assert(link =~= once);
    }
}

/// Reconciling is idempotent: a second run over the same items leaves the
/// store exactly as the first run left it, with no row added and no link
/// changed.
pub proof fn lemma_reconciled_all_idempotent(rows: Seq<VendorRow>, items: Seq<Item>)
    requires
        unique_names(rows),
    ensures
        reconciled_all(reconciled_all(rows, items), items) == reconciled_all(rows, items),
{
    let once = reconciled_all(rows, items);
    let twice = reconciled_all(once, items);
    lemma_reconciled_all_keeps_places(rows, items);
    lemma_reconciled_all_keeps_places(once, items);
    assert forall|j: int| 0 <= j < items.len() implies has_name(
        once,
        (#[trigger] items[j]).entity.name,
    ) by {
        lemma_mentions_each(items, j);
        lemma_reconciled_all_find(rows, items, items[j].entity.name);
    }
    lemma_reconciled_all_same_len(once, items);
    assert forall|i: int| 0 <= i < once.len() implies twice[i] == once[i] by {
        let name = once[i].entity.name;
        assert(twice[i].entity.name == name);
        lemma_index_of_unique(once, i);
        lemma_index_of_unique(twice, i);
        lemma_reconciled_all_find(rows, items, name);
        lemma_reconciled_all_find(once, items, name);
        lemma_settled_link_idempotent(link_of(find(rows, name)), items, name);
    }
    assert(twice =~= once);
}

/// Items that all carry an id leave a linked row for each name they mention.
pub proof fn lemma_mentioned_link_set(link: Seq<char>, items: Seq<Item>, name: Seq<char>)
    requires
        mentions(items, name),
        forall|k: int| 0 <= k < items.len() ==> (#[trigger] items[k]).id.len() > 0,
    ensures
        settled_link(link, items, name).len() > 0,
    decreases items.len(),
{
    let front = items.drop_last();
    assert(items.last() == items[items.len() - 1]);
    if items.last().entity.name != name {
        assert forall|k: int| 0 <= k < front.len() implies (#[trigger] front[k]).id.len() > 0 by {
            assert(front[k] == items[k]);
        }
        lemma_mentioned_link_set(link, front, name);
    }
}

/// After a run over records that all carry an id, the row of each record's
/// vendor is there and is linked.
pub proof fn lemma_rows_linked_after_run(rows: Seq<VendorRow>, items: Seq<Item>, j: int)
    requires
        unique_names(rows),
        0 <= j < items.len(),
        forall|k: int| 0 <= k < items.len() ==> (#[trigger] items[k]).id.len() > 0,
    ensures
        find(reconciled_all(rows, items), items[j].entity.name) is Some,
        find(reconciled_all(rows, items), items[j].entity.name).unwrap().airtable_record_id.len()
            > 0,
{
    let name = items[j].entity.name;
    lemma_mentions_each(items, j);
    lemma_reconciled_all_find(rows, items, name);
    lemma_mentioned_link_set(link_of(find(rows, name)), items, name);
}

/// A record of a vendor that the store does not hold yet adds exactly one
/// row: the record's entity, linked to the record's id, after the rows that
/// were there.
pub proof fn lemma_first_sync_adds_linked_row(rows: Seq<VendorRow>, item: Item)
    requires
        unique_names(rows),
        !has_name(rows, item.entity.name),
    ensures
        reconciled(rows, item) == rows.push(
            VendorRow { entity: item.entity, airtable_record_id: item.id },
        ),
        unique_names(reconciled(rows, item)),
        find(reconciled(rows, item), item.entity.name) == Some(
            VendorRow { entity: item.entity, airtable_record_id: item.id },
        ),
{
    lemma_reconciled(rows, item, item.entity.name);
}

} // verus!

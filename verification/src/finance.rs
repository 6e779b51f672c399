//! The reconciliation routine: each record of the remote table is decoded,
//! given its live seat count, written to the local store under its name and
//! linked to the remote record.

use crate::enrichment::{enrichment_source, observed_seats, seats_of, source_for, EnrichmentSource, Observation};
use crate::store::{find, has_name, index_of, lemma_index_of_unique, unique_names, updated, upserted, VendorStore};
use crate::vendor::{NewSoftwareVendor, VendorFields, VendorRecord, VendorRow};
use vstd::prelude::*;

verus! {

/// What one record contributes to the store: the id of the remote record and
/// the entity to write.
pub struct Item {
    pub id: Seq<char>,
    pub entity: VendorFields,
}

/// The link of a row that may so far have had none: a link that is there
/// stays, an empty one becomes the id of the remote record.
pub open spec fn linked(link: Seq<char>, id: Seq<char>) -> Seq<char> {
    if link.len() == 0 {
        id
    } else {
        link
    }
}

/// The rows after one item was reconciled. The row of the item's name takes
/// the item's entity and keeps its place; its link stays if it has one, and
/// is else the item's id. Where there is no such row, one is added at the
/// end, linked to the item's id.
pub open spec fn reconciled(rows: Seq<VendorRow>, item: Item) -> Seq<VendorRow> {
    if has_name(rows, item.entity.name) {
        let i = index_of(rows, item.entity.name);
        rows.update(
            i,
            VendorRow {
                entity: item.entity,
                airtable_record_id: linked(rows[i].airtable_record_id, item.id),
            },
        )
    } else {
        rows.push(VendorRow { entity: item.entity, airtable_record_id: item.id })
    }
}

/// The rows after the items were reconciled one after the other.
pub open spec fn reconciled_all(rows: Seq<VendorRow>, items: Seq<Item>) -> Seq<VendorRow>
    decreases items.len(),
{
    if items.len() == 0 {
        rows
    } else {
        reconciled(reconciled_all(rows, items.drop_last()), items.last())
    }
}

/// A vendor of this name needs a live seat count, and none was reported.
pub open spec fn lacks_reading(entity: VendorFields, reading: Option<Observation>) -> bool {
    source_for(entity.name) is Some && reading is None
}

/// The entity with its seat count settled: where a source answers for the
/// vendor's name and reported, the count is what it reported; in every other
/// case the entity is unchanged and the reading is not looked at.
pub open spec fn seated(entity: VendorFields, reading: Option<Observation>) -> VendorFields {
    match (source_for(entity.name), reading) {
        (Some(_), Some(observation)) => entity.with_users(seats_of(observation)),
        _ => entity,
    }
}

/// The item that a record contributes, given the reading for it.
pub open spec fn item_of(record: VendorRecord, reading: Option<Observation>) -> Item {
    Item { id: record.id@, entity: seated(record.fields.decoded(), reading) }
}

/// The error of a reconciliation that stopped: a record needed a live seat
/// count and none was reported for it.
#[derive(Clone, Copy, Debug, PartialEq, Eq, Structural)]
pub struct EnrichmentFailed {
    /// The place of the record in the listing.
    pub index: usize,
    /// The source that should have reported.
    pub source: EnrichmentSource,
}

/// Settles the seat count of a decoded entity; fails with the source that
/// answers for the vendor where that source did not report.
pub fn enrich(entity: NewSoftwareVendor, reading: &Option<Observation>) -> (r: Result<
    NewSoftwareVendor,
    EnrichmentSource,
>)
    ensures
        match r {
            Ok(e) => !lacks_reading(entity@, *reading) && e@ == seated(entity@, *reading),
            Err(source) => lacks_reading(entity@, *reading) && source_for(entity@.name) == Some(
                source,
            ),
        },
{
    match enrichment_source(&entity.name) {
        None => Ok(entity),
        Some(source) => match reading {
            Some(observation) => {
                let mut e = entity;
                e.users = observed_seats(observation);
                Ok(e)
            },
            None => Err(source),
        },
    }
}

/// Reconciles one record of the remote table with the store.
///
/// The record is decoded and its seat count settled from the reading; the
/// entity is upserted under its name; a row that has no link yet is linked
/// to the record's id; the row is written back. Where the vendor needs a
/// live seat count and `reading` holds none, the store is left as it is and
/// the source that did not report is returned.
pub fn reconcile_record(
    store: &mut VendorStore,
    record: &VendorRecord,
    reading: &Option<Observation>,
) -> (r: Result<(), EnrichmentSource>)
    requires
        old(store).wf(),
    ensures
        final(store).wf(),
        match r {
            Ok(_) => !lacks_reading(record.fields.decoded(), *reading) && final(store)@
                == reconciled(old(store)@, item_of(*record, *reading)),
            Err(source) => lacks_reading(record.fields.decoded(), *reading) && source_for(
                record.fields.decoded().name,
            ) == Some(source) && final(store)@ == old(store)@,
        },
{
    let entity = match enrich(record.fields.decode(), reading) {
        Ok(e) => e,
        Err(source) => {
            return Err(source);
        },
    };
    let ghost before = store@;
    let ghost item = item_of(*record, *reading);
    let mut row = store.upsert(entity);
    let ghost between = store@;
    if row.airtable_record_id.as_str().is_empty() {
        row.airtable_record_id = record.id.clone();
    }
    proof {
        let name = item.entity.name;
        if has_name(before, name) {
            let i = index_of(before, name);
            lemma_index_of_unique(between, i);
            assert(updated(between, row@) =~= reconciled(before, item));
        } else {
            lemma_index_of_unique(between, before.len() as int);
            assert(updated(between, row@) =~= reconciled(before, item));
        }
    }
    store.update(row);
    Ok(())
}

/// The reading for the record at a place: what the listing of readings holds
/// there, and none beyond its end.
pub open spec fn reading_at(readings: Seq<Option<Observation>>, i: int) -> Option<Observation> {
    if 0 <= i < readings.len() {
        readings[i]
    } else {
        None
    }
}

/// The record at this place needs a live seat count and has no reading.
pub open spec fn fails_at(
    records: Seq<VendorRecord>,
    readings: Seq<Option<Observation>>,
    i: int,
) -> bool {
    lacks_reading(records[i].fields.decoded(), reading_at(readings, i))
}

/// The items that the records contribute, each with the reading at its place.
pub open spec fn items_of(records: Seq<VendorRecord>, readings: Seq<Option<Observation>>) -> Seq<
    Item,
> {
    Seq::new(records.len(), |i: int| item_of(records[i], reading_at(readings, i)))
}

/// Reconciles a listing of the remote table with the store, record by record
/// and in order. `readings[i]` is what the source for record `i` reported;
/// `None`, or a listing that ends before `i`, says that nothing was reported.
///
/// The run stops at the first record that needs a live seat count and has no
/// reading: the records before it have been reconciled, that record and those
/// after it have not been touched, and the error names the record and the
/// source.
pub fn refresh_software_vendors(
    store: &mut VendorStore,
    records: &Vec<VendorRecord>,
    readings: &Vec<Option<Observation>>,
) -> (r: Result<(), EnrichmentFailed>)
    requires
        old(store).wf(),
    ensures
        final(store).wf(),
        match r {
            Ok(_) => {
                &&& forall|i: int| 0 <= i < records.len() ==> !fails_at(records@, readings@, i)
                &&& final(store)@ == reconciled_all(old(store)@, items_of(records@, readings@))
            },
            Err(e) => {
                &&& e.index < records.len()
                &&& fails_at(records@, readings@, e.index as int)
                &&& forall|i: int| 0 <= i < e.index ==> !fails_at(records@, readings@, i)
                &&& source_for(records[e.index as int].fields.decoded().name) == Some(e.source)
                &&& final(store)@ == reconciled_all(
                    old(store)@,
                    items_of(records@, readings@).take(e.index as int),
                )
            },
        },
{
    let ghost items = items_of(records@, readings@);
    let none: Option<Observation> = None;
    let mut i: usize = 0;
    proof {
        assert(items.take(0) =~= Seq::<Item>::empty());
    }
    while i < records.len()
        invariant
            i <= records.len(),
            store.wf(),
            none is None,
            items == items_of(records@, readings@),
            forall|j: int| 0 <= j < i ==> !fails_at(records@, readings@, j),
            store@ == reconciled_all(old(store)@, items.take(i as int)),
        decreases records.len() - i,
    {
        let reading = if i < readings.len() {
            &readings[i]
        } else {
            &none
        };
        match reconcile_record(store, &records[i], reading) {
            Ok(_) => {},
            Err(source) => {
                return Err(EnrichmentFailed { index: i, source });
            },
        }
        proof {
            assert(items.take(i + 1).drop_last() =~= items.take(i as int));
            assert(items.take(i + 1).last() == items[i as int]);
        }
        i += 1;
    }
    proof {
        assert(items.take(records.len() as int) =~= items);
    }
    Ok(())
}

/// A vendor named exactly `GitHub` is answered for by the source-control
/// host, and takes the filled seats that it reports, whatever their number.
pub proof fn lemma_github_takes_filled_seats(entity: VendorFields, seats: i32)
    requires
        entity.name == "GitHub"@,
    ensures
        source_for(entity.name) == Some(EnrichmentSource::GitHub),
        !lacks_reading(entity, Some(Observation::FilledSeats(seats))),
        seated(entity, Some(Observation::FilledSeats(seats))) == entity.with_users(seats),
        seated(entity, Some(Observation::FilledSeats(seats))).users == seats,
{
}

/// A vendor that no source answers for keeps the seat count that it was
/// decoded with, and never waits for a reading.
pub proof fn lemma_unmatched_keeps_seats(entity: VendorFields, reading: Option<Observation>)
    requires
        source_for(entity.name) is None,
    ensures
        !lacks_reading(entity, reading),
        seated(entity, reading) == entity,
{
}

} // verus!

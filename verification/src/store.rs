//! The local store of vendor rows, keyed by the vendor's name.

use crate::vendor::{NewSoftwareVendor, SoftwareVendor, VendorFields, VendorRow};
use vstd::prelude::*;

verus! {

/// No two rows have the same name.
pub open spec fn unique_names(rows: Seq<VendorRow>) -> bool {
    forall|i: int, j: int|
        0 <= i < j < rows.len() ==> (#[trigger] rows[i]).entity.name != (#[trigger] rows[j]).entity.name
}

/// Some row has this name.
pub open spec fn has_name(rows: Seq<VendorRow>, name: Seq<char>) -> bool {
    exists|i: int| 0 <= i < rows.len() && (#[trigger] rows[i]).entity.name == name
}

/// Where the row of this name stands, if `has_name`.
pub open spec fn index_of(rows: Seq<VendorRow>, name: Seq<char>) -> int {
    choose|i: int| 0 <= i < rows.len() && (#[trigger] rows[i]).entity.name == name
}

/// The row of this name, if there is one.
pub open spec fn find(rows: Seq<VendorRow>, name: Seq<char>) -> Option<VendorRow> {
    if has_name(rows, name) {
        Some(rows[index_of(rows, name)])
    } else {
        None
    }
}

/// The rows after an entity was upserted: the row of its name takes the
/// entity and keeps its place and its link; where there is no such row, a
/// row without a link is added at the end.
pub open spec fn upserted(rows: Seq<VendorRow>, entity: VendorFields) -> Seq<VendorRow> {
    if has_name(rows, entity.name) {
        let i = index_of(rows, entity.name);
        rows.update(i, VendorRow { entity, airtable_record_id: rows[i].airtable_record_id })
    } else {
        rows.push(VendorRow { entity, airtable_record_id: Seq::empty() })
    }
}

/// The rows after a row was written back: it replaces the row of its name;
/// where there is no such row, nothing changes.
pub open spec fn updated(rows: Seq<VendorRow>, row: VendorRow) -> Seq<VendorRow> {
    if has_name(rows, row.entity.name) {
        rows.update(index_of(rows, row.entity.name), row)
    } else {
        rows
    }
}

/// In rows with unique names, a row's name leads back to its place.
pub proof fn lemma_index_of_unique(rows: Seq<VendorRow>, i: int)
    requires
        unique_names(rows),
        0 <= i < rows.len(),
    ensures
        has_name(rows, rows[i].entity.name),
        index_of(rows, rows[i].entity.name) == i,
        find(rows, rows[i].entity.name) == Some(rows[i]),
{
    let name = rows[i].entity.name;
    assert(has_name(rows, name));
    let k = index_of(rows, name);
    assert(0 <= k < rows.len() && rows[k].entity.name == name);
    if k < i {
        assert(rows[k].entity.name != rows[i].entity.name);
    } else if i < k {
        assert(rows[i].entity.name != rows[k].entity.name);
    }
}

/// A row put in the place of a row of the same name keeps the names unique.
pub proof fn lemma_replaced_unique(rows: Seq<VendorRow>, place: int, row: VendorRow)
    requires
        unique_names(rows),
        0 <= place < rows.len(),
        row.entity.name == rows[place].entity.name,
    ensures
        unique_names(rows.update(place, row)),
{
    let after = rows.update(place, row);
    assert forall|i: int, j: int| 0 <= i < j < after.len() implies (#[trigger] after[i]).entity.name
        != (#[trigger] after[j]).entity.name by {
        assert(rows[i].entity.name != rows[j].entity.name);
        assert(after[i].entity.name == rows[i].entity.name);
        assert(after[j].entity.name == rows[j].entity.name);
    }
}

/// A row of a new name added at the end keeps the names unique.
pub proof fn lemma_pushed_unique(rows: Seq<VendorRow>, row: VendorRow)
    requires
        unique_names(rows),
        !has_name(rows, row.entity.name),
    ensures
        unique_names(rows.push(row)),
{
    let after = rows.push(row);
    assert forall|i: int, j: int| 0 <= i < j < after.len() implies (#[trigger] after[i]).entity.name
        != (#[trigger] after[j]).entity.name by {
        if j < rows.len() {
            assert(rows[i].entity.name != rows[j].entity.name);
        } else {
            assert(rows[i].entity.name != row.entity.name);
        }
    }
}

/// An upsert keeps the names unique.
pub proof fn lemma_upserted_unique(rows: Seq<VendorRow>, entity: VendorFields)
    requires
        unique_names(rows),
    ensures
        unique_names(upserted(rows, entity)),
{
    if has_name(rows, entity.name) {
        let place = index_of(rows, entity.name);
        lemma_replaced_unique(
            rows,
            place,
            VendorRow { entity, airtable_record_id: rows[place].airtable_record_id },
        );
    } else {
        lemma_pushed_unique(rows, VendorRow { entity, airtable_record_id: Seq::empty() });
    }
}

/// Writing a row back keeps the names unique.
pub proof fn lemma_updated_unique(rows: Seq<VendorRow>, row: VendorRow)
    requires
        unique_names(rows),
    ensures
        unique_names(updated(rows, row)),
{
    if has_name(rows, row.entity.name) {
        lemma_replaced_unique(rows, index_of(rows, row.entity.name), row);
    }
}

/// The views of stored rows, in order.
pub open spec fn row_views(rows: Seq<SoftwareVendor>) -> Seq<VendorRow> {
    rows.map_values(|r: SoftwareVendor| r@)
}

/// The local store: vendor rows in the order in which they were first
/// written. A store made by `new` and changed by its methods is well formed:
/// no two of its rows have the same name.
pub struct VendorStore {
    rows: Vec<SoftwareVendor>,
}

impl View for VendorStore {
    type V = Seq<VendorRow>;

    closed spec fn view(&self) -> Seq<VendorRow> {
        row_views(self.rows@)
    }
}

impl VendorStore {
    /// The store's invariant: no two rows have the same name.
    pub open spec fn wf(&self) -> bool {
        unique_names(self@)
    }

    /// A store without rows.
    pub fn new() -> (r: VendorStore)
        ensures
            r@ == Seq::<VendorRow>::empty(),
            r.wf(),
    {
        let rows: Vec<SoftwareVendor> = Vec::new();
        assert(row_views(rows@) =~= Seq::<VendorRow>::empty());
        VendorStore { rows }
    }

    /// The number of rows.
    pub fn len(&self) -> (n: usize)
        ensures
            n == self@.len(),
    {
        self.rows.len()
    }

    /// The row at a place.
    pub fn row(&self, i: usize) -> (r: &SoftwareVendor)
        requires
            i < self@.len(),
        ensures
            r@ == self@[i as int],
    {
        &self.rows[i]
    }

    fn locate(&self, key: &String) -> (r: Option<usize>)
        requires
            self.wf(),
        ensures
            match r {
                Some(i) => i < self@.len() && self@[i as int].entity.name == key@ && has_name(
                    self@,
                    key@,
                ) && index_of(self@, key@) == i,
                None => !has_name(self@, key@),
            },
    {
        let mut i: usize = 0;
        while i < self.rows.len()
            invariant
                self.wf(),
                i <= self.rows.len(),
                forall|j: int| 0 <= j < i ==> (#[trigger] self@[j]).entity.name != key@,
            decreases self.rows.len() - i,
        {
            if self.rows[i].entity.name == *key {
                proof {
                    lemma_index_of_unique(self@, i as int);
                }
                return Some(i);
            }
            i += 1;
        }
        None
    }

    /// The row of this name, if there is one.
    pub fn get_by_key(&self, key: &String) -> (r: Option<&SoftwareVendor>)
        requires
            self.wf(),
        ensures
            match r {
                Some(row) => find(self@, key@) == Some(row@),
                None => find(self@, key@) is None,
            },
    {
        match self.locate(key) {
            Some(i) => Some(&self.rows[i]),
            None => None,
        }
    }

    /// Writes an entity under its name: the row of that name takes the
    /// entity and keeps its place and its link; where there is none, a row
    /// without a link is added at the end. Returns a copy of the row as it
    /// then stands.
    pub fn upsert(&mut self, entity: NewSoftwareVendor) -> (r: SoftwareVendor)
        requires
            old(self).wf(),
        ensures
            final(self)@ == upserted(old(self)@, entity@),
            final(self).wf(),
            find(final(self)@, entity@.name) == Some(r@),
    {
        let ghost before = self@;
        let place = self.locate(&entity.name);
        proof {
            lemma_upserted_unique(before, entity@);
        }
        match place {
            Some(i) => {
                let row = SoftwareVendor {
                    entity,
                    airtable_record_id: self.rows[i].airtable_record_id.clone(),
                };
                let copy = row.duplicate();
                proof {
                    assert(row_views(self.rows@.update(i as int, row)) =~= upserted(before, row@.entity));
                    lemma_index_of_unique(upserted(before, row@.entity), i as int);
                }
                self.rows.set(i, row);
                copy
            },
            None => {
                let row = SoftwareVendor { entity, airtable_record_id: String::new() };
                let copy = row.duplicate();
                proof {
                    assert(row_views(self.rows@.push(row)) =~= upserted(before, row@.entity));
                    lemma_index_of_unique(upserted(before, row@.entity), before.len() as int);
                }
                self.rows.push(row);
                copy
            },
        }
    }

    /// Writes a row back: it replaces the row of its name. Where the store
    /// has no row of that name, nothing changes.
    pub fn update(&mut self, row: SoftwareVendor)
        requires
            old(self).wf(),
        ensures
            final(self)@ == updated(old(self)@, row@),
            final(self).wf(),
    {
        let ghost before = self@;
        let place = self.locate(&row.entity.name);
        proof {
            lemma_updated_unique(before, row@);
        }
        match place {
            Some(i) => {
                proof {
                    assert(row_views(self.rows@.update(i as int, row)) =~= updated(before, row@));
                }
                self.rows.set(i, row);
            },
            None => {},
        }
    }
}

} // verus!

//! The software-vendor entity, its stored row, and the forgiving decoding of
//! a remote record's fields.

use vstd::prelude::*;

verus! {

/// A single-precision amount of money, held by its IEEE-754 bit pattern.
///
/// Nothing here computes with amounts; they are carried from the remote
/// table to the store unchanged. The pattern `0` is the amount zero.
#[derive(Clone, Copy, Debug, PartialEq, Eq, Structural)]
pub struct Amount {
    pub bits: u32,
}

impl Amount {
    /// The amount zero.
    pub fn zero() -> (r: Amount)
        ensures
            r.bits == 0,
    {
        Amount { bits: 0 }
    }
}

/// The views of a list of strings, in order.
pub open spec fn texts(v: Seq<String>) -> Seq<Seq<char>> {
    v.map_values(|s: String| s@)
}

/// What a vendor entity holds, as mathematical values.
pub struct VendorFields {
    pub name: Seq<char>,
    pub status: Seq<char>,
    pub description: Seq<char>,
    pub website: Seq<char>,
    pub has_okta_integration: bool,
    pub used_purely_for_api: bool,
    pub pay_as_you_go: bool,
    pub pay_as_you_go_pricing_description: Seq<char>,
    pub software_licenses: bool,
    pub cost_per_user_per_month: Amount,
    pub users: i32,
    pub flat_cost_per_month: Amount,
    pub total_cost_per_month: Amount,
    pub groups: Seq<Seq<char>>,
}

impl VendorFields {
    /// The entity in which nothing is set: empty texts, `false`, zero.
    pub open spec fn blank() -> VendorFields {
        VendorFields {
            name: Seq::empty(),
            status: Seq::empty(),
            description: Seq::empty(),
            website: Seq::empty(),
            has_okta_integration: false,
            used_purely_for_api: false,
            pay_as_you_go: false,
            pay_as_you_go_pricing_description: Seq::empty(),
            software_licenses: false,
            cost_per_user_per_month: Amount { bits: 0 },
            users: 0,
            flat_cost_per_month: Amount { bits: 0 },
            total_cost_per_month: Amount { bits: 0 },
            groups: Seq::empty(),
        }
    }

    /// The same entity with another seat count.
    pub open spec fn with_users(self, users: i32) -> VendorFields {
        VendorFields { users, ..self }
    }
}

/// A software vendor as it is written to the store. Its natural key is `name`.
#[derive(Debug)]
pub struct NewSoftwareVendor {
    pub name: String,
    pub status: String,
    pub description: String,
    pub website: String,
    pub has_okta_integration: bool,
    pub used_purely_for_api: bool,
    pub pay_as_you_go: bool,
    pub pay_as_you_go_pricing_description: String,
    pub software_licenses: bool,
    pub cost_per_user_per_month: Amount,
    pub users: i32,
    pub flat_cost_per_month: Amount,
    pub total_cost_per_month: Amount,
    pub groups: Vec<String>,
}

impl View for NewSoftwareVendor {
    type V = VendorFields;

    open spec fn view(&self) -> VendorFields {
        VendorFields {
            name: self.name@,
            status: self.status@,
            description: self.description@,
            website: self.website@,
            has_okta_integration: self.has_okta_integration,
            used_purely_for_api: self.used_purely_for_api,
            pay_as_you_go: self.pay_as_you_go,
            pay_as_you_go_pricing_description: self.pay_as_you_go_pricing_description@,
            software_licenses: self.software_licenses,
            cost_per_user_per_month: self.cost_per_user_per_month,
            users: self.users,
            flat_cost_per_month: self.flat_cost_per_month,
            total_cost_per_month: self.total_cost_per_month,
            groups: texts(self.groups@),
        }
    }
}

/// A copy of a list of strings.
pub fn copy_texts(v: &Vec<String>) -> (r: Vec<String>)
    ensures
        texts(r@) == texts(v@),
{
    let mut out: Vec<String> = Vec::new();
    let mut i: usize = 0;
    while i < v.len()
        invariant
            i <= v.len(),
            out.len() == i,
            forall|j: int| 0 <= j < i ==> out[j]@ == v[j]@,
        decreases v.len() - i,
    {
        out.push(v[i].clone());
        i += 1;
    }
    assert(texts(out@) =~= texts(v@));
    out
}

impl NewSoftwareVendor {
    /// A copy that holds the same values.
    pub fn duplicate(&self) -> (r: NewSoftwareVendor)
        ensures
            r@ == self@,
    {
        NewSoftwareVendor {
            name: self.name.clone(),
            status: self.status.clone(),
            description: self.description.clone(),
            website: self.website.clone(),
            has_okta_integration: self.has_okta_integration,
            used_purely_for_api: self.used_purely_for_api,
            pay_as_you_go: self.pay_as_you_go,
            pay_as_you_go_pricing_description: self.pay_as_you_go_pricing_description.clone(),
            software_licenses: self.software_licenses,
            cost_per_user_per_month: self.cost_per_user_per_month,
            users: self.users,
            flat_cost_per_month: self.flat_cost_per_month,
            total_cost_per_month: self.total_cost_per_month,
            groups: copy_texts(&self.groups),
        }
    }
}

/// What a stored row holds: the entity and the id of its remote record.
pub struct VendorRow {
    pub entity: VendorFields,
    pub airtable_record_id: Seq<char>,
}

/// A row of the local store. Its `airtable_record_id` is empty until the row
/// has been linked to a record of the remote table.
#[derive(Debug)]
pub struct SoftwareVendor {
    pub entity: NewSoftwareVendor,
    pub airtable_record_id: String,
}

impl View for SoftwareVendor {
    type V = VendorRow;

    open spec fn view(&self) -> VendorRow {
        VendorRow { entity: self.entity@, airtable_record_id: self.airtable_record_id@ }
    }
}

impl SoftwareVendor {
    /// A copy that holds the same values.
    pub fn duplicate(&self) -> (r: SoftwareVendor)
        ensures
            r@ == self@,
    {
        SoftwareVendor {
            entity: self.entity.duplicate(),
            airtable_record_id: self.airtable_record_id.clone(),
        }
    }
}

/// The text of an optional string, empty where there is none.
pub open spec fn text_or_empty(v: Option<String>) -> Seq<char> {
    match v {
        Some(s) => s@,
        None => Seq::empty(),
    }
}

/// The fields of a record of the remote table, each present or absent.
#[derive(Debug)]
pub struct RemoteFields {
    pub name: Option<String>,
    pub status: Option<String>,
    pub description: Option<String>,
    pub website: Option<String>,
    pub has_okta_integration: Option<bool>,
    pub used_purely_for_api: Option<bool>,
    pub pay_as_you_go: Option<bool>,
    pub pay_as_you_go_pricing_description: Option<String>,
    pub software_licenses: Option<bool>,
    pub cost_per_user_per_month: Option<Amount>,
    pub users: Option<i32>,
    pub flat_cost_per_month: Option<Amount>,
    pub total_cost_per_month: Option<Amount>,
    pub groups: Option<Vec<String>>,
}

impl RemoteFields {
    /// No field is present.
    pub open spec fn is_blank(&self) -> bool {
        &&& self.name is None
        &&& self.status is None
        &&& self.description is None
        &&& self.website is None
        &&& self.has_okta_integration is None
        &&& self.used_purely_for_api is None
        &&& self.pay_as_you_go is None
        &&& self.pay_as_you_go_pricing_description is None
        &&& self.software_licenses is None
        &&& self.cost_per_user_per_month is None
        &&& self.users is None
        &&& self.flat_cost_per_month is None
        &&& self.total_cost_per_month is None
        &&& self.groups is None
    }

    /// The entity that these fields decode to: each field that is present
    /// as it stands, each absent one at its default (empty text, `false`,
    /// zero, no groups).
    pub open spec fn decoded(&self) -> VendorFields {
        VendorFields {
            name: text_or_empty(self.name),
            status: text_or_empty(self.status),
            description: text_or_empty(self.description),
            website: text_or_empty(self.website),
            has_okta_integration: self.has_okta_integration.unwrap_or(false),
            used_purely_for_api: self.used_purely_for_api.unwrap_or(false),
            pay_as_you_go: self.pay_as_you_go.unwrap_or(false),
            pay_as_you_go_pricing_description: text_or_empty(
                self.pay_as_you_go_pricing_description,
            ),
            software_licenses: self.software_licenses.unwrap_or(false),
            cost_per_user_per_month: self.cost_per_user_per_month.unwrap_or(Amount { bits: 0 }),
            users: self.users.unwrap_or(0),
            flat_cost_per_month: self.flat_cost_per_month.unwrap_or(Amount { bits: 0 }),
            total_cost_per_month: self.total_cost_per_month.unwrap_or(Amount { bits: 0 }),
            groups: match self.groups {
                Some(g) => texts(g@),
                None => Seq::empty(),
            },
        }
    }

    /// Decodes the fields into an entity. Decoding never fails: an absent
    /// field takes its default.
    pub fn decode(&self) -> (r: NewSoftwareVendor)
        ensures
            r@ == self.decoded(),
    {
        let groups: Vec<String> = match &self.groups {
            Some(g) => copy_texts(g),
            None => Vec::new(),
        };
        assert(texts(Seq::<String>::empty()) =~= Seq::<Seq<char>>::empty());
        NewSoftwareVendor {
            name: owned_or_empty(&self.name),
            status: owned_or_empty(&self.status),
            description: owned_or_empty(&self.description),
            website: owned_or_empty(&self.website),
            has_okta_integration: flag_or_false(self.has_okta_integration),
            used_purely_for_api: flag_or_false(self.used_purely_for_api),
            pay_as_you_go: flag_or_false(self.pay_as_you_go),
            pay_as_you_go_pricing_description: owned_or_empty(
                &self.pay_as_you_go_pricing_description,
            ),
            software_licenses: flag_or_false(self.software_licenses),
            cost_per_user_per_month: amount_or_zero(self.cost_per_user_per_month),
            users: match self.users {
                Some(n) => n,
                None => 0,
            },
            flat_cost_per_month: amount_or_zero(self.flat_cost_per_month),
            total_cost_per_month: amount_or_zero(self.total_cost_per_month),
            groups,
        }
    }
}

impl Default for RemoteFields {
    fn default() -> (r: RemoteFields)
        ensures
            r.is_blank(),
    {
        RemoteFields {
            name: None,
            status: None,
            description: None,
            website: None,
            has_okta_integration: None,
            used_purely_for_api: None,
            pay_as_you_go: None,
            pay_as_you_go_pricing_description: None,
            software_licenses: None,
            cost_per_user_per_month: None,
            users: None,
            flat_cost_per_month: None,
            total_cost_per_month: None,
            groups: None,
        }
    }
}

fn owned_or_empty(v: &Option<String>) -> (r: String)
    ensures
        r@ == text_or_empty(*v),
{
    match v {
        Some(s) => s.clone(),
        None => String::new(),
    }
}

fn flag_or_false(v: Option<bool>) -> (r: bool)
    ensures
        r == v.unwrap_or(false),
{
    match v {
        Some(b) => b,
        None => false,
    }
}

fn amount_or_zero(v: Option<Amount>) -> (r: Amount)
    ensures
        r == v.unwrap_or(Amount { bits: 0 }),
{
    match v {
        Some(a) => a,
        None => Amount { bits: 0 },
    }
}

/// A decoded record without a single field is the blank entity.
pub proof fn lemma_blank_decodes_to_blank(fields: RemoteFields)
    requires
        fields.is_blank(),
    ensures
        fields.decoded() == VendorFields::blank(),
{
}

/// A record of the remote table: its id there, and its fields.
#[derive(Debug)]
pub struct VendorRecord {
    pub id: String,
    pub fields: RemoteFields,
}

} // verus!

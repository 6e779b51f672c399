//! Which live source supplies a vendor's seat count, and how a source's
//! answer becomes that count.

use vstd::prelude::*;

verus! {

/// A live source of a seat count.
#[derive(Clone, Copy, Debug, PartialEq, Eq, Structural)]
pub enum EnrichmentSource {
    /// The filled seats of the organisation's plan at the source-control host.
    GitHub,
    /// The users listed by the identity provider.
    Okta,
    /// The users listed by the directory.
    GoogleWorkspace,
    /// The chat workspace's members whose billing is active.
    Slack,
    /// The members of the group `all`.
    AllGroup,
}

/// The source that answers for a vendor of this name, if there is one.
/// The names are matched exactly.
pub open spec fn source_for(name: Seq<char>) -> Option<EnrichmentSource> {
    if name == "GitHub"@ {
        Some(EnrichmentSource::GitHub)
    } else if name == "Okta"@ {
        Some(EnrichmentSource::Okta)
    } else if name == "Google Workspace"@ {
        Some(EnrichmentSource::GoogleWorkspace)
    } else if name == "Slack"@ {
        Some(EnrichmentSource::Slack)
    } else if name == "Airtable"@ || name == "Brex"@ || name == "Gusto"@ || name == "Expensify"@ {
        Some(EnrichmentSource::AllGroup)
    } else {
        None
    }
}

fn is_text(name: &String, literal: &str) -> (r: bool)
    ensures
        r == (name@ == literal@),
{
    let other: String = literal.to_owned();
    *name == other
}

/// The source to ask for a vendor's seat count; `None` where the vendor's
/// count is taken as the remote table gives it.
pub fn enrichment_source(name: &String) -> (r: Option<EnrichmentSource>)
    ensures
        r == source_for(name@),
{
    if is_text(name, "GitHub") {
        Some(EnrichmentSource::GitHub)
    } else if is_text(name, "Okta") {
        Some(EnrichmentSource::Okta)
    } else if is_text(name, "Google Workspace") {
        Some(EnrichmentSource::GoogleWorkspace)
    } else if is_text(name, "Slack") {
        Some(EnrichmentSource::Slack)
    } else if is_text(name, "Airtable") || is_text(name, "Brex") || is_text(name, "Gusto")
        || is_text(name, "Expensify") {
        Some(EnrichmentSource::AllGroup)
    } else {
        None
    }
}

/// What a source answered.
#[derive(Debug)]
pub enum Observation {
    /// A seat count that the source reports as such.
    FilledSeats(i32),
    /// The length of a listing of users or members.
    Members(usize),
    /// One flag per member of the chat workspace: whether billing is active.
    Billing(Vec<bool>),
}

/// How many of the flags are set.
pub open spec fn count_set(flags: Seq<bool>) -> nat
    decreases flags.len(),
{
    if flags.len() == 0 {
        0
    } else {
        count_set(flags.drop_last()) + if flags.last() {
            1nat
        } else {
            0nat
        }
    }
}

/// A length as a seat count: the length itself where it fits, else its low
/// 32 bits read as a signed number.
pub open spec fn seats_from_len(n: usize) -> i32 {
    #[verifier::truncate]
    (n as i32)
}

/// The seat count that an observation stands for.
pub open spec fn seats_of(observation: Observation) -> i32 {
    match observation {
        Observation::FilledSeats(n) => n,
        Observation::Members(n) => seats_from_len(n),
        Observation::Billing(flags) => seats_from_len(count_set(flags@) as usize),
    }
}

/// Counts the members whose billing is active.
pub fn count_billing_active(flags: &Vec<bool>) -> (r: usize)
    ensures
        r == count_set(flags@),
{
    let mut count: usize = 0;
    let mut i: usize = 0;
    while i < flags.len()
        invariant
            i <= flags.len(),
            count == count_set(flags@.take(i as int)),
            count <= i,
        decreases flags.len() - i,
    {
        proof {
            assert(flags@.take(i + 1).drop_last() =~= flags@.take(i as int));
        }
        if flags[i] {
            count += 1;
        }
        i += 1;
    }
    proof {
        assert(flags@.take(flags.len() as int) =~= flags@);
    }
    count
}

/// The seat count that an observation stands for.
pub fn observed_seats(observation: &Observation) -> (r: i32)
    ensures
        r == seats_of(*observation),
{
    match observation {
        Observation::FilledSeats(n) => *n,
        Observation::Members(n) => {
            #[verifier::truncate]
            (*n as i32)
        },
        Observation::Billing(flags) => {
            let count: usize = count_billing_active(flags);
            #[verifier::truncate]
            (count as i32)
        },
    }
}

/// A length that fits is its own seat count.
pub proof fn lemma_seats_from_len_exact(n: usize)
    requires
        n <= i32::MAX,
    ensures
        seats_from_len(n) == n,
{
}

} // verus!

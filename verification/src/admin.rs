//! What the local admin status page reports of the registry.

use vstd::prelude::*;

use crate::registry::{ClaimState, DeviceRegistry, DeviceRecordView, record_views, index_by_identity};

verus! {

/// The label of a claim state on the status page.
pub open spec fn claim_text(c: ClaimState) -> Seq<char> {
    match c {
        ClaimState::Pending => "pending"@,
        ClaimState::Claimed => "claimed"@,
    }
}

/// The status page's label for a claim state.
pub fn claim_label(claim: ClaimState) -> (s: &'static str)
    ensures
        s@ == claim_text(claim),
{
    match claim {
        ClaimState::Pending => "pending",
        ClaimState::Claimed => "claimed",
    }
}

/// One device line of the status page.
#[derive(Debug, Clone)]
pub struct DeviceStatus {
    pub identity: String,
    pub routing_addr: u16,
    pub claim: &'static str,
}

/// Whether a status line shows this record.
pub open spec fn shows(line: DeviceStatus, rec: DeviceRecordView) -> bool {
    &&& line.identity@ == rec.identity
    &&& line.routing_addr == rec.routing_addr
    &&& line.claim@ == claim_text(rec.claim)
}

/// The device lines of the status page: one per registered node.
pub fn device_statuses(registry: &DeviceRegistry) -> (lines: Vec<DeviceStatus>)
    ensures
        exists|recs: Seq<DeviceRecordView>|
            {
                &&& recs.len() == lines@.len()
                &&& index_by_identity(recs) == registry@
                &&& crate::registry::distinct_identities(recs)
                &&& forall|i: int| 0 <= i < recs.len() ==> shows(#[trigger] lines@[i], recs[i])
            },
{
    let records = registry.list();
    let mut lines: Vec<DeviceStatus> = Vec::new();
    let mut i: usize = 0;
    while i < records.len()
        invariant
            i <= records@.len(),
            lines@.len() == i,
            forall|j: int| 0 <= j < i ==> shows(#[trigger] lines@[j], records@[j]@),
        decreases records@.len() - i,
    {
        let rec = &records[i];
        lines.push(
            DeviceStatus {
                identity: rec.identity.clone(),
                routing_addr: rec.routing_addr,
                claim: claim_label(rec.claim),
            },
        );
        i = i + 1;
    }
    assert(forall|j: int| 0 <= j < records@.len() ==> record_views(records@)[j] == records@[j]@);
    lines
}

} // verus!

//! Multi-delete planning: resolving the operator's selected indices
//! against the Selection Snapshot, and deciding each item on its own
//! confirmation.
//!
//! The snapshot is the catalog's name list in catalog order, captured once
//! per delete operation. Selected indices resolve into that exact capture;
//! nothing is re-fetched between presentation and use.

use vstd::prelude::*;

use crate::catalog::DnsInfo;
use crate::errors::Error;
use crate::zones::ZoneInfo;

verus! {

/// One record picked for deletion: the snapshot name and the identifier
/// catalogued under it.
pub struct DeleteTarget {
    pub name: String,
    pub dns_id: String,
}

/// A delete request as handed to the provider: which zone, which record.
pub struct DeleteRequest {
    pub zone_identifier: String,
    pub record_identifier: String,
}

/// The outcome of one item's confirmation gate.
pub enum DeleteDecision {
    /// The operator confirmed: issue exactly this request.
    Delete(DeleteRequest),
    /// The operator declined: no request for this item.
    Skip,
}

/// Resolve the selected indices against the catalog they were presented
/// from.
///
/// Every target pairs the snapshot name at the selected index with the
/// identifier catalogued under that exact name, in the order chosen. An
/// empty selection resolves to no targets at all — no delete request can
/// arise from it. An index outside the snapshot is a programming-error-class
/// failure, never silently dropped.
pub fn resolve_selection(catalog: &DnsInfo, selections: &Vec<usize>) -> (r: Result<
    Vec<DeleteTarget>,
    Error,
>)
    requires
        catalog.wf(),
    ensures
        r is Ok <==> (forall|k: int|
            0 <= k < selections@.len() ==> (#[trigger] selections@[k]) < catalog@.len()),
        r matches Ok(ts) ==> ts@.len() == selections@.len() && forall|k: int|
            0 <= k < ts@.len() ==> {
                &&& (#[trigger] ts@[k]).name@ == catalog@[selections@[k] as int].0
                &&& ts@[k].dns_id@ == catalog@[selections@[k] as int].1.dns_id
            },
        selections@.len() == 0 ==> (r matches Ok(ts) && ts@.len() == 0),
        r is Err ==> r == Result::<Vec<DeleteTarget>, Error>::Err(Error::SelectionOutOfRange),
{
    let n = selections.len();
    let mut ts: Vec<DeleteTarget> = Vec::new();
    let mut k: usize = 0;
    while k < n
        invariant
            n == selections@.len(),
            k <= n,
            catalog.wf(),
            ts@.len() == k,
            forall|u: int| 0 <= u < k ==> (#[trigger] selections@[u]) < catalog@.len(),
            forall|u: int|
                0 <= u < k ==> {
                    &&& (#[trigger] ts@[u]).name@ == catalog@[selections@[u] as int].0
                    &&& ts@[u].dns_id@ == catalog@[selections@[u] as int].1.dns_id
                },
        decreases n - k,
    {
        let sel = selections[k];
        if sel >= catalog.len() {
            return Err(Error::SelectionOutOfRange);
        }
        let name = catalog.name_at(sel).clone();
        let dns_id = catalog.id_at(sel).clone();
        ts.push(DeleteTarget { name, dns_id });
        k = k + 1;
    }
    Ok(ts)
}

/// Compose the delete request for one target: the resolved zone, and the
/// identifier the catalog associates with the target's name.
pub fn build_delete_request(zone: &ZoneInfo, target: &DeleteTarget) -> (r: DeleteRequest)
    ensures
        r.zone_identifier@ == zone.zone_identifier@,
        r.record_identifier@ == target.dns_id@,
{
    DeleteRequest {
        zone_identifier: zone.zone_identifier.clone(),
        record_identifier: target.dns_id.clone(),
    }
}

/// Decide one selected item from its own confirmation: a confirmed item
/// yields exactly its composed delete request, a declined one yields no
/// request. Items are independent of each other.
pub fn decide_delete(zone: &ZoneInfo, target: &DeleteTarget, confirmed: bool) -> (r: DeleteDecision)
    ensures
        confirmed ==> (r matches DeleteDecision::Delete(req) && req.zone_identifier@
            == zone.zone_identifier@ && req.record_identifier@ == target.dns_id@),
        !confirmed ==> r is Skip,
{
    if confirmed {
        DeleteDecision::Delete(build_delete_request(zone, target))
    } else {
        DeleteDecision::Skip
    }
}

} // verus!

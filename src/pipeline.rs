use vstd::prelude::*;

use crate::json::parsed_json;
use crate::normalize::{normalize, normalized, normalizes_to, Warning};
use crate::json::JsonValue;
use crate::record::CanonicalRecord;

verus! {

/// The tenant scope of one batch, fixed once resolved.
#[derive(Debug)]
pub struct TenantContext {
    pub team_id: String,
    pub datasource_id: String,
}

/// Resolves the tenant of `datasource_id` from the team field that the
/// metadata lookup returned; a failed lookup or a missing field gives an
/// empty team id and the batch goes on unscoped.
pub fn resolve_tenant(datasource_id: String, team_field: Option<String>) -> (r: TenantContext)
    ensures
        r.datasource_id@ == datasource_id@,
        r.team_id@ == (match team_field {
            Some(t) => t@,
            None => Seq::<char>::empty(),
        }),
{
    let team_id = match team_field {
        Some(t) => t,
        None => String::new(),
    };
    TenantContext { team_id, datasource_id }
}

/// One call of the embedding collaborator: the records of a batch under its
/// tenant.
#[derive(Debug)]
pub struct EmbedJob {
    pub tenant: TenantContext,
    pub records: Vec<CanonicalRecord>,
}

/// Decides what an inbound message leads to: an embedding job for its
/// records, or a warning and no call to any store.
pub fn plan_batch(message: &str, tenant: TenantContext) -> (r: Result<EmbedJob, Warning>)
    ensures
        match r {
            Ok(job) => job.tenant == tenant && normalizes_to(
                Ok::<_, Warning>(job.records),
                parsed_json(message@),
            ),
            Err(w) => normalizes_to(Err(w), parsed_json(message@)),
        },
        parsed_json(message@) is None ==> r == Err::<EmbedJob, _>(Warning::Unparsable),
        (parsed_json(message@) matches Some(JsonValue::Array(items)) && items@.len() == 0) ==> r
            == Err::<EmbedJob, _>(Warning::NoRecords),
        r is Ok <==> normalized(parsed_json(message@)) is Ok,
{
    match normalize(message) {
        Ok(records) => Ok(EmbedJob { tenant, records }),
        Err(w) => Err(w),
    }
}

} // verus!

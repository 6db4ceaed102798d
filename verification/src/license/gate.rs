//! Feature gating on the license status.

use vstd::prelude::*;
use super::validator::{LicenseStatus, LicenseStatusView};

verus! {

/// The projects the free tier may render in one batch.
pub const FREE_TIER_PROJECTS: usize = 3;

/// Automation may run unless the license has expired or is invalid; the error
/// tells which.
pub open spec fn spec_can_run(s: LicenseStatusView) -> Result<(), Seq<char>> {
    match s {
        LicenseStatusView::Expired { expired_at } => Err("License đã hết hạn ("@ + expired_at + ")."@),
        LicenseStatusView::Invalid { reason } => Err("License không hợp lệ: "@ + reason),
        _ => Ok(()),
    }
}

pub open spec fn unit_result_view(r: Result<(), String>) -> Result<(), Seq<char>> {
    match r {
        Ok(()) => Ok(()),
        Err(e) => Err(e@),
    }
}

/// Whether automation may run under this license status.
pub fn can_run_automation(status: &LicenseStatus) -> (r: Result<(), String>)
    ensures
        unit_result_view(r) == spec_can_run(status@),
{
    match status {
        LicenseStatus::Expired { expired_at } => {
            let mut m = String::from_str("License đã hết hạn (");
            m.append(expired_at.as_str());
            m.append(").");
            Err(m)
        },
        LicenseStatus::Invalid { reason } => {
            let mut m = String::from_str("License không hợp lệ: ");
            m.append(reason.as_str());
            Err(m)
        },
        _ => Ok(()),
    }
}

/// The most projects per batch: unlimited (`None`) with a valid license, else the free tier.
pub fn get_project_limit(status: &LicenseStatus) -> (r: Option<usize>)
    ensures
        r == if status@ is Valid { None } else { Some(FREE_TIER_PROJECTS) },
{
    match status {
        LicenseStatus::Valid { .. } => None,
        _ => Some(FREE_TIER_PROJECTS),
    }
}

} // verus!

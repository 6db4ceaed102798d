//! The license status the application shows and gates features on.

use vstd::prelude::*;

verus! {

/// The state of the license on this machine.
#[derive(Debug)]
pub enum LicenseStatus {
    /// The license is valid.
    Valid { plan: String, expires_at: Option<String> },
    /// The subscription has expired.
    Expired { expired_at: String },
    /// No license is activated.
    NotActivated,
    /// The license is invalid (revoked, wrong key, ...).
    Invalid { reason: String },
}

pub enum LicenseStatusView {
    Valid { plan: Seq<char>, expires_at: Option<Seq<char>> },
    Expired { expired_at: Seq<char> },
    NotActivated,
    Invalid { reason: Seq<char> },
}

pub open spec fn opt_chars(o: Option<String>) -> Option<Seq<char>> {
    match o {
        Some(s) => Some(s@),
        None => None,
    }
}

impl View for LicenseStatus {
    type V = LicenseStatusView;

    open spec fn view(&self) -> LicenseStatusView {
        match self {
            LicenseStatus::Valid { plan, expires_at } => LicenseStatusView::Valid {
                plan: plan@,
                expires_at: opt_chars(*expires_at),
            },
            LicenseStatus::Expired { expired_at } => LicenseStatusView::Expired { expired_at: expired_at@ },
            LicenseStatus::NotActivated => LicenseStatusView::NotActivated,
            LicenseStatus::Invalid { reason } => LicenseStatusView::Invalid { reason: reason@ },
        }
    }
}

/// A copy of an optional text.
pub fn copy_opt_text(o: &Option<String>) -> (r: Option<String>)
    ensures
        opt_chars(r) == opt_chars(*o),
{
    match o {
        Some(s) => Some(s.clone()),
        None => None,
    }
}

impl LicenseStatus {
    /// The status allows the paid features.
    pub open spec fn spec_is_usable(self) -> bool {
        self is Valid
    }

    /// Whether the license is valid.
    pub fn is_usable(&self) -> (r: bool)
        ensures
            r == (self@ is Valid),
    {
        match self {
            LicenseStatus::Valid { .. } => true,
            _ => false,
        }
    }

    /// A copy of the status.
    pub fn copied(&self) -> (r: LicenseStatus)
        ensures
            r@ == self@,
    {
        match self {
            LicenseStatus::Valid { plan, expires_at } => LicenseStatus::Valid {
                plan: plan.clone(),
                expires_at: copy_opt_text(expires_at),
            },
            LicenseStatus::Expired { expired_at } => LicenseStatus::Expired { expired_at: expired_at.clone() },
            LicenseStatus::NotActivated => LicenseStatus::NotActivated,
            LicenseStatus::Invalid { reason } => LicenseStatus::Invalid { reason: reason.clone() },
        }
    }
}

} // verus!

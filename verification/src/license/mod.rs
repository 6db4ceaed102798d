//! License handling: the status, the encrypted cache, the machine fingerprint,
//! and the decisions taken on the replies of the license server.

pub mod validator;
pub mod gate;
pub mod cache;
pub mod fingerprint;

use vstd::prelude::*;
use vstd::utf8::{encode_utf8, is_char_boundary};
use vstd::string::StringSliceAdditionalSpecFns;
use validator::{copy_opt_text, opt_chars, LicenseStatus, LicenseStatusView};

verus! {

/// Offline use is allowed for up to 7 days after the last successful online check.
pub const OFFLINE_GRACE_SECS: i64 = 604800;

/// The license state held by the application.
pub struct LicenseState {
    status: LicenseStatus,
}

impl LicenseState {
    pub closed spec fn current(&self) -> LicenseStatusView {
        self.status@
    }

    /// A fresh state: no license activated.
    pub fn new() -> (r: Self)
        ensures
            r.current() == LicenseStatusView::NotActivated,
    {
        LicenseState { status: LicenseStatus::NotActivated }
    }

    /// The current status.
    pub fn get(&self) -> (r: LicenseStatus)
        ensures
            r@ == self.current(),
    {
        self.status.copied()
    }

    /// Replaces the status.
    pub fn set(&mut self, s: LicenseStatus)
        ensures
            final(self).current() == s@,
    {
        self.status = s;
    }
}

/// The license data kept in the cache.
#[derive(Debug)]
pub struct LicenseData {
    pub license_key: String,
    pub plan: String,
    pub expires_at: Option<String>,
    /// Unix time of the last successful online check.
    pub last_validated_at: i64,
}

pub struct LicenseDataView {
    pub license_key: Seq<char>,
    pub plan: Seq<char>,
    pub expires_at: Option<Seq<char>>,
    pub last_validated_at: i64,
}

impl View for LicenseData {
    type V = LicenseDataView;

    open spec fn view(&self) -> LicenseDataView {
        LicenseDataView {
            license_key: self.license_key@,
            plan: self.plan@,
            expires_at: opt_chars(self.expires_at),
            last_validated_at: self.last_validated_at,
        }
    }
}

/// The license server's reply.
#[derive(Debug)]
pub struct LicenseResponse {
    pub valid: bool,
    pub plan: Option<String>,
    pub expires_at: Option<String>,
    pub error: Option<String>,
}

pub struct LicenseResponseView {
    pub valid: bool,
    pub plan: Option<Seq<char>>,
    pub expires_at: Option<Seq<char>>,
    pub error: Option<Seq<char>>,
}

impl View for LicenseResponse {
    type V = LicenseResponseView;

    open spec fn view(&self) -> LicenseResponseView {
        LicenseResponseView {
            valid: self.valid,
            plan: opt_chars(self.plan),
            expires_at: opt_chars(self.expires_at),
            error: opt_chars(self.error),
        }
    }
}

/// The Unix seconds of an RFC 3339 date-time text, or `None` where it is not one.
pub uninterp spec fn rfc3339_unix_seconds(text: Seq<char>) -> Option<i64>;

/// `chrono::DateTime::parse_from_rfc3339(text).ok()`, taken to Unix seconds with
/// `DateTime::timestamp`. The contract names the result; RFC 3339 is not restated.
#[verifier::external_body]
fn rfc3339_timestamp(text: &str) -> (r: Option<i64>)
    ensures
        r == rfc3339_unix_seconds(text@),
{
    chrono::DateTime::parse_from_rfc3339(text).ok().map(|d| d.timestamp())
}

/// The current Unix time in seconds (0 when the clock reads before 1970), from
/// `SystemTime::now()`. Nothing is stated of it: it is the clock's reading.
#[verifier::external_body]
fn now_ts() -> i64 {
    std::time::SystemTime::now().duration_since(std::time::UNIX_EPOCH).map(|d| d.as_secs() as i64).unwrap_or(0)
}

pub open spec fn copy_data(d: LicenseDataView) -> LicenseDataView {
    d
}

/// The status of cached license data at time `now`, given the Unix time its expiry
/// text reads as: expired when that time lies before `now`, valid otherwise (also
/// when there is no expiry or it does not read as a time).
pub open spec fn spec_status_at(d: LicenseDataView, expiry: Option<i64>, now: i64) -> LicenseStatusView {
    match (d.expires_at, expiry) {
        (Some(s), Some(t)) => if t < now {
            LicenseStatusView::Expired { expired_at: s }
        } else {
            LicenseStatusView::Valid { plan: d.plan, expires_at: d.expires_at }
        },
        _ => LicenseStatusView::Valid { plan: d.plan, expires_at: d.expires_at },
    }
}

/// The Unix time the expiry of cached data reads as.
pub open spec fn expiry_of(d: LicenseDataView) -> Option<i64> {
    match d.expires_at {
        Some(s) => rfc3339_unix_seconds(s),
        None => None,
    }
}

/// The status of cached license data at time `now`, where `expiry` is the Unix time
/// its expiry text reads as.
pub fn status_at(data: &LicenseData, expiry: Option<i64>, now: i64) -> (r: LicenseStatus)
    ensures
        r@ == spec_status_at(data@, expiry, now),
{
    match (&data.expires_at, expiry) {
        (Some(s), Some(t)) => {
            if t < now {
                return LicenseStatus::Expired { expired_at: s.clone() };
            }
        },
        _ => {},
    }
    LicenseStatus::Valid { plan: data.plan.clone(), expires_at: copy_opt_text(&data.expires_at) }
}

/// Law (expiry against the clock): cached data read at time `now` is expired
/// exactly when it has an expiry time and that time lies before `now`, and then it
/// reports its expiry text; otherwise it is valid with its plan and expiry. An
/// expired status stays expired at any later time.
pub proof fn law_status_follows_the_clock(d: LicenseDataView, expiry: Option<i64>, now: i64, later: i64)
    requires
        now <= later,
    ensures
        spec_status_at(d, expiry, now) is Expired <==> (d.expires_at is Some && (expiry matches Some(t) && t < now)),
        spec_status_at(d, expiry, now) matches LicenseStatusView::Expired { expired_at } ==> d.expires_at == Some(expired_at),
        !(spec_status_at(d, expiry, now) is Expired) ==> spec_status_at(d, expiry, now) == (LicenseStatusView::Valid {
            plan: d.plan,
            expires_at: d.expires_at,
        }),
        spec_status_at(d, expiry, now) is Expired ==> spec_status_at(d, expiry, later) == spec_status_at(d, expiry, now),
{
}

/// The status of cached license data now.
pub fn status_from_cache(data: &LicenseData) -> (r: LicenseStatus)
    ensures
        exists|now: i64| r@ == spec_status_at(data@, expiry_of(data@), now),
        expiry_of(data@) is None ==> r@ == (LicenseStatusView::Valid { plan: data@.plan, expires_at: data@.expires_at }),
{
    let expiry = match &data.expires_at {
        Some(s) => rfc3339_timestamp(s.as_str()),
        None => None,
    };
    match expiry {
        Some(_) => {
            let now = now_ts();
            status_at(data, expiry, now)
        },
        None => status_at(data, expiry, 0),
    }
}

/// What to do after a validation with the license server.
pub struct LicenseDecision {
    /// New data to store in the cache.
    pub save: Option<LicenseData>,
    /// Remove the cache.
    pub clear_cache: bool,
    /// New status to set.
    pub status: Option<LicenseStatus>,
}

pub struct LicenseDecisionView {
    pub save: Option<LicenseDataView>,
    pub clear_cache: bool,
    pub status: Option<LicenseStatusView>,
}

impl View for LicenseDecision {
    type V = LicenseDecisionView;

    open spec fn view(&self) -> LicenseDecisionView {
        LicenseDecisionView {
            save: match self.save {
                Some(d) => Some(d@),
                None => None,
            },
            clear_cache: self.clear_cache,
            status: match self.status {
                Some(s) => Some(s@),
                None => None,
            },
        }
    }
}

pub open spec fn or_text(o: Option<Seq<char>>, fallback: Seq<char>) -> Seq<char> {
    match o {
        Some(s) => s,
        None => fallback,
    }
}

/// A positive reply renews the cache (the reply's plan, else the cached one; the
/// reply's expiry; checked `now`) and makes the license valid; a negative one clears
/// the cache and makes it invalid with the server's reason, else `fallback_reason`.
pub open spec fn spec_reply_decision(d: LicenseDataView, resp: LicenseResponseView, now: i64, fallback_reason: Seq<char>) -> LicenseDecisionView {
    if resp.valid {
        let plan = or_text(resp.plan, d.plan);
        LicenseDecisionView {
            save: Some(
                LicenseDataView { license_key: d.license_key, plan, expires_at: resp.expires_at, last_validated_at: now },
            ),
            clear_cache: false,
            status: Some(LicenseStatusView::Valid { plan, expires_at: resp.expires_at }),
        }
    } else {
        LicenseDecisionView {
            save: None,
            clear_cache: true,
            status: Some(LicenseStatusView::Invalid { reason: or_text(resp.error, fallback_reason) }),
        }
    }
}

fn or_copy(o: &Option<String>, fallback: &str) -> (r: String)
    ensures
        r@ == or_text(opt_chars(*o), fallback@),
{
    match o {
        Some(s) => s.clone(),
        None => String::from_str(fallback),
    }
}

fn reply_decision(data: &LicenseData, resp: &LicenseResponse, now: i64, fallback_reason: &str) -> (r: LicenseDecision)
    ensures
        r@ == spec_reply_decision(data@, resp@, now, fallback_reason@),
{
    if resp.valid {
        let plan = match &resp.plan {
            Some(p) => p.clone(),
            None => data.plan.clone(),
        };
        let saved = LicenseData {
            license_key: data.license_key.clone(),
            plan: plan.clone(),
            expires_at: copy_opt_text(&resp.expires_at),
            last_validated_at: now,
        };
        LicenseDecision {
            save: Some(saved),
            clear_cache: false,
            status: Some(LicenseStatus::Valid { plan, expires_at: copy_opt_text(&resp.expires_at) }),
        }
    } else {
        LicenseDecision {
            save: None,
            clear_cache: true,
            status: Some(LicenseStatus::Invalid { reason: or_copy(&resp.error, fallback_reason) }),
        }
    }
}

/// The background check at start-up: a reply is decided as in [`spec_reply_decision`];
/// when the server cannot be reached the license stays as it is while at most
/// [`OFFLINE_GRACE_SECS`] have passed since the last successful check, and becomes
/// invalid after that.
pub open spec fn spec_background_decision(d: LicenseDataView, reply: Option<LicenseResponseView>, now: i64) -> LicenseDecisionView {
    match reply {
        Some(resp) => spec_reply_decision(d, resp, now, "License không còn hợp lệ"@),
        None => if now - d.last_validated_at > OFFLINE_GRACE_SECS {
            LicenseDecisionView {
                save: None,
                clear_cache: false,
                status: Some(LicenseStatusView::Invalid { reason: "Không thể xác minh license (offline quá 7 ngày)."@ }),
            }
        } else {
            LicenseDecisionView { save: None, clear_cache: false, status: None }
        },
    }
}

pub open spec fn reply_view(r: Result<LicenseResponse, String>) -> Option<LicenseResponseView> {
    match r {
        Ok(resp) => Some(resp@),
        Err(_) => None,
    }
}

/// Decides on the result of the background validation at time `now`.
pub fn background_decision(data: &LicenseData, reply: &Result<LicenseResponse, String>, now: i64) -> (r: LicenseDecision)
    requires
        reply is Err ==> i64::MIN <= now - data.last_validated_at <= i64::MAX,
    ensures
        r@ == spec_background_decision(data@, reply_view(*reply), now),
        reply is Err && now - data.last_validated_at <= OFFLINE_GRACE_SECS ==> r@.status is None && r@.save is None
            && !r@.clear_cache,
        reply is Err && now - data.last_validated_at > OFFLINE_GRACE_SECS ==> r@.status == Some(
            LicenseStatusView::Invalid { reason: "Không thể xác minh license (offline quá 7 ngày)."@ },
        ),
{
    match reply {
        Ok(resp) => reply_decision(data, resp, now, "License không còn hợp lệ"),
        Err(_) => {
            let elapsed = now - data.last_validated_at;
            if elapsed > OFFLINE_GRACE_SECS {
                LicenseDecision {
                    save: None,
                    clear_cache: false,
                    status: Some(
                        LicenseStatus::Invalid { reason: String::from_str("Không thể xác minh license (offline quá 7 ngày).") },
                    ),
                }
            } else {
                LicenseDecision { save: None, clear_cache: false, status: None }
            }
        },
    }
}

/// Decides on the reply of a refresh the user asked for, at time `now`.
pub fn refresh_decision(data: &LicenseData, resp: &LicenseResponse, now: i64) -> (r: LicenseDecision)
    ensures
        r@ == spec_reply_decision(data@, resp@, now, "License không hợp lệ"@),
{
    reply_decision(data, resp, now, "License không hợp lệ")
}

/// What an activation reply leads to: a refusal with the server's error (else a
/// fixed text), or the data to cache (plan defaulting to "Pro", checked `now`) and
/// the valid status.
pub open spec fn spec_activation(key: Seq<char>, resp: LicenseResponseView, now: i64) -> Result<(LicenseDataView, LicenseStatusView), Seq<char>> {
    if !resp.valid {
        Err(or_text(resp.error, "Kích hoạt thất bại"@))
    } else {
        let plan = or_text(resp.plan, "Pro"@);
        Ok(
            (
                LicenseDataView { license_key: key, plan, expires_at: resp.expires_at, last_validated_at: now },
                LicenseStatusView::Valid { plan, expires_at: resp.expires_at },
            ),
        )
    }
}

pub open spec fn activation_view(r: Result<(LicenseData, LicenseStatus), String>) -> Result<(LicenseDataView, LicenseStatusView), Seq<char>> {
    match r {
        Ok((d, s)) => Ok((d@, s@)),
        Err(e) => Err(e@),
    }
}

/// Decides on the reply to activating `key`, at time `now`.
pub fn activation_outcome(key: &str, resp: &LicenseResponse, now: i64) -> (r: Result<(LicenseData, LicenseStatus), String>)
    ensures
        activation_view(r) == spec_activation(key@, resp@, now),
{
    if !resp.valid {
        return Err(or_copy(&resp.error, "Kích hoạt thất bại"));
    }
    let plan = or_copy(&resp.plan, "Pro");
    let data = LicenseData {
        license_key: String::from_str(key),
        plan: plan.clone(),
        expires_at: copy_opt_text(&resp.expires_at),
        last_validated_at: now,
    };
    Ok((data, LicenseStatus::Valid { plan, expires_at: copy_opt_text(&resp.expires_at) }))
}

/// The result of a deactivation request: success, or the server's error (else a fixed text).
pub fn deactivation_outcome(success: bool, error: &Option<String>) -> (r: Result<(), String>)
    ensures
        success ==> r is Ok,
        !success ==> (r matches Err(e) && e@ == or_text(opt_chars(*error), "Deactivate thất bại"@)),
{
    if success {
        Ok(())
    } else {
        Err(or_copy(error, "Deactivate thất bại"))
    }
}

/// The first 8 bytes of a machine id (all of it when shorter), shown to the user.
pub fn get_machine_fingerprint(id: &str) -> (r: String)
    requires
        id.spec_bytes().len() <= usize::MAX,
        is_char_boundary(id.spec_bytes(), if id.spec_bytes().len() < 8 { id.spec_bytes().len() as int } else { 8 }),
    ensures
        encode_utf8(r@) == id.spec_bytes().subrange(
            0,
            if id.spec_bytes().len() < 8 { id.spec_bytes().len() as int } else { 8 },
        ),
{
    let n = id.len();
    let k = if n < 8 { n } else { 8 };
    let (head, _) = id.split_at(k);
    let r = String::from_str(head);
    assert(encode_utf8(r@) == head.spec_bytes());
    r
}

} // verus!

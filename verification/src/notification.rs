//! The texts of the desktop notifications sent when projects finish.

use vstd::prelude::*;
use crate::text::{dec_digits, push_decimal};

verus! {

/// A notification: title and body.
pub struct Notice {
    pub title: String,
    pub body: String,
}

/// The notification after one project.
pub fn notify_project_done(project_name: &str, success: bool) -> (r: Notice)
    ensures
        r.title@ == "CapCut Auto Tool"@,
        success ==> r.body@ == "✅ Render xong: "@ + project_name@,
        !success ==> r.body@ == "❌ Render thất bại: "@ + project_name@,
{
    let mut body = if success {
        String::from_str("✅ Render xong: ")
    } else {
        String::from_str("❌ Render thất bại: ")
    };
    body.append(project_name);
    Notice { title: String::from_str("CapCut Auto Tool"), body }
}

/// The body after a batch: a celebration when nothing failed, else the counts.
pub open spec fn batch_body(total: nat, done: nat, failed: nat) -> Seq<char> {
    if failed == 0 {
        "🎉 Hoàn thành "@ + dec_digits(done) + " project!"@
    } else {
        "✅ "@ + dec_digits(done) + " thành công  ❌ "@ + dec_digits(failed) + " thất bại / "@ + dec_digits(total)
            + " tổng"@
    }
}

/// The notification after a batch.
pub fn notify_batch_done(total: usize, done: usize, failed: usize) -> (r: Notice)
    ensures
        r.title@ == "CapCut Auto Tool — Render xong"@,
        r.body@ == batch_body(total as nat, done as nat, failed as nat),
{
    let mut body = String::new();
    if failed == 0 {
        body.append("🎉 Hoàn thành ");
        push_decimal(&mut body, done as u64);
        body.append(" project!");
    } else {
        body.append("✅ ");
        push_decimal(&mut body, done as u64);
        body.append(" thành công  ❌ ");
        push_decimal(&mut body, failed as u64);
        body.append(" thất bại / ");
        push_decimal(&mut body, total as u64);
        body.append(" tổng");
    }
    Notice { title: String::from_str("CapCut Auto Tool — Render xong"), body }
}

/// The notification sent to try the notifications out.
pub fn send_test_notification() -> (r: Notice)
    ensures
        r.title@ == "CapCut Auto Tool"@,
        r.body@ == "🔔 Thông báo hoạt động bình thường!"@,
{
    Notice { title: String::from_str("CapCut Auto Tool"), body: String::from_str("🔔 Thông báo hoạt động bình thường!") }
}

} // verus!

//! Who approved a proposal, and whether that is enough.
use vstd::prelude::*;
use crate::table::{concat, decimal, decimal_u64, text_eq, values};

verus! {

/// The approvers with one more; one who approved before counts once.
pub open spec fn with_approver(xs: Seq<Seq<char>>, approver: Seq<char>) -> Seq<Seq<char>> {
    if xs.contains(approver) {
        xs
    } else {
        xs.push(approver)
    }
}

/// Whether these are as many as are required.
pub open spec fn enough(xs: Seq<Seq<char>>, required: u32) -> bool {
    xs.len() as u32 >= required
}

/// What the log says of an approval.
pub open spec fn approval_reason(count: int, required: u32, reached: bool) -> Seq<char> {
    (if reached {
        "approval threshold reached ("@
    } else {
        "approved ("@
    }) + decimal(count) + "/"@ + decimal(required as int) + ")"@
}

/// The approvers after one more approved.
#[derive(Debug, PartialEq, Eq)]
pub struct Approval {
    pub approvers: Vec<String>,
    /// Whether they are as many as are required.
    pub reached: bool,
    /// What the log says of it.
    pub reason: String,
}

/// Adds an approver to those who approved before.
pub fn approve(approvers: Vec<String>, approver: &str, required: u32) -> (r: Approval)
    ensures
        values(r.approvers@) == with_approver(values(approvers@), approver@),
        r.reached == enough(with_approver(values(approvers@), approver@), required),
        r.reason@ == approval_reason(
            with_approver(values(approvers@), approver@).len() as int,
            required,
            r.reached,
        ),
{
    let ghost xs = values(approvers@);
    let mut all = approvers;
    let mut there = false;
    let mut i: usize = 0;
    while i < all.len()
        invariant
            i <= all@.len(),
            xs == values(all@),
            there == exists|j: int| 0 <= j < i && #[trigger] xs[j] == approver@,
        decreases all@.len() - i,
    {
        assert(xs[i as int] == all@[i as int]@);
        if text_eq(all[i].as_str(), approver) {
            there = true;
        }
        i = i + 1;
    }
    assert(there == xs.contains(approver@));
    if !there {
        let ghost before = all@;
        all.push(approver.to_owned());
        proof {
            assert(values(all@) =~= xs.push(approver@));
        }
    }
    let n: usize = all.len();
    let reached = n as u32 >= required;
    let count = decimal_u64(n as u64);
    let need = decimal_u64(required as u64);
    let s = concat(
        if reached {
            "approval threshold reached ("
        } else {
            "approved ("
        },
        count.as_str(),
    );
    let s = concat(s.as_str(), "/");
    let s = concat(s.as_str(), need.as_str());
    let reason = concat(s.as_str(), ")");
    Approval { approvers: all, reached, reason }
}

/// However often someone approves, they count once.
pub proof fn law_an_approver_counts_once(xs: Seq<Seq<char>>, approver: Seq<char>)
    ensures
        with_approver(with_approver(xs, approver), approver) == with_approver(xs, approver),
        with_approver(xs, approver).contains(approver),
        xs.no_duplicates() ==> with_approver(xs, approver).no_duplicates(),
{
    if !xs.contains(approver) {
        let ys = xs.push(approver);
        assert(ys[xs.len() as int] == approver);
        if xs.no_duplicates() {
            assert forall|i: int, j: int| 0 <= i < ys.len() && 0 <= j < ys.len() && i != j implies ys[i]
                != ys[j] by {
                if i < xs.len() && j < xs.len() {
                    assert(xs[i] != xs[j]);
                } else if i < xs.len() {
                    assert(xs.contains(xs[i]));
                } else {
                    assert(xs.contains(xs[j]));
                }
            }
        }
    }
}

} // verus!

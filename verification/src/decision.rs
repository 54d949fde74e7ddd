//! Whether to run the program on a day, and why.
use vstd::prelude::*;
use vstd::string::*;

use crate::calendar::{is_weekend_day, Date};
use crate::holidays::{HolidayDate, HolidayIndex, IndexView};
use crate::calendar::DateView;

verus! {

/// Whether to run the program, with the reason.
#[derive(Debug, Clone, PartialEq, Eq)]
pub enum Decision {
    Run { reason: String },
    Skip { reason: String },
}

/// The mathematical content of a `Decision`.
pub enum Verdict {
    Run { reason: Seq<char> },
    Skip { reason: Seq<char> },
}

impl View for Decision {
    type V = Verdict;

    open spec fn view(&self) -> Verdict {
        match self {
            Decision::Run { reason } => Verdict::Run { reason: reason@ },
            Decision::Skip { reason } => Verdict::Skip { reason: reason@ },
        }
    }
}

impl Verdict {
    pub open spec fn runs(self) -> bool {
        self is Run
    }

    pub open spec fn reason(self) -> Seq<char> {
        match self {
            Verdict::Run { reason } => reason,
            Verdict::Skip { reason } => reason,
        }
    }

    /// The same verdict with `prefix` put before its reason.
    pub open spec fn with_prefix(self, prefix: Seq<char>) -> Verdict {
        match self {
            Verdict::Run { reason } => Verdict::Run { reason: prefix + reason },
            Verdict::Skip { reason } => Verdict::Skip { reason: prefix + reason },
        }
    }

    /// Run becomes skip and skip becomes run; the reason stays.
    pub open spec fn flipped(self) -> Verdict {
        match self {
            Verdict::Run { reason } => Verdict::Skip { reason },
            Verdict::Skip { reason } => Verdict::Run { reason },
        }
    }
}

/// Run on Monday to Friday, skip on Saturday and Sunday.
pub open spec fn weekday_verdict(weekday: int) -> Verdict {
    if is_weekend_day(weekday) {
        Verdict::Skip { reason: "weekend"@ }
    } else {
        Verdict::Run { reason: "weekday"@ }
    }
}

/// The reason given on a day that no holiday file lists, under `missing_policy = "deny"`.
pub open spec fn deny_reason() -> Seq<char> {
    "date not found in holiday json (missing_policy=deny)"@
}

/// The entry an index holds for a day.
pub open spec fn entry_for(idx: IndexView, day: DateView) -> Option<HolidayDate> {
    if idx.entries.contains_key(day) {
        Some(idx.entries[day])
    } else {
        None
    }
}

/// The decision for a day, from its holiday entry (if any), the policy for days that no
/// file lists, and its day of the week (Monday = 0).
///
/// A transferred working day runs and a public holiday is skipped, whatever the day of
/// the week. A listed day of another kind follows the weekday rule, with the kind named
/// in the reason. An unlisted day is skipped under the policy `"deny"` and follows the
/// weekday rule under any other policy.
pub open spec fn decision_for(entry: Option<HolidayDate>, missing_policy: Seq<char>, weekday: int) -> Verdict {
    match entry {
        Some(h) => if h.kind@ == "transfer_workday"@ {
            Verdict::Run { reason: "transfer_workday: "@ + h.name@ }
        } else if h.kind@ == "public_holiday"@ {
            Verdict::Skip { reason: "public_holiday: "@ + h.name@ }
        } else {
            weekday_verdict(weekday).with_prefix("unknown holiday type ("@ + h.kind@ + ") + "@)
        },
        None => if missing_policy == "deny"@ {
            Verdict::Skip { reason: deny_reason() }
        } else {
            weekday_verdict(weekday)
        },
    }
}

/// Whether two texts are the same sequence of characters.
fn same_text(a: &str, b: &str) -> (r: bool)
    ensures
        r == (a@ == b@),
{
    let n = a.unicode_len();
    if n != b.unicode_len() {
        return false;
    }
    let mut i: usize = 0;
    while i < n
        invariant
            n == a@.len(),
            n == b@.len(),
            0 <= i <= n,
            forall|j: int| 0 <= j < i ==> a@[j] == b@[j],
        decreases n - i,
    {
        if a.get_char(i) != b.get_char(i) {
            return false;
        }
        i = i + 1;
    }
    assert(a@ =~= b@);
    true
}

/// The text `prefix` followed by `rest`.
fn joined_text(prefix: &str, rest: &str) -> (r: String)
    ensures
        r@ == prefix@ + rest@,
{
    let mut s = String::from_str(prefix);
    s.append(rest);
    s
}

/// Run on Monday to Friday, skip on Saturday and Sunday.
pub fn weekday_rule(date: Date) -> (r: Decision)
    ensures
        r@ == weekday_verdict(date@.weekday()),
{
    let w = date.weekday_from_monday();
    if w == 5 || w == 6 {
        Decision::Skip { reason: String::from_str("weekend") }
    } else {
        Decision::Run { reason: String::from_str("weekday") }
    }
}

/// Whether to run the program on `date`, given the holiday index and the policy for
/// days that no holiday file lists (`"allow"` or `"deny"`).
pub fn decide(date: Date, idx: &HolidayIndex, missing_policy: &str) -> (r: Decision)
    ensures
        r@ == decision_for(entry_for(idx@, date@), missing_policy@, date@.weekday()),
{
    match idx.get(date) {
        Some(h) => {
            if same_text(h.kind.as_str(), "transfer_workday") {
                Decision::Run { reason: joined_text("transfer_workday: ", h.name.as_str()) }
            } else if same_text(h.kind.as_str(), "public_holiday") {
                Decision::Skip { reason: joined_text("public_holiday: ", h.name.as_str()) }
            } else {
                let mut prefix = String::from_str("unknown holiday type (");
                prefix.append(h.kind.as_str());
                prefix.append(") + ");
                match weekday_rule(date) {
                    Decision::Run { reason } => Decision::Run {
                        reason: joined_text(prefix.as_str(), reason.as_str()),
                    },
                    Decision::Skip { reason } => Decision::Skip {
                        reason: joined_text(prefix.as_str(), reason.as_str()),
                    },
                }
            }
        },
        None => {
            if same_text(missing_policy, "deny") {
                Decision::Skip {
                    reason: String::from_str("date not found in holiday json (missing_policy=deny)"),
                }
            } else {
                weekday_rule(date)
            }
        },
    }
}

/// `decide`, with run and skip swapped when `invert` is set (to run only on holidays
/// and weekends); the reason stays the same.
pub fn decide_with_invert(date: Date, idx: &HolidayIndex, missing_policy: &str, invert: bool) -> (r: Decision)
    ensures
        r@ == (if invert {
            decision_for(entry_for(idx@, date@), missing_policy@, date@.weekday()).flipped()
        } else {
            decision_for(entry_for(idx@, date@), missing_policy@, date@.weekday())
        }),
{
    let d = decide(date, idx, missing_policy);
    if invert {
        match d {
            Decision::Run { reason } => Decision::Skip { reason },
            Decision::Skip { reason } => Decision::Run { reason },
        }
    } else {
        d
    }
}

} // verus!

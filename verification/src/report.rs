//! The text of a worker's log records.

use crate::worker::{Record, RecordView};
use vstd::prelude::*;
use vstd::string::StringExecFns;

verus! {

/// The character of the decimal digit `d`.
pub open spec fn digit(d: nat) -> char {
    (48 + d) as char
}

/// The decimal digits of `n`, most significant first, without leading zeros.
pub open spec fn decimal(n: nat) -> Seq<char>
    decreases n,
{
    if n < 10 {
        seq![digit(n)]
    } else {
        decimal(n / 10).push(digit(n % 10))
    }
}

/// The text of a record: a refusal shows what the service answered, a sent
/// invite its number, the user invited, the group and the account.
pub open spec fn text(record: RecordView) -> Seq<char> {
    match record {
        RecordView::Refused { operation, detail } => "Oops!! "@ + detail,
        RecordView::InviteSent { counter, target, group, account } => "("@ + decimal(counter)
            + ") Invite sent\n\tTarget: "@ + target + "\n\tGroup: "@ + group + "\n\tCookie: "@
            + account + "\n"@,
    }
}

fn digit_text(d: u64) -> (s: &'static str)
    requires
        d < 10,
    ensures
        s@ == seq![digit(d as nat)],
{
    proof {
        reveal_strlit("0");
        reveal_strlit("1");
        reveal_strlit("2");
        reveal_strlit("3");
        reveal_strlit("4");
        reveal_strlit("5");
        reveal_strlit("6");
        reveal_strlit("7");
        reveal_strlit("8");
        reveal_strlit("9");
    }
    let s = if d == 0 {
        "0"
    } else if d == 1 {
        "1"
    } else if d == 2 {
        "2"
    } else if d == 3 {
        "3"
    } else if d == 4 {
        "4"
    } else if d == 5 {
        "5"
    } else if d == 6 {
        "6"
    } else if d == 7 {
        "7"
    } else if d == 8 {
        "8"
    } else {
        "9"
    };
    assert(s@ =~= seq![digit(d as nat)]);
    s
}

/// Writes `n` in decimal.
pub fn decimal_text(n: u64) -> (s: String)
    ensures
        s@ == decimal(n as nat),
    decreases n,
{
    let last = digit_text(n % 10);
    if n < 10 {
        last.to_owned()
    } else {
        let mut s = decimal_text(n / 10);
        s.append(last);
        assert(s@ =~= decimal((n / 10) as nat).push(digit((n % 10) as nat)));
        s
    }
}

impl Record {
    /// The text of this record.
    pub fn text(&self) -> (line: String)
        ensures
            line@ == text(self@),
    {
        match self {
            Record::Refused { operation, detail } => {
                let mut line = "Oops!! ".to_owned();
                line.append(detail.as_str());
                line
            },
            Record::InviteSent { counter, target, group, account } => {
                let mut line = "(".to_owned();
                line.append(decimal_text(*counter).as_str());
                line.append(") Invite sent\n\tTarget: ");
                line.append(target.as_str());
                line.append("\n\tGroup: ");
                line.append(group.as_str());
                line.append("\n\tCookie: ");
                line.append(account.as_str());
                line.append("\n");
                line
            },
        }
    }
}

} // verus!

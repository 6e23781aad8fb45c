use crate::model::account::Account;
use crate::model::amount::{decimal_to_text, decimal_text, Amount, DECIMAL_MAX_SCALE, MAX_MANTISSA};
use vstd::prelude::*;

verus! {

/// The first line of a rendered report.
pub open spec fn header_text() -> Seq<char> {
    "client,available,held,total,locked\n"@
}

pub open spec fn bool_text(b: bool) -> Seq<char> {
    if b {
        "true"@
    } else {
        "false"@
    }
}

pub open spec fn amount_text(a: Amount) -> Seq<char> {
    decimal_text(a.mantissa as int, a.scale as int)
}

/// One line of a rendered report, from the texts of its fields.
pub open spec fn line_text(
    client: Seq<char>,
    available: Seq<char>,
    held: Seq<char>,
    total: Seq<char>,
    locked: bool,
) -> Seq<char> {
    client + ","@ + available + ","@ + held + ","@ + total + ","@ + bool_text(locked) + "\n"@
}

/// One line of a rendered report: client, available, held, total, locked.
pub open spec fn row_text(a: Account) -> Seq<char> {
    line_text(
        decimal_text(a.client.0 as int, 0),
        amount_text(a.available),
        amount_text(a.held),
        amount_text(a.total),
        a.locked,
    )
}

/// The header, then one line per account, in order.
pub open spec fn report_text(accounts: Seq<Account>) -> Seq<char>
    decreases accounts.len(),
{
    if accounts.len() == 0 {
        header_text()
    } else {
        report_text(accounts.drop_last()) + row_text(accounts.last())
    }
}

/// An amount that the decimal type can hold.
pub open spec fn printable(a: Amount) -> bool {
    -MAX_MANTISSA <= a.mantissa <= MAX_MANTISSA && a.scale <= DECIMAL_MAX_SCALE
}

pub open spec fn printable_account(a: Account) -> bool {
    printable(a.available) && printable(a.held) && printable(a.total)
}

/// The final snapshots of every client seen.
pub struct Report {
    accounts: Vec<Account>,
}

impl View for Report {
    type V = Seq<Account>;

    closed spec fn view(&self) -> Seq<Account> {
        self.accounts@
    }
}

/// One report line from the texts of its fields, comma separated.
pub fn render_line(client: &str, available: &str, held: &str, total: &str, locked: bool) -> (r:
    String)
    ensures
        r@ == line_text(client@, available@, held@, total@, locked),
{
    let mut s = String::from_str(client);
    s.append(",");
    s.append(available);
    s.append(",");
    s.append(held);
    s.append(",");
    s.append(total);
    s.append(",");
    if locked {
        s.append("true");
    } else {
        s.append("false");
    }
    s.append("\n");
    proof {
        reveal_strlit(",");
        reveal_strlit("\n");
        reveal_strlit("true");
        reveal_strlit("false");
        assert(s@ =~= line_text(client@, available@, held@, total@, locked));
    }
    s
}

impl Report {
    pub fn new(accounts: Vec<Account>) -> (r: Report)
        ensures
            r@ == accounts@,
    {
        Report { accounts }
    }

    pub fn accounts(&self) -> (r: &Vec<Account>)
        ensures
            r@ == self@,
    {
        &self.accounts
    }

    /// The report as text: a header line, then one line per account.
    pub fn render(&self) -> (r: String)
        requires
            forall|i: int| 0 <= i < self@.len() ==> printable_account(#[trigger] self@[i]),
        ensures
            r@ == report_text(self@),
    {
        let mut s = String::from_str("client,available,held,total,locked\n");
        proof {
            reveal_strlit("client,available,held,total,locked\n");
        }
        let mut i: usize = 0;
        while i < self.accounts.len()
            invariant
                0 <= i <= self@.len(),
                forall|k: int| 0 <= k < self@.len() ==> printable_account(#[trigger] self@[k]),
                s@ == report_text(self@.take(i as int)),
            decreases self@.len() - i,
        {
            let a = self.accounts[i];
            let client = decimal_to_text(a.client.0 as i128, 0);
            let available = a.available.to_text();
            let held = a.held.to_text();
            let total = a.total.to_text();
            let line = render_line(
                client.as_str(),
                available.as_str(),
                held.as_str(),
                total.as_str(),
                a.locked,
            );
            let ghost before = s@;
            s.append(line.as_str());
            proof {
                assert(self@.take(i + 1).drop_last() =~= self@.take(i as int));
                assert(s@ =~= before + row_text(a));
            }
            i = i + 1;
        }
        assert(self@.take(i as int) =~= self@);
        s
    }
}

} // verus!

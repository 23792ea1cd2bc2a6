//! Rendering the final account balances: one CSV row per client in
//! first-seen order, numeric fields as exact decimal text, the lock as
//! literal `true`/`false`.

use vstd::prelude::*;
use vstd::string::StrSliceExecFns;
use vstd::string::StringExecFns;

use crate::amount::Amount;
use crate::amount::lemma_pow10_28;
use crate::amount::lemma_wf_mantissa_bound;
use crate::client::Client;
use crate::client::ClientView;
use crate::registry::Registry;

verus! {

/// What the decimal library prints for mantissa `m` at scale `s`: the
/// exact decimal digits, with the point placed `s` digits from the right.
pub uninterp spec fn decimal_str(m: i128, s: u32) -> Seq<char>;

/// Relies on rust_decimal: `Decimal::from_i128_with_scale` accepts any
/// scale up to 28 and any mantissa up to `2^96 - 1` in magnitude, and its
/// `Display` writes the exact decimal digits — never scientific notation,
/// trailing zeros kept per the scale.
#[verifier::external_body]
fn decimal_to_string(m: i128, s: u32) -> (r: String)
    requires
        s <= 28,
        -79228162514264337593543950335i128 <= m <= 79228162514264337593543950335i128,
    ensures
        r@ == decimal_str(m, s),
{
    rust_decimal::Decimal::from_i128_with_scale(m, s).to_string()
}

pub open spec fn digit_char(d: nat) -> char {
    if d == 0 {
        '0'
    } else if d == 1 {
        '1'
    } else if d == 2 {
        '2'
    } else if d == 3 {
        '3'
    } else if d == 4 {
        '4'
    } else if d == 5 {
        '5'
    } else if d == 6 {
        '6'
    } else if d == 7 {
        '7'
    } else if d == 8 {
        '8'
    } else {
        '9'
    }
}

/// The decimal digits of a number, most significant first.
pub open spec fn dec_digits(n: nat) -> Seq<char>
    decreases n,
{
    if n < 10 {
        seq![digit_char(n)]
    } else {
        dec_digits(n / 10).push(digit_char(n % 10))
    }
}

/// Relies on std's `Display` for `u16`, which writes the number's decimal
/// digits.
#[verifier::external_body]
fn u16_to_string(n: u16) -> (r: String)
    ensures
        r@ == dec_digits(n as nat),
{
    n.to_string()
}

/// The printed form of an amount.
pub open spec fn amount_str(a: Amount) -> Seq<char> {
    decimal_str(a.spec_mantissa(), a.spec_scale())
}

pub open spec fn bool_str(b: bool) -> Seq<char> {
    if b {
        "true"@
    } else {
        "false"@
    }
}

/// One output row: client, available, held, total, locked.
pub open spec fn row_str(c: ClientView) -> Seq<char> {
    dec_digits(c.client as nat) + ","@ + amount_str(c.available) + ","@ + amount_str(c.held)
        + ","@ + amount_str(c.total) + ","@ + bool_str(c.locked) + "\n"@
}

pub open spec fn header_str() -> Seq<char> {
    "client,available,held,total,locked\n"@
}

pub open spec fn rows_str(s: Seq<ClientView>) -> Seq<char>
    decreases s.len(),
{
    if s.len() == 0 {
        Seq::empty()
    } else {
        rows_str(s.drop_last()) + row_str(s.last())
    }
}

/// The whole report: the header, then one row per ledger in order.  With
/// no ledgers at all, nothing is written, the header included.
pub open spec fn report_str(s: Seq<ClientView>) -> Seq<char> {
    if s.len() == 0 {
        Seq::empty()
    } else {
        header_str() + rows_str(s)
    }
}

/// The printed form of an amount's exact value.
pub fn amount_text(a: Amount) -> (r: String)
    ensures
        r@ == amount_str(a),
{
    proof {
        use_type_invariant(a);
        lemma_wf_mantissa_bound(a);
        lemma_pow10_28();
    }
    decimal_to_string(a.mantissa(), a.scale())
}

/// One CSV row for a client's final state.
pub fn client_csv_row(c: &Client) -> (r: String)
    ensures
        r@ == row_str(c@),
{
    let mut out = u16_to_string(c.client);
    out.append(",");
    let avail = amount_text(c.available);
    out.append(avail.as_str());
    out.append(",");
    let held = amount_text(c.held);
    out.append(held.as_str());
    out.append(",");
    let total = amount_text(c.total);
    out.append(total.as_str());
    out.append(",");
    if c.locked {
        out.append("true");
    } else {
        out.append("false");
    }
    out.append("\n");
    proof {
        assert(out@ =~= row_str(c@));
    }
    out
}

/// The final report over a registry: the header line, then one row per
/// client in first-seen order.
pub fn render_report(reg: &Registry) -> (r: String)
    ensures
        r@ == report_str(reg@),
{
    let n = reg.clients.len();
    if n == 0 {
        let empty = String::new();
        proof {
            assert(empty@ =~= report_str(reg@));
        }
        return empty;
    }
    let header: &str = "client,available,held,total,locked\n";
    let mut out = header.to_owned();
    let mut i: usize = 0;
    proof {
        assert(reg@.take(0) =~= Seq::<ClientView>::empty());
        assert(out@ =~= header_str() + rows_str(reg@.take(0)));
    }
    while i < n
        invariant
            i <= n,
            n == reg.clients@.len(),
            out@ == header_str() + rows_str(reg@.take(i as int)),
        decreases n - i,
    {
        let row = client_csv_row(&reg.clients[i]);
        out.append(row.as_str());
        proof {
            assert(reg@.take(i as int + 1).drop_last() =~= reg@.take(i as int));
            assert(reg@.take(i as int + 1).last() == reg@[i as int]);
            assert(reg@[i as int] == reg.clients@[i as int]@);
            assert(out@ =~= header_str() + rows_str(reg@.take(i as int + 1)));
        }
        i = i + 1;
    }
    proof {
        assert(reg@.take(n as int) =~= reg@);
    }
    out
}

} // verus!

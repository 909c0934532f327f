use vstd::prelude::*;
use vstd::string::StringExecFns;

verus! {

/// The decimal digit character of `d`, for `0 <= d < 10`.
pub open spec fn digit_char(d: int) -> char {
    seq!['0', '1', '2', '3', '4', '5', '6', '7', '8', '9'][d]
}

/// The decimal numeral of `n`: no sign, no leading zeros.
pub open spec fn decimal(n: nat) -> Seq<char>
    decreases n,
{
    if n < 10 {
        seq![digit_char(n as int)]
    } else {
        decimal(n / 10).push(digit_char((n % 10) as int))
    }
}

/// The score line for `day` Day cells and `night` Night cells, such as
/// `day 200 | night 200`.
pub open spec fn score_message(day: nat, night: nat) -> Seq<char> {
    seq!['d', 'a', 'y', ' '] + decimal(day) + seq![' ', '|', ' ', 'n', 'i', 'g', 'h', 't', ' ']
        + decimal(night)
}

/// Relies on `ToString::to_string` through `Display` for `usize`, which
/// writes the decimal numeral of the value.
#[verifier::external_body]
fn decimal_text(n: usize) -> (r: String)
    ensures
        r@ == decimal(n as nat),
{
    n.to_string()
}

/// The score line `day D | night N`.
pub fn score_text(day: usize, night: usize) -> (r: String)
    ensures
        r@ == score_message(day as nat, night as nat),
{
    let mut line = String::from_str("day ");
    let d = decimal_text(day);
    line.append(d.as_str());
    line.append(" | night ");
    let n = decimal_text(night);
    line.append(n.as_str());
    proof {
        reveal_strlit("day ");
        reveal_strlit(" | night ");
        assert(line@ =~= score_message(day as nat, night as nat));
    }
    line
}

} // verus!

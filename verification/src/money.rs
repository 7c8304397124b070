//! Amounts of money as they are shown.
use crate::double::{one, Double};
use crate::text::{comma_decimal, comma_decimal_text, comma_int, comma_text};
use vstd::prelude::*;
use vstd::string::*;

verus! {

/// An amount in dollars, with the texts that floating-point formatting gives for it.
#[derive(Debug)]
pub struct Money {
    pub amount: Double,
    /// The amount rounded to whole dollars.
    pub rounded: i64,
    /// The amount with one decimal.
    pub one_decimal: String,
    /// The amount with two decimals.
    pub two_decimals: String,
}

/// What an amount says.
pub struct MoneyView {
    pub amount: Double,
    pub rounded: i64,
    pub one_decimal: Seq<char>,
    pub two_decimals: Seq<char>,
}

impl View for Money {
    type V = MoneyView;

    open spec fn view(&self) -> MoneyView {
        MoneyView {
            amount: self.amount,
            rounded: self.rounded,
            one_decimal: self.one_decimal@,
            two_decimals: self.two_decimals@,
        }
    }
}

/// What may be an amount says.
pub open spec fn money_view(value: Option<Money>) -> Option<MoneyView> {
    match value {
        Some(m) => Some(m@),
        None => None,
    }
}

/// An amount as it is shown: the larger, the fewer decimals, with commas from thousands on.
pub open spec fn dollars_text(value: Option<MoneyView>) -> Seq<char> {
    match value {
        None => "n/a"@,
        Some(m) => "$"@ + if m.amount.is_number() && m.amount.value() >= 1000 * one() {
            comma_text(m.rounded)
        } else if m.amount.is_number() && m.amount.value() >= 100 * one() {
            comma_decimal_text(m.one_decimal, m.rounded)
        } else {
            m.two_decimals
        },
    }
}

/// An amount as it is shown.
pub fn dollars(value: &Option<Money>) -> (text: String)
    ensures
        text@ == dollars_text(money_view(*value)),
{
    match value {
        None => "n/a".to_owned(),
        Some(m) => {
            let mut out = "$".to_owned();
            if m.amount.at_least(1000) {
                out.append(comma_int(m.rounded).as_str());
            } else if m.amount.at_least(100) {
                out.append(comma_decimal(m.one_decimal.as_str(), m.rounded).as_str());
            } else {
                out.append(m.two_decimals.as_str());
            }
            out
        },
    }
}

/// An amount is shown in whole dollars from a thousand up, with one decimal from a hundred up, and else
/// with two; always after a dollar sign, and with commas where it is large. Without an amount there is
/// nothing to show.
pub proof fn law_larger_amounts_have_fewer_decimals(m: MoneyView)
    ensures
        m.amount.is_number() && m.amount.value() >= 1000 * one() ==> dollars_text(Some(m)) == "$"@
            + comma_text(m.rounded),
        m.amount.is_number() && 100 * one() <= m.amount.value() < 1000 * one() ==> dollars_text(
            Some(m),
        ) == "$"@ + comma_decimal_text(m.one_decimal, m.rounded),
        m.amount.is_number() && m.amount.value() < 100 * one() ==> dollars_text(Some(m)) == "$"@
            + m.two_decimals,
        !m.amount.is_number() ==> dollars_text(Some(m)) == "$"@ + m.two_decimals,
        dollars_text(None) == "n/a"@,
{
    vstd::arithmetic::power2::lemma_pow2_pos(1074);
}

} // verus!

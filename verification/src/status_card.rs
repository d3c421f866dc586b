//! The countdown to the next change of address.

use vstd::prelude::*;
use vstd::arithmetic::div_mod::lemma_fundamental_div_mod_converse;
use crate::number::{decimal, decimal_text, two_digit_text, two_digits};
use crate::time::Duration;

verus! {

#[derive(Clone, Debug, PartialEq, Eq)]
pub enum CountdownState {
    Duration(Duration),
    NotAvailable,
    Paused,
}

/// Hours, minutes and seconds of a day, with two digits each.
pub open spec fn clock_text(secs: nat) -> Seq<char> {
    two_digits(secs % 86_400 / 3_600) + ":"@ + two_digits(secs % 3_600 / 60) + ":"@ + two_digits(
        secs % 60,
    )
}

/// The text of a countdown: whole days, where there are any, and the time of day.
pub open spec fn countdown_text(countdown: CountdownState) -> Seq<char> {
    match countdown {
        CountdownState::Duration(d) => {
            if d.secs >= 86_400 {
                decimal(d.secs as nat / 86_400) + "天 "@ + clock_text(d.secs as nat)
            } else {
                clock_text(d.secs as nat)
            }
        },
        CountdownState::NotAvailable => "N/A"@,
        CountdownState::Paused => "已暂停"@,
    }
}

fn clock(secs: u64) -> (r: String)
    ensures
        r@ == clock_text(secs as nat),
{
    let mut r = two_digit_text(secs % 86_400 / 3_600);
    r.append(":");
    r.append(two_digit_text(secs % 3_600 / 60).as_str());
    r.append(":");
    r.append(two_digit_text(secs % 60).as_str());
    r
}

pub fn format_countdown(countdown: &CountdownState) -> (r: String)
    ensures
        r@ == countdown_text(*countdown),
{
    match countdown {
        CountdownState::Duration(duration) => {
            let total: u64 = duration.as_secs();
            let days: u64 = total / 86_400;
            if days > 0 {
                let mut r = decimal_text(days);
                r.append("天 ");
                r.append(clock(total).as_str());
                r
            } else {
                clock(total)
            }
        },
        CountdownState::NotAvailable => "N/A".to_owned(),
        CountdownState::Paused => "已暂停".to_owned(),
    }
}

/// A countdown shows the days, where there are any, and the hours, minutes and seconds that
/// the time is made of.
pub proof fn countdown_adds_up(days: nat, hours: nat, minutes: nat, seconds: nat, d: Duration)
    requires
        hours < 24,
        minutes < 60,
        seconds < 60,
        d.secs == 86_400 * days + 3_600 * hours + 60 * minutes + seconds,
    ensures
        countdown_text(CountdownState::Duration(d)) == (if days > 0 {
            decimal(days) + "天 "@
        } else {
            Seq::empty()
        }) + (two_digits(hours) + ":"@ + two_digits(minutes) + ":"@ + two_digits(seconds)),
{
    let s = d.secs as int;
    let in_day = 3_600 * hours + 60 * minutes + seconds;
    let in_hour = 60 * minutes + seconds;
    lemma_fundamental_div_mod_converse(s, 86_400, days as int, in_day as int);
    lemma_fundamental_div_mod_converse(in_day as int, 3_600, hours as int, in_hour as int);
    lemma_fundamental_div_mod_converse(s, 3_600, (24 * days + hours) as int, in_hour as int);
    lemma_fundamental_div_mod_converse(in_hour as int, 60, minutes as int, seconds as int);
    let all_minutes = 1_440 * days + 60 * hours + minutes;
    lemma_fundamental_div_mod_converse(s, 60, all_minutes as int, seconds as int);
    assert(clock_text(d.secs as nat) == two_digits(hours) + ":"@ + two_digits(minutes) + ":"@
        + two_digits(seconds));
    if days == 0 {
        assert(Seq::<char>::empty() + clock_text(d.secs as nat) =~= clock_text(d.secs as nat));
    }
}

} // verus!

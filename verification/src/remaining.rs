//! How the time left on a lock reads in the tray's refusal message.

use vstd::prelude::*;
use vstd::string::StringExecFns;
use crate::text::{decimal, is_digit, lemma_decimal_digits, lemma_decimal_injective, push_decimal};

verus! {

/// Whole minutes in `secs`, rounded up.
pub open spec fn minutes_up(secs: nat) -> nat {
    if secs % 60 == 0 { secs / 60 } else { secs / 60 + 1 }
}

/// "1 hour", or "H hours".
pub open spec fn hours_text(h: nat) -> Seq<char> {
    if h == 1 { "1 hour"@ } else { decimal(h) + " hours"@ }
}

/// The reading of `m` whole minutes: "less than a minute", "1 minute",
/// "N minutes" under an hour, then "1 hour" / "H hours", with " M min" added
/// when the minutes do not fall on the hour.
pub open spec fn minutes_text(m: nat) -> Seq<char> {
    if m == 0 {
        "less than a minute"@
    } else if m == 1 {
        "1 minute"@
    } else if m < 60 {
        decimal(m) + " minutes"@
    } else if m % 60 == 0 {
        hours_text(m / 60)
    } else {
        hours_text(m / 60) + " "@ + decimal(m % 60) + " min"@
    }
}

/// The reading of `secs` seconds: that of its minutes, rounded up.
pub open spec fn remaining_text(secs: nat) -> Seq<char> {
    minutes_text(minutes_up(secs))
}

/// Equal strings with equal endings have equal beginnings.
proof fn lemma_strip_suffix(x: Seq<char>, y: Seq<char>, t: Seq<char>)
    requires
        x + t == y + t,
    ensures
        x == y,
{
    assert(x =~= (x + t).subrange(0, x.len() as int));
    assert(y =~= (y + t).subrange(0, y.len() as int));
}

/// In `x + " " + d` with `d` a non-empty run of digits, the digits after the
/// last space are `d`.
proof fn lemma_split_at_space(x1: Seq<char>, d1: Seq<char>, x2: Seq<char>, d2: Seq<char>)
    requires
        x1 + " "@ + d1 == x2 + " "@ + d2,
        forall|k: int| 0 <= k < d1.len() ==> is_digit(#[trigger] d1[k]),
        forall|k: int| 0 <= k < d2.len() ==> is_digit(#[trigger] d2[k]),
    ensures
        d1 == d2,
        x1 == x2,
{
    reveal_strlit(" ");
    let y = x1 + " "@ + d1;
    let y2 = x2 + " "@ + d2;
    assert(y.len() == x1.len() + 1 + d1.len());
    assert(y2.len() == x2.len() + 1 + d2.len());
    if d1.len() < d2.len() {
        let p = y.len() - d1.len() - 1;
        assert(y[p] == ' ');
        assert(y2[p] == d2[p - x2.len() - 1]);
        assert(is_digit(d2[p - x2.len() - 1]));
    } else if d2.len() < d1.len() {
        let p = y.len() - d2.len() - 1;
        assert(y2[p] == ' ');
        assert(y[p] == d1[p - x1.len() - 1]);
        assert(is_digit(d1[p - x1.len() - 1]));
    } else {
        assert(d1 =~= y.subrange(y.len() - d1.len(), y.len() as int));
        assert(d2 =~= y2.subrange(y2.len() - d2.len(), y2.len() as int));
        lemma_strip_suffix(x1 + " "@, x2 + " "@, d1);
        lemma_strip_suffix(x1, x2, " "@);
    }
}

/// The last character of a reading tells its shape: "e" for under two
/// minutes, "s" for minutes or whole hours above one, "r" for one whole
/// hour, "n" for hours and minutes.
proof fn lemma_minutes_text_shape(m: nat)
    ensures
        minutes_text(m).len() >= 2,
        m == 0 ==> minutes_text(m).len() == 18,
        m == 1 ==> minutes_text(m).len() == 8,
        m <= 1 ==> minutes_text(m).last() == 'e',
        2 <= m < 60 ==> minutes_text(m).last() == 's' && minutes_text(m)[minutes_text(m).len() - 2] == 'e',
        m >= 60 && m % 60 == 0 && m / 60 == 1 ==> minutes_text(m).last() == 'r',
        m >= 60 && m % 60 == 0 && m / 60 != 1 ==> minutes_text(m).last() == 's' && minutes_text(m)[minutes_text(m).len() - 2] == 'r',
        m >= 60 && m % 60 != 0 ==> minutes_text(m).last() == 'n',
{
    reveal_strlit("less than a minute");
    reveal_strlit("1 minute");
    reveal_strlit(" minutes");
    reveal_strlit("1 hour");
    reveal_strlit(" hours");
    reveal_strlit(" min");
    reveal_strlit(" ");
    lemma_decimal_digits(m);
    lemma_decimal_digits(m / 60);
    lemma_decimal_digits(m % 60);
}

/// "H hours" determines the number of hours.
proof fn lemma_hours_text_injective(h1: nat, h2: nat)
    requires
        h1 >= 1,
        h2 >= 1,
        hours_text(h1) == hours_text(h2),
    ensures
        h1 == h2,
{
    reveal_strlit("1 hour");
    reveal_strlit(" hours");
    lemma_decimal_digits(h1);
    lemma_decimal_digits(h2);
    let t = hours_text(h1);
    if h1 != 1 && h2 != 1 {
        lemma_strip_suffix(decimal(h1), decimal(h2), " hours"@);
        lemma_decimal_injective(h1, h2);
    } else if h1 != 1 {
        assert(t.last() == 's');
    } else if h2 != 1 {
        assert(hours_text(h2).last() == 's');
    }
}

/// Distinct minute counts read differently.
proof fn lemma_minutes_text_injective(m1: nat, m2: nat)
    requires
        minutes_text(m1) == minutes_text(m2),
    ensures
        m1 == m2,
{
    lemma_minutes_text_shape(m1);
    lemma_minutes_text_shape(m2);
    lemma_decimal_digits(m1 % 60);
    lemma_decimal_digits(m2 % 60);
    let t = minutes_text(m1);
    if 2 <= m1 < 60 && 2 <= m2 < 60 {
        lemma_strip_suffix(decimal(m1), decimal(m2), " minutes"@);
        lemma_decimal_injective(m1, m2);
    } else if m1 >= 60 && m2 >= 60 && m1 % 60 == 0 && m2 % 60 == 0 {
        lemma_hours_text_injective(m1 / 60, m2 / 60);
    } else if m1 >= 60 && m2 >= 60 && m1 % 60 != 0 && m2 % 60 != 0 {
        lemma_strip_suffix(
            hours_text(m1 / 60) + " "@ + decimal(m1 % 60),
            hours_text(m2 / 60) + " "@ + decimal(m2 % 60),
            " min"@,
        );
        lemma_split_at_space(hours_text(m1 / 60), decimal(m1 % 60), hours_text(m2 / 60), decimal(m2 % 60));
        lemma_hours_text_injective(m1 / 60, m2 / 60);
        lemma_decimal_injective(m1 % 60, m2 % 60);
    }
}

/// Two times left read the same exactly when they round up to the same
/// number of minutes.
pub proof fn same_reading_iff_same_minutes(a: nat, b: nat)
    ensures
        remaining_text(a) == remaining_text(b) <==> minutes_up(a) == minutes_up(b),
{
    if remaining_text(a) == remaining_text(b) {
        lemma_minutes_text_injective(minutes_up(a), minutes_up(b));
    }
}

/// "H hours" (or "1 hour") followed, when `r` is not zero, by " R min".
pub open spec fn hours_and_minutes(h: nat, r: nat) -> Seq<char> {
    (if h == 1 { "1 hour"@ } else { decimal(h) + " hours"@ }) + (if r == 0 {
        Seq::<char>::empty()
    } else {
        " "@ + decimal(r) + " min"@
    })
}

/// The minutes shown are the seconds rounded up to whole minutes: none only
/// for no time at all, never less than the time left, and less than a
/// minute more than it.
pub proof fn minutes_round_up(secs: nat)
    ensures
        (minutes_up(secs) == 0) == (secs == 0),
        secs <= 60 * minutes_up(secs),
        secs > 0 ==> 60 * (minutes_up(secs) - 1) < secs,
{
}

/// A reading names exactly the minutes left: "less than a minute" for none,
/// the count of minutes under an hour, and from an hour on a number of
/// hours `h` and of minutes `r` below sixty with `60 * h + r` the minutes
/// left, the minutes shown only when there are some.
pub proof fn reading_shows_the_minutes_left(secs: nat)
    ensures
        minutes_up(secs) == 0 ==> remaining_text(secs) == "less than a minute"@,
        minutes_up(secs) == 1 ==> remaining_text(secs) == "1 minute"@,
        2 <= minutes_up(secs) < 60 ==> remaining_text(secs) == decimal(minutes_up(secs)) + " minutes"@,
        minutes_up(secs) >= 60 ==> exists|h: nat, r: nat|
            {
                &&& h >= 1
                &&& r < 60
                &&& 60 * h + r == minutes_up(secs)
                &&& remaining_text(secs) == #[trigger] hours_and_minutes(h, r)
            },
{
    let m = minutes_up(secs);
    if m >= 60 {
        let h = m / 60;
        let r = m % 60;
        let hours = if h == 1 { "1 hour"@ } else { decimal(h) + " hours"@ };
        if r == 0 {
            assert(hours + Seq::<char>::empty() =~= hours);
        } else {
            assert(hours + " "@ + decimal(r) + " min"@ =~= hours + (" "@ + decimal(r) + " min"@));
        }
        assert(60 * h + r == m);
        assert({
            &&& h >= 1
            &&& r < 60
            &&& 60 * h + r == minutes_up(secs)
            &&& remaining_text(secs) == hours_and_minutes(h, r)
        });
    }
}

/// Reads a number of seconds as the time left on a lock, in whole minutes
/// rounded up.
pub fn format_remaining(secs: u64) -> (res: String)
    ensures
        res@ == remaining_text(secs as nat),
{
    let mins: u64 = if secs % 60 == 0 { secs / 60 } else { secs / 60 + 1 };
    if mins == 0 {
        String::from_str("less than a minute")
    } else if mins == 1 {
        String::from_str("1 minute")
    } else if mins < 60 {
        let mut s = String::new();
        push_decimal(&mut s, mins);
        s.append(" minutes");
        s
    } else {
        let h: u64 = mins / 60;
        let rem: u64 = mins % 60;
        let mut s = if h == 1 {
            String::from_str("1 hour")
        } else {
            let mut t = String::new();
            push_decimal(&mut t, h);
            t.append(" hours");
            t
        };
        if rem != 0 {
            s.append(" ");
            push_decimal(&mut s, rem);
            s.append(" min");
        }
        s
    }
}

} // verus!

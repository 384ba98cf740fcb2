//! Short text forms of durations, line counts and whole numbers.
use vstd::prelude::*;

use crate::text::push_char;

verus! {

/// The decimal digit character for `d` in `0..10`.
pub open spec fn digit_char(d: nat) -> char {
    if d == 0 {
        '0'
    } else if d == 1 {
        '1'
    } else if d == 2 {
        '2'
    } else if d == 3 {
        '3'
    } else if d == 4 {
        '4'
    } else if d == 5 {
        '5'
    } else if d == 6 {
        '6'
    } else if d == 7 {
        '7'
    } else if d == 8 {
        '8'
    } else {
        '9'
    }
}

/// `n` written in base ten, without leading zeros.
pub open spec fn decimal(n: nat) -> Seq<char>
    decreases n,
{
    if n < 10 {
        seq![digit_char(n)]
    } else {
        decimal(n / 10).push(digit_char(n % 10))
    }
}

fn digit(d: u64) -> (c: char)
    requires
        d < 10,
    ensures
        c == digit_char(d as nat),
{
    if d == 0 {
        '0'
    } else if d == 1 {
        '1'
    } else if d == 2 {
        '2'
    } else if d == 3 {
        '3'
    } else if d == 4 {
        '4'
    } else if d == 5 {
        '5'
    } else if d == 6 {
        '6'
    } else if d == 7 {
        '7'
    } else if d == 8 {
        '8'
    } else {
        '9'
    }
}

/// Appends `n` in base ten to `out`.
pub fn push_decimal(out: &mut String, n: u64)
    ensures
        final(out)@ == old(out)@ + decimal(n as nat),
    decreases n,
{
    if n >= 10 {
        push_decimal(out, n / 10);
    }
    push_char(out, digit(n % 10));
    assert(n >= 10 ==> decimal(n as nat) == decimal((n / 10) as nat).push(digit_char((n % 10) as nat)));
}

/// `n` in base ten, as `format!("{n}")` writes it.
pub fn decimal_string(n: u64) -> (r: String)
    ensures
        r@ == decimal(n as nat),
{
    let mut r = String::new();
    push_decimal(&mut r, n);
    r
}

/// The whole days in `ms` milliseconds.
pub open spec fn days_of(ms: nat) -> nat {
    ms / 1000 / 86400
}

/// The whole hours in `ms` milliseconds past the last whole day.
pub open spec fn hours_of(ms: nat) -> nat {
    (ms / 1000 % 86400) / 3600
}

/// The whole minutes in `ms` milliseconds past the last whole hour.
pub open spec fn minutes_of(ms: nat) -> nat {
    (ms / 1000 % 3600) / 60
}

/// The whole seconds in `ms` milliseconds past the last whole minute.
pub open spec fn seconds_of(ms: nat) -> nat {
    ms / 1000 % 60
}

/// `3h17m`, `12m`, `45s` or `4d2h`: the two largest units that are
/// present, or only the largest below an hour, the seconds when less than a
/// minute has passed.
pub open spec fn duration_text(ms: nat) -> Seq<char> {
    if days_of(ms) > 0 {
        decimal(days_of(ms)) + seq!['d'] + decimal(hours_of(ms)) + seq!['h']
    } else if hours_of(ms) > 0 {
        decimal(hours_of(ms)) + seq!['h'] + decimal(minutes_of(ms)) + seq!['m']
    } else if minutes_of(ms) > 0 {
        decimal(minutes_of(ms)) + seq!['m']
    } else {
        decimal(seconds_of(ms)) + seq!['s']
    }
}

/// Format a duration in milliseconds as `3h17m`, `12m`, or `45s`. Always
/// two-component max; the smaller component is dropped when the larger is
/// hours or more.
pub fn duration_short(ms: u64) -> (r: String)
    ensures
        r@ == duration_text(ms as nat),
{
    let secs = ms / 1000;
    let days = secs / 86400;
    let hours = (secs % 86400) / 3600;
    let minutes = (secs % 3600) / 60;
    let seconds = secs % 60;
    let mut out = String::new();
    if days > 0 {
        push_decimal(&mut out, days);
        push_char(&mut out, 'd');
        push_decimal(&mut out, hours);
        push_char(&mut out, 'h');
    } else if hours > 0 {
        push_decimal(&mut out, hours);
        push_char(&mut out, 'h');
        push_decimal(&mut out, minutes);
        push_char(&mut out, 'm');
    } else if minutes > 0 {
        push_decimal(&mut out, minutes);
        push_char(&mut out, 'm');
    } else {
        push_decimal(&mut out, seconds);
        push_char(&mut out, 's');
    }
    assert(out@ == duration_text(ms as nat));
    out
}

/// The milliseconds from `now_epoch` until `target_epoch` (both in seconds),
/// zero when the target is not after now; the seconds saturate at
/// `i64::MAX` and the milliseconds at `u64::MAX`, as the subtraction and
/// the multiplication by a thousand do.
pub open spec fn remaining_ms(target_epoch: int, now_epoch: int) -> nat {
    let delta = target_epoch - now_epoch;
    let secs = if delta > i64::MAX {
        i64::MAX as int
    } else if delta < 0 {
        0
    } else {
        delta
    };
    if secs * 1000 > u64::MAX {
        u64::MAX as nat
    } else {
        (secs * 1000) as nat
    }
}

/// Format remaining time until a Unix epoch timestamp. Returns `0s` if the
/// target is in the past.
pub fn time_remaining(target_epoch: i64, now_epoch: i64) -> (r: String)
    ensures
        r@ == duration_text(remaining_ms(target_epoch as int, now_epoch as int)),
{
    let delta: i128 = target_epoch as i128 - now_epoch as i128;
    let secs: i128 = if delta > i64::MAX as i128 {
        i64::MAX as i128
    } else if delta < 0 {
        0
    } else {
        delta
    };
    let product: i128 = secs * 1000;
    let ms: u64 = if product > u64::MAX as i128 {
        u64::MAX
    } else {
        product as u64
    };
    duration_short(ms)
}

/// A reset time that is not in the future reads `0s`.
pub proof fn lemma_past_target_reads_zero_seconds(target_epoch: int, now_epoch: int)
    requires
        target_epoch <= now_epoch,
    ensures
        duration_text(remaining_ms(target_epoch, now_epoch)) == seq!['0', 's'],
{
    assert(remaining_ms(target_epoch, now_epoch) == 0);
    assert(decimal(0) == seq!['0']);
    assert(seq!['0'] + seq!['s'] =~= seq!['0', 's']);
}

/// `+24/-7`: the lines added and removed.
pub open spec fn lines_text(added: nat, removed: nat) -> Seq<char> {
    seq!['+'] + decimal(added) + seq!['/', '-'] + decimal(removed)
}

/// Format lines added and removed as `+added/-removed`.
pub fn lines(added: u64, removed: u64) -> (r: String)
    ensures
        r@ == lines_text(added as nat, removed as nat),
{
    let mut out = String::new();
    push_char(&mut out, '+');
    push_decimal(&mut out, added);
    push_char(&mut out, '/');
    push_char(&mut out, '-');
    push_decimal(&mut out, removed);
    assert(out@ =~= lines_text(added as nat, removed as nat));
    out
}

} // verus!

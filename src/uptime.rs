//! Durations in words: `360000` centiseconds is `"1 hour"`.
use vstd::prelude::*;
use smallvec::SmallVec;
use crate::bytes::bytes_text;
use crate::number::{decimal, push_decimal};
use crate::text::{push_str, string_of};

verus! {

/// A table of periods, each a length in seconds and a unit name, held in a
/// `SmallVec` that keeps up to eight of them inline.
#[verifier::external_body]
pub struct PeriodTable {
    entries: SmallVec<[(u64, &'static str); 8]>,
}

/// The entries of a period table: each length in seconds and the
/// characters of its unit name, in order.
pub uninterp spec fn period_entries(t: PeriodTable) -> Seq<(u64, Seq<char>)>;

/// Relies on `SmallVec::from_slice`: a vector holding copies of the slice's
/// items, in the same order.
#[verifier::external_body]
fn period_table_from(items: &[(u64, &'static str)]) -> (r: PeriodTable)
    ensures
        period_entries(r) == items@.map_values(|p: (u64, &'static str)| (p.0, p.1@)),
{
    PeriodTable { entries: SmallVec::from_slice(items) }
}

/// Relies on `SmallVec::len`: the number of items held.
#[verifier::external_body]
fn period_count(v: &PeriodTable) -> (r: usize)
    ensures
        r == period_entries(*v).len(),
{
    v.entries.len()
}

/// Relies on `SmallVec`'s `Index`, which indexes the slice of its items:
/// the item at index `i`, which is in bounds.
#[verifier::external_body]
fn period_at(v: &PeriodTable, i: usize) -> (r: (u64, &'static str))
    requires
        i < period_entries(*v).len(),
    ensures
        (r.0, r.1@) == period_entries(*v)[i as int],
{
    v.entries[i]
}

/// Periods from the longest to the shortest: a year of 365 days, a month of
/// 30 days, a day, an hour, a minute and a second, in seconds.
pub open spec fn periods() -> Seq<(u64, Seq<char>)> {
    seq![
        (31536000u64, "year"@),
        (2592000u64, "month"@),
        (86400u64, "day"@),
        (3600u64, "hour"@),
        (60u64, "minute"@),
        (1u64, "second"@),
    ]
}

/// One part of a duration: `count` units, the unit name in the plural when
/// the count exceeds one.
pub open spec fn duration_part(count: nat, name: Seq<char>) -> Seq<char> {
    decimal(count) + seq![' '] + name + if count > 1 {
        seq!['s']
    } else {
        Seq::<char>::empty()
    }
}

/// The text for `secs` seconds over the periods from index `i` on; `first`
/// tells whether nothing precedes it (else each part is preceded by a
/// space). Periods that fit zero times are left out.
pub open spec fn duration_from(secs: nat, i: nat, first: bool) -> Seq<char>
    decreases 6 - i,
{
    if i >= 6 {
        Seq::<char>::empty()
    } else {
        let p = periods()[i as int].0 as nat;
        let times = secs / p;
        if times > 0 {
            (if first {
                Seq::<char>::empty()
            } else {
                seq![' ']
            }) + duration_part(times, periods()[i as int].1) + duration_from(secs % p, i + 1, false)
        } else {
            duration_from(secs, i + 1, first)
        }
    }
}

/// A duration given in centiseconds as text: whole seconds only, split into
/// years, months, days, hours, minutes and seconds, empty for zero.
pub open spec fn uptime_text(centiseconds: nat) -> Seq<char> {
    duration_from(centiseconds / 100, 0, true)
}

/// The time given in centiseconds in words, from the largest unit down,
/// leaving out units that count zero: `6000` is `"1 minute"`, two days are
/// `"2 days"`, zero is the empty string.
pub fn get_uptime(uptime_in_centiseconds: usize) -> (r: String)
    ensures
        r@ == uptime_text(uptime_in_centiseconds as nat),
{
    let table: [(u64, &'static str); 6] = [
        (31536000, "year"),
        (2592000, "month"),
        (86400, "day"),
        (3600, "hour"),
        (60, "minute"),
        (1, "second"),
    ];
    let periods_held = period_table_from(&table);
    assert(period_entries(periods_held) =~= periods());
    let n = period_count(&periods_held);
    let mut secs: u64 = (uptime_in_centiseconds / 100) as u64;
    let mut out: Vec<char> = Vec::new();
    let mut i: usize = 0;
    while i < n
        invariant
            n == 6,
            i <= 6,
            period_entries(periods_held) == periods(),
            out@ + duration_from(secs as nat, i as nat, out@.len() == 0) == uptime_text(
                uptime_in_centiseconds as nat,
            ),
        decreases 6 - i,
    {
        let (period, name) = period_at(&periods_held, i);
        assert(period > 0);
        let times = secs / period;
        let ghost before = out@;
        if times > 0 {
            if out.len() > 0 {
                out.push(' ');
            }
            push_decimal(&mut out, times as u128);
            out.push(' ');
            push_str(&mut out, name);
            if times > 1 {
                out.push('s');
            }
            secs = secs % period;
            assert(out@.len() > 0);
            assert(out@ =~= before + (if before.len() == 0 {
                Seq::<char>::empty()
            } else {
                seq![' ']
            }) + duration_part(times as nat, name@));
        }
        i = i + 1;
    }
    string_of(&out)
}

/// Formatting is a function of its input: equal inputs give equal text,
/// for byte counts and for durations alike.
pub proof fn lemma_formatting_is_deterministic(a: int, b: int, c: nat, d: nat)
    requires
        a == b,
        c == d,
    ensures
        bytes_text(a) == bytes_text(b),
        uptime_text(c) == uptime_text(d),
{
}

} // verus!

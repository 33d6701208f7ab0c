//! Parsers for the kernel's and the distribution's descriptor files:
//! `/etc/os-release`, `/proc/cpuinfo`, the CPU frequency limit in sysfs,
//! and the buffer that the host name query fills.
use vstd::prelude::*;
use vstd::utf8::{decode_utf8, valid_utf8};
use crate::number::{hundredths, parse_unsigned, round_half_even, div_round_half_even, parse_u64, push_hundredths};
use crate::text::{
    chars_of, count_until, drop_items, has_prefix_at, lines, next_line, push_str, string_of,
    string_of_range, trim_bounds, trim_quotes, trim_white,
};

verus! {

/// The value of the first `PRETTY_NAME` line: the line's text from its
/// fourteenth character on (after `PRETTY_NAME="`), with the quotes at
/// either end removed; `"Linux"` when no line starts with that key.
pub open spec fn pretty_name_in(ls: Seq<Seq<char>>) -> Seq<char>
    decreases ls.len(),
{
    if ls.len() == 0 {
        "Linux"@
    } else if ls[0].len() >= 11 && ls[0].subrange(0, 11) == "PRETTY_NAME"@ {
        trim_quotes(drop_items(ls[0], 13))
    } else {
        pretty_name_in(ls.drop_first())
    }
}

/// The distribution's name as an `os-release` file gives it.
pub open spec fn os_release_name(text: Seq<char>) -> Seq<char> {
    pretty_name_in(lines(text))
}

/// `s` up to its first `@`.
pub open spec fn before_at(s: Seq<char>) -> Seq<char> {
    s.subrange(0, count_until(s, '@') as int)
}

/// The CPU model of the first line of at least eleven characters that
/// starts with `model name`: the text from its thirteenth character on, up
/// to any `@`, with white space trimmed at both ends.
pub open spec fn model_name_in(ls: Seq<Seq<char>>) -> Option<Seq<char>>
    decreases ls.len(),
{
    if ls.len() == 0 {
        None
    } else if ls[0].len() >= 11 && ls[0].subrange(0, 10) == "model name"@ {
        Some(trim_white(before_at(drop_items(ls[0], 12))))
    } else {
        model_name_in(ls.drop_first())
    }
}

/// The CPU model as a `cpuinfo` file gives it.
pub open spec fn cpuinfo_model(text: Seq<char>) -> Option<Seq<char>> {
    model_name_in(lines(text))
}

/// A frequency limit in kHz, as the kernel writes it, in GHz with two
/// decimals (rounded to the nearest hundredth, ties to even); `None` when
/// the text, trimmed, is not an unsigned integer.
pub open spec fn max_freq_text(text: Seq<char>) -> Option<Seq<char>> {
    match parse_unsigned(trim_white(text)) {
        Some(khz) => Some(hundredths(round_half_even(khz as nat, 10000)) + " GHz"@),
        None => None,
    }
}

/// The bytes of a host name buffer up to its first NUL.
pub open spec fn hostname_bytes(buffer: Seq<u8>) -> Seq<u8> {
    buffer.subrange(0, count_until(buffer, 0u8) as int)
}

/// Relies on `String::from_utf8`: it succeeds exactly on valid UTF-8, and
/// the string then holds the decoded characters.
#[verifier::external_body]
fn utf8_to_string(bytes: Vec<u8>) -> (r: Option<String>)
    ensures
        r is Some <==> valid_utf8(bytes@),
        r matches Some(s) ==> s@ == decode_utf8(bytes@),
{
    String::from_utf8(bytes).ok()
}

/// The distribution's pretty name in the text of an `os-release` file:
/// `PRETTY_NAME="Test Linux"` gives `Test Linux`, a text without that key
/// gives `Linux`.
pub fn distro_from_os_release(text: &str) -> (r: String)
    ensures
        r@ == os_release_name(text@),
{
    let cs = chars_of(text);
    let key = chars_of("PRETTY_NAME");
    proof {
        reveal_strlit("PRETTY_NAME");
    }
    let mut pos: usize = 0;
    assert(cs@.subrange(0, cs@.len() as int) =~= cs@);
    while pos < cs.len()
        invariant
            pos <= cs@.len(),
            key@ == "PRETTY_NAME"@,
            key@.len() == 11,
            os_release_name(text@) == pretty_name_in(lines(cs@.subrange(pos as int, cs@.len() as int))),
            cs@ == text@,
        decreases cs@.len() - pos,
    {
        let (end, next) = next_line(&cs, pos);
        let ghost line = cs@.subrange(pos as int, end as int);
        let ghost ls = lines(cs@.subrange(pos as int, cs@.len() as int));
        assert(ls[0] == line);
        assert(ls.drop_first() =~= lines(cs@.subrange(next as int, cs@.len() as int)));
        if has_prefix_at(&cs, pos, end, &key) {
            assert(line.subrange(0, 11) =~= cs@.subrange(pos as int, pos + 11));
            let lo: usize = if end - pos >= 13 {
                pos + 13
            } else {
                end
            };
            assert(cs@.subrange(lo as int, end as int) =~= drop_items(line, 13));
            let (a, b) = trim_bounds(&cs, lo, end, true);
            return string_of_range(&cs, a, b);
        }
        assert(!(line.len() >= 11 && line.subrange(0, 11) == "PRETTY_NAME"@)) by {
            if line.len() >= 11 {
                assert(line.subrange(0, 11) =~= cs@.subrange(pos as int, pos + 11));
            }
        }
        pos = next;
    }
    assert(cs@.subrange(pos as int, cs@.len() as int) =~= Seq::<char>::empty());
    let mut out: Vec<char> = Vec::new();
    push_str(&mut out, "Linux");
    string_of(&out)
}

/// The CPU model in the text of a `cpuinfo` file, without the frequency
/// that some vendors append after an `@`; `None` when no line names it.
pub fn cpu_model_from_cpuinfo(text: &str) -> (r: Option<String>)
    ensures
        r matches Some(s) ==> cpuinfo_model(text@) == Some(s@),
        r is None ==> cpuinfo_model(text@) is None,
{
    let cs = chars_of(text);
    let key = chars_of("model name");
    proof {
        reveal_strlit("model name");
    }
    let mut pos: usize = 0;
    assert(cs@.subrange(0, cs@.len() as int) =~= cs@);
    while pos < cs.len()
        invariant
            pos <= cs@.len(),
            key@ == "model name"@,
            key@.len() == 10,
            cpuinfo_model(text@) == model_name_in(lines(cs@.subrange(pos as int, cs@.len() as int))),
            cs@ == text@,
        decreases cs@.len() - pos,
    {
        let (end, next) = next_line(&cs, pos);
        let ghost line = cs@.subrange(pos as int, end as int);
        let ghost ls = lines(cs@.subrange(pos as int, cs@.len() as int));
        assert(ls[0] == line);
        assert(ls.drop_first() =~= lines(cs@.subrange(next as int, cs@.len() as int)));
        if end - pos >= 11 && has_prefix_at(&cs, pos, end, &key) {
            assert(line.subrange(0, 10) =~= cs@.subrange(pos as int, pos + 10));
            let lo: usize = if end - pos >= 12 {
                pos + 12
            } else {
                end
            };
            let ghost rest = cs@.subrange(lo as int, end as int);
            assert(rest =~= drop_items(line, 12));
            let mut at: usize = lo;
            while at < end && cs[at] != '@'
                invariant
                    lo <= at <= end <= cs@.len(),
                    rest == cs@.subrange(lo as int, end as int),
                    count_until(rest, '@') == (at - lo) + count_until(cs@.subrange(at as int, end as int), '@'),
                decreases end - at,
            {
                assert(cs@.subrange(at as int, end as int).drop_first() =~= cs@.subrange(at + 1, end as int));
                at = at + 1;
            }
            assert(before_at(rest) =~= cs@.subrange(lo as int, at as int));
            let (a, b) = trim_bounds(&cs, lo, at, false);
            return Some(string_of_range(&cs, a, b));
        }
        assert(!(line.len() >= 11 && line.subrange(0, 10) == "model name"@)) by {
            if line.len() >= 11 {
                assert(line.subrange(0, 10) =~= cs@.subrange(pos as int, pos + 10));
            }
        }
        pos = next;
    }
    assert(cs@.subrange(pos as int, cs@.len() as int) =~= Seq::<char>::empty());
    None
}

/// The CPU's frequency limit, given as the text of a `scaling_max_freq`
/// file (kHz), in GHz: `3200000` gives `3.20 GHz`; `None` when the text is
/// not an unsigned integer.
pub fn cpu_max_freq_from_text(text: &str) -> (r: Option<String>)
    ensures
        r matches Some(s) ==> max_freq_text(text@) == Some(s@),
        r is None ==> max_freq_text(text@) is None,
{
    let cs = chars_of(text);
    let (a, b) = trim_bounds(&cs, 0, cs.len(), false);
    assert(cs@.subrange(0, cs@.len() as int) =~= cs@);
    let mut digits: Vec<char> = Vec::new();
    let mut j: usize = a;
    while j < b
        invariant
            a <= j <= b <= cs@.len(),
            digits@ == cs@.subrange(a as int, j as int),
        decreases b - j,
    {
        digits.push(cs[j]);
        j = j + 1;
        assert(digits@ =~= cs@.subrange(a as int, j as int));
    }
    match parse_u64(&digits) {
        Some(khz) => {
            let q = div_round_half_even(khz as u128, 10000);
            let mut out: Vec<char> = Vec::new();
            push_hundredths(&mut out, q);
            push_str(&mut out, " GHz");
            Some(string_of(&out))
        },
        None => None,
    }
}

/// The host name held in a buffer that the system filled: the bytes up to
/// the first NUL (or all of them), decoded as UTF-8; `None` when they are
/// not valid UTF-8.
pub fn hostname_from_buffer(buffer: Vec<u8>) -> (r: Option<String>)
    ensures
        r is Some <==> valid_utf8(hostname_bytes(buffer@)),
        r matches Some(s) ==> s@ == decode_utf8(hostname_bytes(buffer@)),
{
    let mut buffer = buffer;
    let ghost original = buffer@;
    let mut end: usize = 0;
    assert(original.subrange(0, original.len() as int) =~= original);
    while end < buffer.len() && buffer[end] != 0
        invariant
            end <= buffer@.len(),
            buffer@ == original,
            count_until(original, 0u8) == end + count_until(original.subrange(end as int, original.len() as int), 0u8),
        decreases buffer@.len() - end,
    {
        assert(original.subrange(end as int, original.len() as int).drop_first() =~= original.subrange(
            end + 1,
            original.len() as int,
        ));
        end = end + 1;
    }
    assert(original.subrange(end as int, original.len() as int).len() == 0 ==> count_until(original.subrange(end as int, original.len() as int), 0u8) == 0);
    buffer.truncate(end);
    assert(buffer@ =~= hostname_bytes(original));
    utf8_to_string(buffer)
}

} // verus!

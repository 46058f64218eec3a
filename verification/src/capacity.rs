//! Capacity probing: how many bytes a target is expected to take.
//!
//! The device is asked first. Its answer is text that should hold one byte count.
//! When that gives no size, the filesystem's free space takes its place. The
//! number only sizes the progress display; it never bounds the writes.

use vstd::prelude::*;
use vstd::string::*;
use crate::report::{fallback_notice, fallback_text, invalid_size_reason, invalid_size_text,
    no_capacity_line, no_capacity_text};

verus! {

/// The characters that trimming removes: those with the Unicode property `White_Space`.
pub open spec fn is_whitespace(c: char) -> bool {
    let n: u32 = c as u32;
    ||| 0x09 <= n <= 0x0d
    ||| n == 0x20
    ||| n == 0x85
    ||| n == 0xa0
    ||| n == 0x1680
    ||| 0x2000 <= n <= 0x200a
    ||| n == 0x2028
    ||| n == 0x2029
    ||| n == 0x202f
    ||| n == 0x205f
    ||| n == 0x3000
}

/// The ten decimal digits.
pub open spec fn is_digit(c: char) -> bool {
    0x30 <= c as u32 <= 0x39
}

/// The number a digit stands for; zero for any other character.
pub open spec fn digit_value(c: char) -> nat {
    if is_digit(c) {
        (c as u32 - 0x30) as nat
    } else {
        0
    }
}

/// `s` without its leading whitespace.
pub open spec fn trim_start(s: Seq<char>) -> Seq<char>
    decreases s.len(),
{
    if s.len() > 0 && is_whitespace(s[0]) {
        trim_start(s.skip(1))
    } else {
        s
    }
}

/// `s` without its trailing whitespace.
pub open spec fn trim_end(s: Seq<char>) -> Seq<char>
    decreases s.len(),
{
    if s.len() > 0 && is_whitespace(s.last()) {
        trim_end(s.drop_last())
    } else {
        s
    }
}

/// `s` without the whitespace at either end.
pub open spec fn trim(s: Seq<char>) -> Seq<char> {
    trim_end(trim_start(s))
}

/// Whether every character of `d` is a decimal digit.
pub open spec fn all_digits(d: Seq<char>) -> bool {
    forall|i: int| 0 <= i < d.len() ==> is_digit(#[trigger] d[i])
}

/// The number that the digits `d` write in base ten.
pub open spec fn decimal(d: Seq<char>) -> nat
    decreases d.len(),
{
    if d.len() == 0 {
        0
    } else {
        10 * decimal(d.drop_last()) + digit_value(d.last())
    }
}

/// `t` without one leading plus sign.
pub open spec fn unsigned(t: Seq<char>) -> Seq<char> {
    if t.len() > 0 && t[0] == '+' {
        t.skip(1)
    } else {
        t
    }
}

/// The byte count that a device answer holds: after trimming, an optional plus sign
/// and at least one digit, nothing else, with a value that fits 64 bits.
pub open spec fn size_of_text(s: Seq<char>) -> Option<u64> {
    let d = unsigned(trim(s));
    if d.len() > 0 && all_digits(d) && decimal(d) <= u64::MAX {
        Some(decimal(d) as u64)
    } else {
        None
    }
}

/// A number never gets smaller when digits are appended to it.
proof fn lemma_decimal_prefix(d: Seq<char>, k: int)
    requires
        0 <= k <= d.len(),
    ensures
        decimal(d.take(k)) <= decimal(d),
    decreases d.len(),
{
    if k == d.len() {
        assert(d.take(k) =~= d);
    } else {
        lemma_decimal_prefix(d.drop_last(), k);
        assert(d.drop_last().take(k) =~= d.take(k));
    }
}

/// What the device query prints is read as it stands: digits that write a number
/// of 64 bits, followed by a line break, give that number.
pub proof fn lemma_printed_number_is_read(digits: Seq<char>)
    requires
        digits.len() > 0,
        all_digits(digits),
        decimal(digits) <= u64::MAX,
    ensures
        size_of_text(digits.push('\n')) == Some(decimal(digits) as u64),
        size_of_text(digits) == Some(decimal(digits) as u64),
{
    let line = digits.push('\n');
    assert(is_digit(digits[0]) && is_digit(digits.last()));
    assert(line[0] == digits[0]);
    assert(line.drop_last() =~= digits);
    assert(is_whitespace(line.last()));
    assert(trim_end(line) == digits);
    assert(trim_end(digits) == digits);
}

/// Tells whether trimming removes `c`.
fn whitespace(c: char) -> (yes: bool)
    ensures
        yes == is_whitespace(c),
{
    let n: u32 = c as u32;
    (0x09 <= n && n <= 0x0d) || n == 0x20 || n == 0x85 || n == 0xa0 || n == 0x1680 || (0x2000 <= n
        && n <= 0x200a) || n == 0x2028 || n == 0x2029 || n == 0x202f || n == 0x205f || n == 0x3000
}

/// Lays the characters of `text` out for access by position.
fn characters(text: &str) -> (chars: Vec<char>)
    ensures
        chars@ == text@,
{
    let mut chars: Vec<char> = Vec::new();
    for c in it: text.chars()
        invariant
            it.seq() == text@,
            chars@ == it.seq().take(it.index() as int),
    {
        chars.push(c);
    }
    chars
}

/// Reads the byte count out of a device answer.
///
/// Whitespace around the number is ignored and one leading `+` is accepted. Anything
/// else, an empty answer, or a number above `u64::MAX` gives `None`.
pub fn parse_size(text: &str) -> (size: Option<u64>)
    ensures
        size == size_of_text(text@),
{
    let chars = characters(text);
    let n: usize = chars.len();
    let ghost s = chars@;
    let mut a: usize = 0;
    assert(s.skip(0) =~= s);
    while a < n && whitespace(chars[a])
        invariant
            a <= n,
            n == s.len(),
            s == chars@,
            trim_start(s) == trim_start(s.skip(a as int)),
        decreases n - a,
    {
        assert(s.skip(a as int).skip(1) =~= s.skip(a + 1));
        a = a + 1;
    }
    let ghost front = s.skip(a as int);
    assert(trim_start(s) == front);
    let mut b: usize = n;
    while b > a && whitespace(chars[b - 1])
        invariant
            a <= b <= n,
            n == s.len(),
            s == chars@,
            front == s.skip(a as int),
            trim_end(front) == trim_end(s.subrange(a as int, b as int)),
        decreases b,
    {
        assert(s.subrange(a as int, b as int).drop_last() =~= s.subrange(a as int, b - 1));
        b = b - 1;
    }
    let ghost core = s.subrange(a as int, b as int);
    assert(trim(s) == core) by {
        assert(s.subrange(a as int, n as int) =~= front);
    }
    let mut i: usize = a;
    if i < b && chars[i] == '+' {
        i = i + 1;
    }
    let ghost d = s.subrange(i as int, b as int);
    assert(unsigned(core) == d) by {
        if i > a {
            assert(core.skip(1) =~= s.subrange(a + 1, b as int));
        }
    }
    if i == b {
        return None;
    }
    let mut value: u64 = 0;
    let mut k: usize = i;
    while k < b
        invariant
            i <= k <= b <= n,
            n == s.len(),
            s == chars@,
            d == s.subrange(i as int, b as int),
            d == unsigned(trim(text@)),
            all_digits(d.take(k - i)),
            value == decimal(d.take(k - i)),
        decreases b - k,
    {
        let c = chars[k];
        let code: u32 = c as u32;
        if code < 0x30 || code > 0x39 {
            assert(!is_digit(d[k - i]));
            return None;
        }
        let digit: u64 = (code - 0x30) as u64;
        assert(d.take(k - i + 1).drop_last() =~= d.take(k - i));
        assert(decimal(d.take(k - i + 1)) == 10 * value + digit);
        if value > (u64::MAX - digit) / 10 {
            proof {
                lemma_decimal_prefix(d, k - i + 1);
            }
            return None;
        }
        value = value * 10 + digit;
        k = k + 1;
    }
    assert(d.take(k - i) =~= d);
    Some(value)
}

/// What the device query gave back.
pub enum DeviceAnswer {
    /// The query ran and printed this text.
    Output(String),
    /// The query could not run, or printed what is no text; the reason why.
    Failed(String),
}

/// What the prober decides after the answers it has.
pub enum ProbeStep {
    /// The capacity in bytes.
    Known(u64),
    /// The device gave no size: show the notice and ask the filesystem.
    AskFilesystem { notice: String },
    /// Neither query gave a size: show the line and give this target up.
    Fatal { line: String },
}

/// The size that a device answer gives, if it gives one.
pub open spec fn device_size(answer: DeviceAnswer) -> Option<u64> {
    match answer {
        DeviceAnswer::Output(text) => size_of_text(text@),
        DeviceAnswer::Failed(_) => None,
    }
}

/// Why a device answer gave no size.
pub open spec fn device_reason(answer: DeviceAnswer) -> Seq<char> {
    match answer {
        DeviceAnswer::Output(text) => invalid_size_text(text@),
        DeviceAnswer::Failed(reason) => reason@,
    }
}

/// Decides the capacity of `target` from the device's answer and, once it was asked,
/// the filesystem's (`None` while it was not).
///
/// A size in the device's answer is the capacity, whatever the filesystem says.
/// Without one the filesystem is asked, and its free space is the capacity. Only
/// when both fail is the target given up.
pub fn freespace(target: &str, device: &DeviceAnswer, filesystem: &Option<Result<u64, String>>) -> (step: ProbeStep)
    ensures
        (match (device_size(*device), *filesystem) {
            (Some(size), _) => step == ProbeStep::Known(size),
            (None, None) => step matches ProbeStep::AskFilesystem { notice } && notice@
                == fallback_text(device_reason(*device)),
            (None, Some(Ok(free))) => step == ProbeStep::Known(free),
            (None, Some(Err(reason))) => step matches ProbeStep::Fatal { line } && line@
                == no_capacity_text(target@, reason@),
        }),
{
    let primary = match device {
        DeviceAnswer::Output(text) => parse_size(text.as_str()),
        DeviceAnswer::Failed(_) => None,
    };
    match primary {
        Some(size) => ProbeStep::Known(size),
        None => match filesystem {
            None => {
                let notice = match device {
                    DeviceAnswer::Output(text) => {
                        let reason = invalid_size_reason(text.as_str());
                        fallback_notice(reason.as_str())
                    },
                    DeviceAnswer::Failed(reason) => fallback_notice(reason.as_str()),
                };
                ProbeStep::AskFilesystem { notice }
            },
            Some(Ok(free)) => ProbeStep::Known(*free),
            Some(Err(reason)) => ProbeStep::Fatal { line: no_capacity_line(target, reason.as_str()) },
        },
    }
}

} // verus!

//! The pid file: the process id of the last child in decimal, kept so that a
//! later start can find and end a core that an earlier supervisor left behind.

use crate::text::{chars_of, is_space, trim, trim_range};
use vstd::prelude::*;

verus! {

/// Whether `c` is one of the digits `0` to `9`.
pub open spec fn is_digit(c: char) -> bool {
    0x30 <= c as u32 <= 0x39
}

/// The digit for a number below ten.
pub open spec fn digit_char(d: nat) -> char {
    (0x30 + d) as char
}

/// The number that a sequence of digits stands for in decimal.
pub open spec fn digits_value(digits: Seq<char>) -> nat
    decreases digits.len(),
{
    if digits.len() == 0 {
        0
    } else {
        digits_value(digits.drop_last()) * 10 + (digits.last() as u32 - 0x30) as nat
    }
}

/// Whether every character of `text` is a digit.
pub open spec fn all_digits(text: Seq<char>) -> bool {
    forall|i: int| 0 <= i < text.len() ==> is_digit(#[trigger] text[i])
}

/// The decimal form of `n`, without a sign and without leading zeros.
pub open spec fn decimal(n: nat) -> Seq<char>
    decreases n,
{
    if n < 10 {
        seq![digit_char(n)]
    } else {
        decimal(n / 10).push(digit_char(n % 10))
    }
}

/// The process id that `text` is the decimal form of: one or more digits,
/// with `+` allowed before them, that stand for a number of 32 bits.
pub open spec fn parse_u32(text: Seq<char>) -> Option<u32> {
    if text.len() > 0 && text.first() == '+' {
        number_of(text.drop_first())
    } else {
        number_of(text)
    }
}

/// The number of 32 bits that one or more digits stand for.
pub open spec fn number_of(digits: Seq<char>) -> Option<u32> {
    if digits.len() > 0 && all_digits(digits) && digits_value(digits) <= u32::MAX {
        Some(digits_value(digits) as u32)
    } else {
        None
    }
}

/// The process id that a pid file with this content names, if it names one:
/// white space around the number is passed over.
pub open spec fn parse_pid(content: Seq<char>) -> Option<u32> {
    parse_u32(trim(content))
}

/// What to do about the process of an earlier run.
#[derive(Debug, Clone, Copy, PartialEq, Eq, Structural)]
pub enum ReapPlan {
    /// There is no pid file, or it names no process: nothing is to be done.
    Nothing,
    /// End the process `pid` together with its descendants, then remove the
    /// pid file, whether or not the process could be ended.
    KillAndRemove { pid: u32 },
}

/// The plan for a pid file with this content; `None` stands for a file that
/// is absent or cannot be read.
pub open spec fn reap_plan_of(content: Option<Seq<char>>) -> ReapPlan {
    match content {
        None => ReapPlan::Nothing,
        Some(content) => match parse_pid(content) {
            None => ReapPlan::Nothing,
            Some(pid) => ReapPlan::KillAndRemove { pid },
        },
    }
}

fn digit_str(d: u32) -> (digit: &'static str)
    requires
        d < 10,
    ensures
        digit@ == seq![digit_char(d as nat)],
{
    proof {
        reveal_strlit("0");
        reveal_strlit("1");
        reveal_strlit("2");
        reveal_strlit("3");
        reveal_strlit("4");
        reveal_strlit("5");
        reveal_strlit("6");
        reveal_strlit("7");
        reveal_strlit("8");
        reveal_strlit("9");
    }
    let digit = if d == 0 {
        "0"
    } else if d == 1 {
        "1"
    } else if d == 2 {
        "2"
    } else if d == 3 {
        "3"
    } else if d == 4 {
        "4"
    } else if d == 5 {
        "5"
    } else if d == 6 {
        "6"
    } else if d == 7 {
        "7"
    } else if d == 8 {
        "8"
    } else {
        "9"
    };
    assert(digit@ =~= seq![digit_char(d as nat)]);
    digit
}

/// The content of the pid file for the child `pid`.
pub fn pid_file_content(pid: u32) -> (content: String)
    ensures
        content@ == decimal(pid as nat),
    decreases pid,
{
    if pid < 10 {
        digit_str(pid).to_owned()
    } else {
        let content = pid_file_content(pid / 10).concat(digit_str(pid % 10));
        assert(content@ =~= decimal(pid as nat));
        content
    }
}

proof fn lemma_digits_value_grows(digits: Seq<char>, k: int)
    requires
        0 <= k <= digits.len(),
        all_digits(digits),
    ensures
        digits_value(digits.take(k)) <= digits_value(digits),
    decreases digits.len() - k,
{
    if k == digits.len() {
        assert(digits.take(k) =~= digits);
    } else {
        lemma_digits_value_grows(digits, k + 1);
        let longer = digits.take(k + 1);
        assert(longer.drop_last() =~= digits.take(k));
        assert(is_digit(digits[k]));
        assert(longer.last() == digits[k]);
    }
}

fn parse_digits(chars: &Vec<char>, first: usize, end: usize) -> (number: Option<u32>)
    requires
        first <= end <= chars.len(),
    ensures
        number == number_of(chars@.subrange(first as int, end as int)),
{
    let ghost digits = chars@.subrange(first as int, end as int);
    if first == end {
        return None;
    }
    let mut at: usize = first;
    let mut value: u64 = 0;
    while at < end
        invariant
            first <= at <= end <= chars.len(),
            digits == chars@.subrange(first as int, end as int),
            forall|i: int| 0 <= i < at - first ==> is_digit(#[trigger] digits[i]),
            value == digits_value(digits.take(at - first)),
            value <= u32::MAX,
        decreases end - at,
    {
        let code = chars[at] as u32;
        assert(digits[at - first] == chars@[at as int]);
        if code < 0x30 || code > 0x39 {
            assert(!is_digit(digits[at - first]));
            return None;
        }
        let ghost longer = digits.take(at - first + 1);
        assert(longer.drop_last() =~= digits.take(at - first));
        assert(longer.last() == digits[at - first]);
        value = value * 10 + (code - 0x30) as u64;
        at += 1;
        if value > 0xFFFF_FFFF {
            proof {
                if all_digits(digits) {
                    lemma_digits_value_grows(digits, at - first);
                }
            }
            return None;
        }
    }
    assert(digits.take(end - first) =~= digits);
    Some(value as u32)
}

/// Reads the process id that a pid file with this content names.
pub fn parse_pid_file(content: &str) -> (pid: Option<u32>)
    ensures
        pid == parse_pid(content@),
{
    let chars = chars_of(content);
    assert(chars@.subrange(0, chars@.len() as int) =~= chars@);
    let (start, end) = trim_range(&chars, 0, chars.len());
    let ghost trimmed = chars@.subrange(start as int, end as int);
    if start < end && chars[start] == '+' {
        assert(trimmed.first() == '+');
        assert(trimmed.drop_first() =~= chars@.subrange(start + 1, end as int));
        parse_digits(&chars, start + 1, end)
    } else {
        proof {
            if trimmed.len() > 0 {
                assert(trimmed.first() == chars@[start as int]);
            }
        }
        parse_digits(&chars, start, end)
    }
}

/// Decides what to do about the process of an earlier run, from the content
/// of the pid file; `None` stands for a file that is absent or cannot be
/// read.
pub fn reap_plan(content: Option<&str>) -> (plan: ReapPlan)
    ensures
        plan == reap_plan_of(
            match content {
                Some(content) => Some(content@),
                None => None,
            },
        ),
{
    match content {
        None => ReapPlan::Nothing,
        Some(content) => match parse_pid_file(content) {
            None => ReapPlan::Nothing,
            Some(pid) => ReapPlan::KillAndRemove { pid },
        },
    }
}

proof fn lemma_decimal_is_digits(n: nat)
    ensures
        decimal(n).len() > 0,
        all_digits(decimal(n)),
        digits_value(decimal(n)) == n,
        decimal(n).first() != '+',
        !is_space(decimal(n).first()),
        !is_space(decimal(n).last()),
    decreases n,
{
    if n < 10 {
        let s = seq![digit_char(n)];
        assert(s.drop_last() =~= Seq::<char>::empty());
        assert(digits_value(s.drop_last()) == 0);
        assert(s.last() == digit_char(n));
        assert(digit_char(n) as u32 - 0x30 == n);
    } else {
        lemma_decimal_is_digits(n / 10);
        let s = decimal(n);
        assert(s.drop_last() =~= decimal(n / 10));
        assert(s.last() == digit_char(n % 10));
        assert(digit_char(n % 10) as u32 - 0x30 == n % 10);
        assert(s.first() == decimal(n / 10).first());
        assert forall|i: int| 0 <= i < s.len() implies is_digit(#[trigger] s[i]) by {
            if i < s.len() - 1 {
                assert(s[i] == decimal(n / 10)[i]);
            }
        }
    }
}

/// What is written to the pid file is read back as the same process id, and
/// the plan for it is to end that process and remove the file.
pub proof fn lemma_pid_file_round_trip(pid: u32)
    ensures
        parse_pid(decimal(pid as nat)) == Some(pid),
        reap_plan_of(Some(decimal(pid as nat))) == (ReapPlan::KillAndRemove { pid }),
{
    lemma_decimal_is_digits(pid as nat);
}

} // verus!

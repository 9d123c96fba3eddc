//! The processor, read from `lscpu` on POSIX systems and from `wmic` on Windows.
use vstd::prelude::*;

use crate::hardware::CpuInfo;
use crate::text::{
    all_digits, char_list, contains, contains_text, decimal_value, digit_of, is_digit,
    lemma_split_nonempty, lines_of, lines_text, parse_unsigned, split_on, split_text, starts_with,
    starts_with_text, trim_text, trimmed, unsigned_value,
};

verus! {

/// The processor fields that `lscpu` reports: name, count, speed in kHz and
/// cores per socket.
pub type LscpuFields = (Seq<char>, u32, u64, u32);

/// The text after the first `:` of a line, up to a second `:`, trimmed.
pub open spec fn field_text(line: Seq<char>) -> Seq<char> {
    trimmed(split_on(line, ':')[1])
}

/// Thousandths of the first three fraction digits of `f`, missing ones read as zero.
pub open spec fn frac_milli(f: Seq<char>) -> int {
    decimal_value((f + seq!['0', '0', '0']).take(3))
}

/// A decimal number `digits[.digits]` in thousandths, fraction digits past the
/// third dropped, if it fits in a `u64`.
pub open spec fn milli_value(s: Seq<char>) -> Option<int> {
    let parts = split_on(s, '.');
    if parts.len() > 2 || (parts.len() == 2 && !all_digits(parts[1])) {
        None
    } else {
        match unsigned_value(parts[0], u64::MAX as int) {
            None => None,
            Some(w) => {
                let f = if parts.len() == 2 {
                    frac_milli(parts[1])
                } else {
                    0
                };
                if w * 1000 + f <= u64::MAX {
                    Some(w * 1000 + f)
                } else {
                    None
                }
            },
        }
    }
}

/// What one `lscpu` line does to the fields read so far. A line with a known
/// prefix sets its field; a number that does not parse fails the whole read.
pub open spec fn lscpu_step(acc: Option<LscpuFields>, line: Seq<char>) -> Option<LscpuFields> {
    match acc {
        None => None,
        Some((name, num, speed, cores)) => {
            if starts_with(line, "CPU(s):"@) {
                match unsigned_value(field_text(line), u32::MAX as int) {
                    Some(v) => Some((name, v as u32, speed, cores)),
                    None => None,
                }
            } else if starts_with(line, "Model name:"@) {
                Some((field_text(line), num, speed, cores))
            } else if starts_with(line, "CPU MHz:"@) {
                match milli_value(field_text(line)) {
                    Some(v) => Some((name, num, v as u64, cores)),
                    None => None,
                }
            } else if starts_with(line, "Core(s) per socket:"@) {
                match unsigned_value(field_text(line), u32::MAX as int) {
                    Some(v) => Some((name, num, speed, v as u32)),
                    None => None,
                }
            } else {
                acc
            }
        },
    }
}

/// The fields after reading `lines` in order, starting from empty ones.
pub open spec fn lscpu_fold(lines: Seq<Seq<char>>) -> Option<LscpuFields>
    decreases lines.len(),
{
    if lines.len() == 0 {
        Some((Seq::empty(), 0, 0, 0))
    } else {
        lscpu_step(lscpu_fold(lines.drop_last()), lines.last())
    }
}

proof fn lemma_split_two(s: Seq<char>, sep: char, k: int)
    requires
        0 <= k < s.len(),
        s[k] == sep,
    ensures
        split_on(s, sep).len() >= 2,
    decreases s.len(),
{
    if k == s.len() - 1 {
        lemma_split_nonempty(s.drop_last(), sep);
    } else {
        lemma_split_two(s.drop_last(), sep, k);
    }
}

proof fn lemma_fold_failed(lines: Seq<Seq<char>>, k: int)
    requires
        0 <= k <= lines.len(),
        lscpu_fold(lines.take(k)) is None,
    ensures
        lscpu_fold(lines) is None,
    decreases lines.len() - k,
{
    if k < lines.len() {
        assert(lines.take(k + 1).drop_last() =~= lines.take(k));
        lemma_fold_failed(lines, k + 1);
    } else {
        assert(lines.take(k) =~= lines);
    }
}

/// The trimmed text after the first `:` of `line`.
fn field_after_colon(line: &str) -> (r: String)
    requires
        split_on(line@, ':').len() >= 2,
    ensures
        r@ == field_text(line@),
{
    let pieces = split_text(line, ':');
    assert(pieces@.map_values(|x: String| x@)[1] == pieces@[1]@);
    trim_text(pieces[1].as_str())
}

/// Thousandths from up to three fraction digits.
fn frac_milli_of(f: &Vec<char>) -> (r: u64)
    requires
        all_digits(f@),
    ensures
        r as int == frac_milli(f@),
        r < 1000,
{
    let ghost p = f@ + seq!['0', '0', '0'];
    let d0: u64 = if f.len() > 0 {
        (f[0] as u32 - '0' as u32) as u64
    } else {
        0
    };
    let d1: u64 = if f.len() > 1 {
        (f[1] as u32 - '0' as u32) as u64
    } else {
        0
    };
    let d2: u64 = if f.len() > 2 {
        (f[2] as u32 - '0' as u32) as u64
    } else {
        0
    };
    proof {
        assert(p.take(3).drop_last() =~= p.take(2));
        assert(p.take(2).drop_last() =~= p.take(1));
        assert(p.take(1).drop_last() =~= p.take(0));
        if f.len() > 0 {
            assert(is_digit(f@[0]));
        }
        if f.len() > 1 {
            assert(is_digit(f@[1]));
        }
        if f.len() > 2 {
            assert(is_digit(f@[2]));
        }
        assert(p[0] == if f.len() > 0 { f@[0] } else { '0' });
        assert(p[1] == if f.len() > 1 { f@[1] } else { '0' });
        assert(p[2] == if f.len() > 2 { f@[2] } else { '0' });
        assert(decimal_value(p.take(0)) == 0);
        assert(d0 as int == digit_of(p[0]));
        assert(d1 as int == digit_of(p[1]));
        assert(d2 as int == digit_of(p[2]));
        assert(decimal_value(p.take(1)) == digit_of(p[0]));
        assert(decimal_value(p.take(2)) == digit_of(p[0]) * 10 + digit_of(p[1]));
        assert(decimal_value(p.take(3)) == (digit_of(p[0]) * 10 + digit_of(p[1])) * 10 + digit_of(
            p[2],
        ));
    }
    d0 * 100 + d1 * 10 + d2
}

/// A decimal number in thousandths: `2400.000` gives 2400000.
pub fn parse_milli(s: &str) -> (r: Option<u64>)
    ensures
        match r {
            Some(v) => milli_value(s@) == Some(v as int),
            None => milli_value(s@) is None,
        },
{
    let parts = split_text(s, '.');
    let ghost pv = parts@.map_values(|x: String| x@);
    proof {
        lemma_split_nonempty(s@, '.');
    }
    if parts.len() > 2 {
        return None;
    }
    let mut frac: u64 = 0;
    if parts.len() == 2 {
        assert(pv[1] == parts@[1]@);
        let f = char_list(parts[1].as_str());
        let mut k: usize = 0;
        while k < f.len()
            invariant
                pv == split_on(s@, '.'),
                pv.len() == 2,
                f@ == pv[1],
                k <= f@.len(),
                forall|q: int| 0 <= q < k ==> is_digit(#[trigger] f@[q]),
            decreases f@.len() - k,
        {
            if !('0' <= f[k] && f[k] <= '9') {
                assert(!is_digit(pv[1][k as int]));
                return None;
            }
            k = k + 1;
        }
        frac = frac_milli_of(&f);
    }
    assert(pv[0] == parts@[0]@);
    match parse_unsigned(parts[0].as_str(), u64::MAX) {
        None => None,
        Some(w) => {
            if w > (u64::MAX - frac) / 1000 {
                assert(w * 1000 + frac > u64::MAX) by (nonlinear_arith)
                    requires
                        w > (u64::MAX - frac) / 1000,
                        frac < 1000,
                ;
                None
            } else {
                assert(w * 1000 + frac <= u64::MAX) by (nonlinear_arith)
                    requires
                        w <= (u64::MAX - frac) / 1000,
                        frac < 1000,
                ;
                Some(w * 1000 + frac)
            }
        },
    }
}

/// The processor from `LC_ALL=C lscpu` output, read line by line: `CPU(s):`
/// gives the count, `Model name:` the name, `CPU MHz:` the speed in kHz and
/// `Core(s) per socket:` the cores; a later line overrides an earlier one. A
/// count, speed or core number that does not parse fails the read.
pub fn cpu_from_lscpu(output: &str) -> (r: Option<CpuInfo>)
    ensures
        match r {
            Some(c) => {
                &&& lscpu_fold(lines_of(output@)) == Some((c.name@, c.num, c.speed, c.core_num))
                &&& c.uuid@.len() == 0
            },
            None => lscpu_fold(lines_of(output@)) is None,
        },
{
    let lines = lines_text(output);
    let ghost ls = lines_of(output@);
    let mut name = String::new();
    let mut num: u32 = 0;
    let mut speed: u64 = 0;
    let mut cores: u32 = 0;
    let mut i: usize = 0;
    assert(ls.take(0).len() == 0);
    proof {
        reveal_strlit("CPU(s):");
        reveal_strlit("Model name:");
        reveal_strlit("CPU MHz:");
        reveal_strlit("Core(s) per socket:");
    }
    while i < lines.len()
        invariant
            ls == lines@.map_values(|x: String| x@),
            ls == lines_of(output@),
            i <= ls.len(),
            lscpu_fold(ls.take(i as int)) == Some((name@, num, speed, cores)),
        decreases ls.len() - i,
    {
        let line = lines[i].as_str();
        assert(line@ == ls[i as int]);
        assert(ls.take(i + 1).drop_last() =~= ls.take(i as int));
        proof {
            reveal_strlit("CPU(s):");
            reveal_strlit("Model name:");
            reveal_strlit("CPU MHz:");
            reveal_strlit("Core(s) per socket:");
        }
        if starts_with_text(line, "CPU(s):") {
            assert(line@.take(7)[6] == line@[6]);
            assert(line@[6] == ':');
            proof {
                lemma_split_two(line@, ':', 6);
            }
            let f = field_after_colon(line);
            assert((u32::MAX as u64) as int == u32::MAX as int);
            match parse_unsigned(f.as_str(), u32::MAX as u64) {
                Some(v) => {
                    num = v as u32;
                },
                None => {
                    proof {
                        lemma_fold_failed(ls, i + 1);
                    }
                    return None;
                },
            }
        } else if starts_with_text(line, "Model name:") {
            assert(line@.take(11)[10] == line@[10]);
            assert(line@[10] == ':');
            proof {
                lemma_split_two(line@, ':', 10);
            }
            name = field_after_colon(line);
        } else if starts_with_text(line, "CPU MHz:") {
            assert(line@.take(8)[7] == line@[7]);
            assert(line@[7] == ':');
            proof {
                lemma_split_two(line@, ':', 7);
            }
            let f = field_after_colon(line);
            match parse_milli(f.as_str()) {
                Some(v) => {
                    speed = v;
                },
                None => {
                    proof {
                        lemma_fold_failed(ls, i + 1);
                    }
                    return None;
                },
            }
        } else if starts_with_text(line, "Core(s) per socket:") {
            assert(line@.take(19)[18] == line@[18]);
            assert(line@[18] == ':');
            proof {
                lemma_split_two(line@, ':', 18);
            }
            let f = field_after_colon(line);
            assert((u32::MAX as u64) as int == u32::MAX as int);
            match parse_unsigned(f.as_str(), u32::MAX as u64) {
                Some(v) => {
                    cores = v as u32;
                },
                None => {
                    proof {
                        lemma_fold_failed(ls, i + 1);
                    }
                    return None;
                },
            }
        }
        i = i + 1;
    }
    assert(ls.take(ls.len() as int) =~= ls);
    Some(CpuInfo { uuid: String::new(), name, num, speed, core_num: cores })
}

/// Which lines of `wmic cpu get ...` output carry the value asked for.
pub enum WmicRule {
    /// A non-blank line other than the `ProcessorId` header.
    Serial,
    /// A line other than the `Name` header.
    Name,
    /// A non-blank line other than the `SocketDesignation` header.
    Socket,
}

pub open spec fn rule_holds(rule: WmicRule, l: Seq<char>) -> bool {
    match rule {
        WmicRule::Serial => trimmed(l).len() > 0 && !contains(l, "ProcessorId"@),
        WmicRule::Name => !contains(l, "Name"@),
        WmicRule::Socket => trimmed(l).len() > 0 && !contains(l, "SocketDesignation"@),
    }
}

/// The first of `ls` that `rule` holds of, or empty.
pub open spec fn first_where(ls: Seq<Seq<char>>, rule: WmicRule) -> Seq<char>
    decreases ls.len(),
{
    if ls.len() == 0 {
        Seq::empty()
    } else if rule_holds(rule, ls[0]) {
        ls[0]
    } else {
        first_where(ls.drop_first(), rule)
    }
}

/// How many of `ls` `rule` holds of.
pub open spec fn count_where(ls: Seq<Seq<char>>, rule: WmicRule) -> nat
    decreases ls.len(),
{
    if ls.len() == 0 {
        0
    } else {
        count_where(ls.drop_last(), rule) + if rule_holds(rule, ls.last()) {
            1nat
        } else {
            0nat
        }
    }
}

fn rule_check(rule: &WmicRule, l: &str) -> (r: bool)
    ensures
        r == rule_holds(*rule, l@),
{
    match rule {
        WmicRule::Serial => trim_text(l).as_str().unicode_len() > 0 && !contains_text(
            l,
            "ProcessorId",
        ),
        WmicRule::Name => !contains_text(l, "Name"),
        WmicRule::Socket => trim_text(l).as_str().unicode_len() > 0 && !contains_text(
            l,
            "SocketDesignation",
        ),
    }
}

/// The trimmed first line of `output` that `rule` holds of, or empty.
pub fn first_value_line(output: &str, rule: WmicRule) -> (r: String)
    ensures
        r@ == trimmed(first_where(lines_of(output@), rule)),
{
    let lines = lines_text(output);
    let ghost ls = lines_of(output@);
    let mut i: usize = 0;
    assert(ls.subrange(0, ls.len() as int) =~= ls);
    while i < lines.len()
        invariant
            ls == lines@.map_values(|x: String| x@),
            ls == lines_of(output@),
            i <= ls.len(),
            first_where(ls, rule) == first_where(ls.subrange(i as int, ls.len() as int), rule),
        decreases ls.len() - i,
    {
        let line = lines[i].as_str();
        assert(line@ == ls[i as int]);
        let ghost rest = ls.subrange(i as int, ls.len() as int);
        assert(rest[0] == ls[i as int]);
        if rule_check(&rule, line) {
            assert(first_where(rest, rule) == rest[0]);
            return trim_text(line);
        }
        assert(rest.drop_first() =~= ls.subrange(i + 1, ls.len() as int));
        i = i + 1;
    }
    assert(first_where(ls.subrange(i as int, ls.len() as int), rule) == Seq::<char>::empty());
    assert(trimmed(Seq::<char>::empty()) == Seq::<char>::empty());
    String::new()
}

/// How many lines of `output` `rule` holds of, up to `u32::MAX`.
pub fn count_value_lines(output: &str, rule: WmicRule) -> (r: u32)
    ensures
        r as int == if count_where(lines_of(output@), rule) <= u32::MAX {
            count_where(lines_of(output@), rule) as int
        } else {
            u32::MAX as int
        },
{
    let lines = lines_text(output);
    let ghost ls = lines_of(output@);
    let mut n: usize = 0;
    let mut i: usize = 0;
    assert(ls.take(0).len() == 0);
    while i < lines.len()
        invariant
            ls == lines@.map_values(|x: String| x@),
            i <= ls.len(),
            n <= i,
            n == count_where(ls.take(i as int), rule),
        decreases ls.len() - i,
    {
        assert(ls.take(i + 1).drop_last() =~= ls.take(i as int));
        assert(lines@[i as int]@ == ls[i as int]);
        if rule_check(&rule, lines[i].as_str()) {
            n = n + 1;
        }
        i = i + 1;
    }
    assert(ls.take(ls.len() as int) =~= ls);
    if n > u32::MAX as usize {
        u32::MAX
    } else {
        n as u32
    }
}

/// The processor from the outputs of `wmic cpu get ProcessorId`,
/// `wmic cpu get name` and `wmic cpu get SocketDesignation`, with the speed and
/// core count the system reported; a missing one is zero.
pub fn cpu_from_wmic(
    serial_out: &str,
    name_out: &str,
    socket_out: &str,
    speed: Option<u64>,
    core_num: Option<u32>,
) -> (r: CpuInfo)
    ensures
        r.uuid@ == trimmed(first_where(lines_of(serial_out@), WmicRule::Serial)),
        r.name@ == trimmed(first_where(lines_of(name_out@), WmicRule::Name)),
        r.num as int == if count_where(lines_of(socket_out@), WmicRule::Socket) <= u32::MAX {
            count_where(lines_of(socket_out@), WmicRule::Socket) as int
        } else {
            u32::MAX as int
        },
        r.speed == match speed {
            Some(s) => s,
            None => 0,
        },
        r.core_num == match core_num {
            Some(c) => c,
            None => 0,
        },
{
    let uuid = first_value_line(serial_out, WmicRule::Serial);
    let name = first_value_line(name_out, WmicRule::Name);
    let num = count_value_lines(socket_out, WmicRule::Socket);
    let speed = match speed {
        Some(s) => s,
        None => 0,
    };
    let core_num = match core_num {
        Some(c) => c,
        None => 0,
    };
    CpuInfo { uuid, name, num, speed, core_num }
}

} // verus!

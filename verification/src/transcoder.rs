//! Decisions around the outside audio transcoder: reading the loop points
//! out of its probe report and choosing whether to loop at all. The
//! subprocess itself is outside work; only what it prints is decided here.
use vstd::prelude::*;
use vstd::string::StrSliceExecFns;
use crate::error::LastLegendError;
use crate::strutil::{char_pos_from, find_char};

verus! {

/// The numeric value of one decimal digit character.
pub open spec fn dec_val(c: char) -> Option<u32> {
    let u = c as u32;
    if 0x30 <= u <= 0x39 {
        Some((u - 0x30) as u32)
    } else {
        None
    }
}

/// Fold decimal digits left to right onto `acc`; nothing on a bad digit
/// or when the value outgrows 32 bits.
pub open spec fn fold_dec_u32(s: Seq<char>, acc: int) -> Option<int>
    decreases s.len(),
{
    if s.len() == 0 {
        Some(acc)
    } else {
        match dec_val(s[0]) {
            None => None,
            Some(d) => if acc * 10 + d > 0xFFFF_FFFF {
                None
            } else {
                fold_dec_u32(s.drop_first(), acc * 10 + d)
            },
        }
    }
}

/// A 32-bit number parsed as `u32::from_str` parses it: an optional
/// leading `+`, then at least one decimal digit, value within 32 bits.
pub open spec fn spec_parse_dec_u32(s: Seq<char>) -> Option<u32> {
    let digits = if s.len() > 0 && s[0] == '+' {
        s.drop_first()
    } else {
        s
    };
    if digits.len() == 0 {
        None
    } else {
        match fold_dec_u32(digits, 0) {
            Some(v) => Some(v as u32),
            None => None,
        }
    }
}

/// Parse the decimal number held by the characters of `s` between `from`
/// and `to`, as [`spec_parse_dec_u32`] describes.
fn parse_dec_u32(s: &str, from: usize, to: usize) -> (r: Option<u32>)
    requires
        from <= to <= s@.len(),
    ensures
        r == spec_parse_dec_u32(s@.subrange(from as int, to as int)),
{
    let ghost whole = s@.subrange(from as int, to as int);
    let mut i: usize = from;
    if i < to && s.get_char(i) == '+' {
        i = i + 1;
        proof {
            assert(whole[0] == '+');
        }
    }
    let ghost digits = s@.subrange(i as int, to as int);
    proof {
        if whole.len() > 0 && whole[0] == '+' {
            assert(digits =~= whole.drop_first());
        } else {
            assert(digits =~= whole);
        }
    }
    if i == to {
        return None;
    }
    let mut acc: u64 = 0;
    proof {
        assert(spec_parse_dec_u32(whole) == dec_fold_result(digits, 0));
    }
    while i < to
        invariant
            from <= i <= to <= s@.len(),
            acc <= 0xFFFF_FFFF,
            spec_parse_dec_u32(s@.subrange(from as int, to as int)) == dec_fold_result(
                s@.subrange(i as int, to as int),
                acc as int,
            ),
        decreases to - i,
    {
        let ghost rest = s@.subrange(i as int, to as int);
        let c = s.get_char(i);
        proof {
            assert(rest[0] == c);
            assert(rest.drop_first() =~= s@.subrange(i as int + 1, to as int));
        }
        let u = c as u32;
        if !(0x30 <= u && u <= 0x39) {
            proof {
                assert(dec_val(c) is None);
                assert(fold_dec_u32(rest, acc as int) is None);
            }
            return None;
        }
        let d = (u - 0x30) as u64;
        proof {
            assert(dec_val(c) == Some((d as u32)));
        }
        if acc * 10 + d > 0xFFFF_FFFF {
            proof {
                assert(fold_dec_u32(rest, acc as int) is None);
            }
            return None;
        }
        acc = acc * 10 + d;
        i = i + 1;
    }
    proof {
        assert(s@.subrange(to as int, to as int) =~= Seq::<char>::empty());
    }
    Some(acc as u32)
}

/// What a decimal parse returns once folding the remaining `digits` onto
/// `acc` decides it.
pub open spec fn dec_fold_result(digits: Seq<char>, acc: int) -> Option<u32> {
    match fold_dec_u32(digits, acc) {
        Some(v) => Some(v as u32),
        None => None,
    }
}

/// The first line of a report: up to the first newline, or the whole
/// report without one.
pub open spec fn spec_first_line(s: Seq<char>) -> Seq<char> {
    match char_pos_from(s, '\n', 0) {
        Some(i) => s.take(i),
        None => s,
    }
}

/// The loop points the probe report holds. The first line's fields are
/// split on `|`; with two or more fields the first two must both be
/// 32-bit decimal numbers, with fewer there is no loop, and an empty
/// report is an error.
pub open spec fn spec_loop_points(s: Seq<char>) -> Option<(u32, u32)> {
    let line = spec_first_line(s);
    if s.len() == 0 {
        None
    } else {
        match char_pos_from(line, '|', 0) {
            None => Some((0, 0)),
            Some(p) => {
                let first = line.take(p);
                let rest = line.skip(p + 1);
                let second = match char_pos_from(rest, '|', 0) {
                    None => rest,
                    Some(q) => rest.take(q),
                };
                match spec_parse_dec_u32(first) {
                    None => None,
                    Some(a) => match spec_parse_dec_u32(second) {
                        None => None,
                        Some(b) => Some((a, b)),
                    },
                }
            },
        }
    }
}

/// Read the loop start and end out of the transcoder's probe report; see
/// [`spec_loop_points`]. A report that does not parse is the
/// transcoder's failure.
pub fn parse_loop_points(report: &str) -> (r: Result<(u32, u32), LastLegendError>)
    ensures
        match r {
            Ok(points) => spec_loop_points(report@) == Some(points),
            Err(_) => spec_loop_points(report@) is None,
        },
{
    let n = report.unicode_len();
    if n == 0 {
        return Err(LastLegendError::FFMPEG(String::from_str("no output")));
    }
    let line_end = match find_char(report, '\n', 0) {
        Some(i) => i,
        None => n,
    };
    let ghost line = spec_first_line(report@);
    proof {
        assert(line =~= report@.subrange(0, line_end as int));
    }
    let p = match find_char_before(report, '|', 0, line_end) {
        None => {
            return Ok((0, 0));
        },
        Some(p) => p,
    };
    proof {
        assert(line.take(char_pos_from(line, '|', 0)->0) =~= report@.subrange(0, p as int));
    }
    let second_end = match find_char_before(report, '|', p + 1, line_end) {
        None => line_end,
        Some(q) => q,
    };
    proof {
        let rest = line.skip(p + 1);
        assert(rest =~= report@.subrange(p + 1, line_end as int));
        match char_pos_from(rest, '|', 0) {
            None => {
                assert(rest =~= report@.subrange(p + 1, second_end as int));
            },
            Some(q) => {
                assert(rest.take(q) =~= report@.subrange(p + 1, second_end as int));
            },
        }
    }
    let a = match parse_dec_u32(report, 0, p) {
        Some(v) => v,
        None => {
            return Err(
                LastLegendError::FFMPEG(String::from_str("audio loop_start wasn't a u32")),
            );
        },
    };
    let b = match parse_dec_u32(report, p + 1, second_end) {
        Some(v) => v,
        None => {
            return Err(
                LastLegendError::FFMPEG(String::from_str("audio duration wasn't a u32")),
            );
        },
    };
    Ok((a, b))
}

/// Whether the loop points call for looping at all: a zero start means
/// the stream is copied through unchanged, whatever the end says.
pub fn should_loop(loop_start: u32) -> (r: bool)
    ensures
        r == (loop_start != 0),
{
    loop_start != 0
}

/// Find the first occurrence of `c` at or after `from` and before `to`,
/// relating it to a search inside the segment that starts the string.
fn find_char_before(s: &str, c: char, from: usize, to: usize) -> (r: Option<usize>)
    requires
        from <= to <= s@.len(),
    ensures
        ({
            let seg = s@.subrange(from as int, to as int);
            match r {
                Some(u) => from <= u < to && char_pos_from(seg, c, 0) == Some(u - from),
                None => char_pos_from(seg, c, 0) is None,
            }
        }),
{
    let r = crate::strutil::find_char_between(s, c, from, to);
    proof {
        crate::strutil::lemma_char_pos_shift_subrange(s@, c, from as int, to as int, from as int);
    }
    r
}

} // verus!

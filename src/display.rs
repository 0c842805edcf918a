//! Displays as the platform reports them, and the choice of which ones to
//! give a new background.
use vstd::prelude::*;
use crate::text::{out_of_range_message, out_of_range_text};

verus! {

/// One display: its name, its position in the platform's list (from 1), and
/// its resolution in pixels.
#[derive(Debug)]
pub struct MonitorInfo {
    pub name: String,
    pub id: usize,
    pub width: usize,
    pub height: usize,
}

/// Why a requested display number was turned down.
#[derive(Clone, Copy, Debug, PartialEq, Eq, Structural)]
pub enum SelectError {
    /// The request is not a decimal number that fits in 32 bits.
    InvalidNumber,
    /// The number is not between 1 and the number of displays.
    OutOfRange,
}

/// Value of a non-empty run of ASCII digits, most significant first.
pub open spec fn digits_value(s: Seq<char>) -> int
    decreases s.len(),
{
    if s.len() == 0 {
        0
    } else {
        digits_value(s.drop_last()) * 10 + (s.last() as int - '0' as int)
    }
}

/// Every character is an ASCII digit, and there is at least one.
pub open spec fn all_digits(s: Seq<char>) -> bool {
    s.len() > 0 && forall|i: int| 0 <= i < s.len() ==> '0' <= #[trigger] s[i] <= '9'
}

/// What `i32`'s `from_str` accepts: an optional `+` or `-`, then ASCII
/// digits only, with a value in range.
pub open spec fn parsed_i32(s: Seq<char>) -> Option<i32> {
    let negative = s.len() > 0 && s[0] == '-';
    let body = if s.len() > 0 && (s[0] == '-' || s[0] == '+') {
        s.drop_first()
    } else {
        s
    };
    let v = if negative {
        -digits_value(body)
    } else {
        digits_value(body)
    };
    if all_digits(body) && i32::MIN <= v <= i32::MAX {
        Some(v as i32)
    } else {
        None
    }
}

/// Relies on `str::parse::<i32>`: an optional sign followed by decimal digits,
/// `None` on anything else or on overflow.
#[verifier::external_body]
fn parse_i32(s: &str) -> (r: Option<i32>)
    ensures
        r == parsed_i32(s@),
{
    s.parse::<i32>().ok()
}

/// Number of displays in the list.
pub fn get_monitor_count(monitors: &[MonitorInfo]) -> (r: i32)
    requires
        monitors@.len() <= i32::MAX,
    ensures
        r == monitors@.len(),
{
    monitors.len() as i32
}

/// Resolution of display `monitor_num`, counted from 1, as (width, height);
/// when there is no such display, the message
/// `Monitor number <n> is out of range (1-<count>)`.
pub fn get_monitor_size(monitors: &[MonitorInfo], monitor_num: i32) -> (r: Result<
    (i32, i32),
    String,
>)
    ensures
        r is Err <==> (monitor_num < 1 || monitor_num > monitors@.len()),
        r matches Err(message) ==> message@ == out_of_range_text(
            monitor_num as int,
            monitors@.len(),
        ),
        r matches Ok(size) ==> size == (
            monitors@[monitor_num - 1].width as i32,
            monitors@[monitor_num - 1].height as i32,
        ),
{
    if monitor_num < 1 || (monitor_num as usize) > monitors.len() {
        return Err(out_of_range_message(monitor_num, monitors.len()));
    }
    let info = &monitors[(monitor_num - 1) as usize];
    Ok((#[verifier::truncate] (info.width as i32), #[verifier::truncate] (info.height as i32)))
}

/// The displays 1 to `count`, in order; none when `count` is below 1.
pub open spec fn all_displays(count: int) -> Seq<i32> {
    Seq::new(
        if count < 0 {
            0
        } else {
            count
        } as nat,
        |i: int| (i + 1) as i32,
    )
}

/// Which displays get the new background: every one when no number is
/// requested, else the one requested, which must parse as a number between 1
/// and `monitor_count`.
pub fn select_monitors(monitor_count: i32, requested: Option<&str>) -> (r: Result<
    Vec<i32>,
    SelectError,
>)
    ensures
        requested is None ==> (r matches Ok(v) && v@ == all_displays(monitor_count as int)),
        requested matches Some(s) ==> match parsed_i32(s@) {
            None => r == Err::<Vec<i32>, SelectError>(SelectError::InvalidNumber),
            Some(n) => if 1 <= n <= monitor_count {
                r matches Ok(v) && v@ == seq![n]
            } else {
                r == Err::<Vec<i32>, SelectError>(SelectError::OutOfRange)
            },
        },
{
    match requested {
        Some(s) => match parse_i32(s) {
            Some(n) => {
                if n < 1 || n > monitor_count {
                    Err(SelectError::OutOfRange)
                } else {
                    let mut v: Vec<i32> = Vec::new();
                    v.push(n);
                    assert(v@ =~= seq![n]);
                    Ok(v)
                }
            },
            None => Err(SelectError::InvalidNumber),
        },
        None => {
            let mut v: Vec<i32> = Vec::new();
            let mut k: i32 = 1;
            while k <= monitor_count
                invariant
                    requested is None,
                    1 <= k,
                    k <= monitor_count + 1 || monitor_count < 1,
                    monitor_count < 1 ==> k == 1,
                    v@ =~= all_displays((k - 1) as int),
                decreases monitor_count as int + 1 - k,
            {
                v.push(k);
                if k == i32::MAX {
                    assert(v@ =~= all_displays(monitor_count as int));
                    return Ok(v);
                }
                k += 1;
            }
            assert(v@ =~= all_displays(monitor_count as int));
            Ok(v)
        },
    }
}

} // verus!

//! Decimal rendering, and the names and scripts built with it: the file each
//! display's wallpaper is written to, and the script that sets a picture.
use vstd::prelude::*;

verus! {

/// The ASCII digit for `d < 10`.
pub open spec fn digit_char(d: int) -> char {
    (48 + d) as char
}

/// Decimal digits of `n`, most significant first, with no leading zero.
pub open spec fn decimal(n: nat) -> Seq<char>
    decreases n,
{
    if n < 10 {
        seq![digit_char(n as int)]
    } else {
        decimal(n / 10).push(digit_char((n % 10) as int))
    }
}

/// Decimal form of `n`, with a leading `-` when negative.
pub open spec fn signed_decimal(n: int) -> Seq<char> {
    if n < 0 {
        seq!['-'] + decimal((-n) as nat)
    } else {
        decimal(n as nat)
    }
}

/// Name of the file that holds the wallpaper made for display `desktop_num`
/// at time `timestamp`: `<display>_<timestamp>.png`.
pub open spec fn target_name(desktop_num: int, timestamp: nat) -> Seq<char> {
    signed_decimal(desktop_num) + seq!['_'] + decimal(timestamp) + seq!['.', 'p', 'n', 'g']
}

/// Relies on collecting `chars` into a `String`: the same characters.
#[verifier::external_body]
pub(crate) fn string_from_chars(cs: &Vec<char>) -> (r: String)
    ensures
        r@ == cs@,
{
    cs.iter().collect()
}

/// Relies on `str::chars`: the characters of `s`, in order.
#[verifier::external_body]
pub(crate) fn chars_of(s: &str) -> (r: Vec<char>)
    ensures
        r@ == s@,
{
    s.chars().collect()
}

fn push_decimal(out: &mut Vec<char>, n: u64)
    ensures
        final(out)@ == old(out)@ + decimal(n as nat),
    decreases n,
{
    if n >= 10 {
        push_decimal(out, n / 10);
    }
    let d = (n % 10) as u32;
    let c = char_of_digit(d);
    out.push(c);
    assert(final(out)@ =~= old(out)@ + decimal(n as nat));
}

fn char_of_digit(d: u32) -> (c: char)
    requires
        d < 10,
    ensures
        c == digit_char(d as int),
{
    let b = (48 + d) as u8;
    b as char
}

fn push_signed_decimal(out: &mut Vec<char>, n: i32)
    ensures
        final(out)@ == old(out)@ + signed_decimal(n as int),
{
    if n < 0 {
        out.push('-');
        let magnitude = (0 - (n as i64)) as u64;
        push_decimal(out, magnitude);
        assert(final(out)@ =~= old(out)@ + signed_decimal(n as int));
    } else {
        push_decimal(out, n as u64);
    }
}

fn target_name_chars(desktop_num: i32, timestamp: u64) -> (r: Vec<char>)
    ensures
        r@ == target_name(desktop_num as int, timestamp as nat),
{
    let mut out: Vec<char> = Vec::new();
    push_signed_decimal(&mut out, desktop_num);
    out.push('_');
    push_decimal(&mut out, timestamp);
    out.push('.');
    out.push('p');
    out.push('n');
    out.push('g');
    assert(out@ =~= target_name(desktop_num as int, timestamp as nat));
    out
}

/// The file name for display `desktop_num`'s wallpaper made at `timestamp`
/// (seconds since the Unix epoch), such as `2_1700000000.png`.
pub fn target_file_name(desktop_num: i32, timestamp: u64) -> (r: String)
    ensures
        r@ == target_name(desktop_num as int, timestamp as nat),
{
    let cs = target_name_chars(desktop_num, timestamp);
    string_from_chars(&cs)
}

/// Whether a source file called `file_name` would be overwritten by the
/// wallpaper for `desktop_num` made at `timestamp`: true when the names are
/// the same.
pub fn is_target_file_name(file_name: &str, desktop_num: i32, timestamp: u64) -> (r: bool)
    ensures
        r == (file_name@ == target_name(desktop_num as int, timestamp as nat)),
{
    let name = chars_of(file_name);
    let target = target_name_chars(desktop_num, timestamp);
    if name.len() != target.len() {
        assert(name@.len() != target@.len());
        return false;
    }
    let mut i: usize = 0;
    while i < name.len()
        invariant
            name@ == file_name@,
            target@ == target_name(desktop_num as int, timestamp as nat),
            name@.len() == target@.len(),
            i <= name@.len(),
            forall|j: int| 0 <= j < i ==> name@[j] == target@[j],
        decreases name@.len() - i,
    {
        if name[i] != target[i] {
            assert(name@[i as int] != target@[i as int]);
            return false;
        }
        i += 1;
    }
    assert(name@ =~= target@);
    true
}

/// The AppleScript that sets display `desktop_num`'s picture to the file at
/// `path`.
pub open spec fn picture_script(desktop_num: int, path: Seq<char>) -> Seq<char> {
    "tell application \"System Events\"\n                set picture of desktop "@ + signed_decimal(
        desktop_num,
    ) + " to \""@ + path + "\"\n            end tell"@
}

/// Builds the AppleScript that makes System Events set display
/// `desktop_num`'s picture to the file at `path`.
pub fn set_picture_script(desktop_num: i32, path: &str) -> (r: String)
    ensures
        r@ == picture_script(desktop_num as int, path@),
{
    let mut out = chars_of("tell application \"System Events\"\n                set picture of desktop ");
    push_signed_decimal(&mut out, desktop_num);
    let mid = chars_of(" to \"");
    let p = chars_of(path);
    let tail = chars_of("\"\n            end tell");
    append_chars(&mut out, &mid);
    append_chars(&mut out, &p);
    append_chars(&mut out, &tail);
    string_from_chars(&out)
}

fn append_chars(out: &mut Vec<char>, more: &Vec<char>)
    ensures
        final(out)@ == old(out)@ + more@,
{
    let mut i: usize = 0;
    while i < more.len()
        invariant
            i <= more@.len(),
            out@ == old(out)@ + more@.subrange(0, i as int),
        decreases more@.len() - i,
    {
        out.push(more[i]);
        i += 1;
        assert(out@ =~= old(out)@ + more@.subrange(0, i as int));
    }
    assert(more@.subrange(0, more@.len() as int) =~= more@);
}

/// The message for display `monitor_num` when only `count` displays exist.
pub open spec fn out_of_range_text(monitor_num: int, count: nat) -> Seq<char> {
    "Monitor number "@ + signed_decimal(monitor_num) + " is out of range (1-"@ + decimal(count)
        + ")"@
}

/// The message for a display number out of range:
/// `Monitor number <n> is out of range (1-<count>)`.
pub fn out_of_range_message(monitor_num: i32, count: usize) -> (r: String)
    ensures
        r@ == out_of_range_text(monitor_num as int, count as nat),
{
    let mut out = chars_of("Monitor number ");
    push_signed_decimal(&mut out, monitor_num);
    let mid = chars_of(" is out of range (1-");
    append_chars(&mut out, &mid);
    push_decimal(&mut out, count as u64);
    let tail = chars_of(")");
    append_chars(&mut out, &tail);
    string_from_chars(&out)
}

} // verus!

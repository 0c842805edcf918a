//! Reading the display list out of a macOS `system_profiler SPDisplaysDataType`
//! report.
//!
//! The report is read line by line (lines end at `\n`). Lines up to and
//! including the one that trims to `Displays:` are skipped. After it, a
//! trimmed line ending in `:` opens a new display named by the line without
//! its trailing colons; a line `key: value` sets a field of the open display,
//! opening an unnamed one if there is none. Only the `name` and `Resolution`
//! fields are kept. A display is listed when its resolution starts with two
//! numbers separated by `x` or `×`; its id is its position among all displays
//! opened, from 1.
use vstd::prelude::*;
use crate::display::{MonitorInfo, all_digits, digits_value};
use crate::text::{chars_of, string_from_chars};

verus! {

/// The characters with Unicode's `White_Space` property.
pub open spec fn white_space(c: char) -> bool {
    let u = c as u32;
    (0x9 <= u <= 0xd) || u == 0x20 || u == 0x85 || u == 0xa0 || u == 0x1680 || (0x2000 <= u
        <= 0x200a) || u == 0x2028 || u == 0x2029 || u == 0x202f || u == 0x205f || u == 0x3000
}

/// `s` without its leading white space.
pub open spec fn trim_start(s: Seq<char>) -> Seq<char>
    decreases s.len(),
{
    if s.len() > 0 && white_space(s[0]) {
        trim_start(s.drop_first())
    } else {
        s
    }
}

/// `s` without its trailing white space.
pub open spec fn trim_end(s: Seq<char>) -> Seq<char>
    decreases s.len(),
{
    if s.len() > 0 && white_space(s.last()) {
        trim_end(s.drop_last())
    } else {
        s
    }
}

/// `s` without leading or trailing white space.
pub open spec fn trim(s: Seq<char>) -> Seq<char> {
    trim_end(trim_start(s))
}

/// `s` without its trailing colons.
pub open spec fn strip_colons(s: Seq<char>) -> Seq<char>
    decreases s.len(),
{
    if s.len() > 0 && s.last() == ':' {
        strip_colons(s.drop_last())
    } else {
        s
    }
}

/// Lines of `s`: each `\n` ends one and starts the next.
pub open spec fn split_lines(s: Seq<char>) -> Seq<Seq<char>>
    decreases s.len(),
{
    if s.len() == 0 {
        seq![Seq::empty()]
    } else {
        let prev = split_lines(s.drop_last());
        if s.last() == '\n' {
            prev.push(Seq::empty())
        } else {
            prev.update(prev.len() - 1, prev.last().push(s.last()))
        }
    }
}

/// `k` is the position of the first colon of `s`.
pub open spec fn is_first_colon(s: Seq<char>, k: int) -> bool {
    0 <= k < s.len() && s[k] == ':' && forall|j: int| 0 <= j < k ==> s[j] != ':'
}

/// The fields kept of one display: its name and its resolution, if set.
pub type Entry = (Option<Seq<char>>, Option<Seq<char>>);

/// Scan state: whether `Displays:` was passed, the displays closed so far,
/// and the open one.
pub type ScanState = (bool, Seq<Entry>, Option<Entry>);

/// An entry with field `key` set to `val`; fields other than `name` and
/// `Resolution` are not kept.
pub open spec fn with_field(e: Entry, key: Seq<char>, val: Seq<char>) -> Entry {
    if key == "name"@ {
        (Some(val), e.1)
    } else if key == "Resolution"@ {
        (e.0, Some(val))
    } else {
        e
    }
}

/// The scan state after one more line.
pub open spec fn scan_line(st: ScanState, raw: Seq<char>) -> ScanState {
    let t = trim(raw);
    if !st.0 {
        (t == "Displays:"@, st.1, st.2)
    } else if t.len() == 0 {
        st
    } else if t.last() == ':' {
        let done = match st.2 {
            Some(c) => st.1.push(c),
            None => st.1,
        };
        (true, done, Some((Some(trim(strip_colons(t))), None)))
    } else if exists|k: int| is_first_colon(raw, k) {
        let k = choose|k: int| is_first_colon(raw, k);
        let key = trim(raw.subrange(0, k));
        let val = trim(raw.subrange(k + 1, raw.len() as int));
        let base = match st.2 {
            Some(c) => c,
            None => (None, None),
        };
        (true, st.1, Some(with_field(base, key, val)))
    } else {
        st
    }
}

/// The scan state after all of `lines`.
pub open spec fn scan_all(lines: Seq<Seq<char>>) -> ScanState
    decreases lines.len(),
{
    if lines.len() == 0 {
        (false, Seq::empty(), None)
    } else {
        scan_line(scan_all(lines.drop_last()), lines.last())
    }
}

/// Every display the report opens, in order.
pub open spec fn profile_entries(text: Seq<char>) -> Seq<Entry> {
    let st = scan_all(split_lines(text));
    match st.2 {
        Some(c) => st.1.push(c),
        None => st.1,
    }
}

/// The first two groups of the first match of `pattern` in `s`, if it is a
/// valid pattern, matches, and has both groups.
pub uninterp spec fn first_two_groups(pattern: Seq<char>, s: Seq<char>) -> Option<
    (Seq<char>, Seq<char>),
>;

/// What `usize`'s `from_str` accepts: an optional `+`, then ASCII digits only,
/// with a value in range.
pub open spec fn parsed_usize(s: Seq<char>) -> Option<usize> {
    let body = if s.len() > 0 && s[0] == '+' {
        s.drop_first()
    } else {
        s
    };
    if all_digits(body) && digits_value(body) <= usize::MAX {
        Some(digits_value(body) as usize)
    } else {
        None
    }
}

/// The pattern a resolution must start with: two numbers around `x` or `×`.
pub open spec fn resolution_pattern() -> Seq<char> {
    "(?i)^\\s*(\\d+)\\s*[x×]\\s*(\\d+)"@
}

/// A display as listed: name, id, width, height.
pub type MonitorView = (Seq<char>, int, int, int);

/// The listing of the display opened `index`-th (from 0), if its resolution
/// can be read.
pub open spec fn monitor_of(e: Entry, index: int) -> Option<MonitorView> {
    match e.1 {
        None => None,
        Some(res) => match first_two_groups(resolution_pattern(), res) {
            None => None,
            Some(groups) => match (parsed_usize(groups.0), parsed_usize(groups.1)) {
                (Some(w), Some(h)) => Some(
                    (
                        match e.0 {
                            Some(n) => n,
                            None => "Unknown"@,
                        },
                        index + 1,
                        w as int,
                        h as int,
                    ),
                ),
                _ => None,
            },
        },
    }
}

/// The listings of the displays in `es` whose resolution can be read.
pub open spec fn collect_monitors(es: Seq<Entry>) -> Seq<MonitorView>
    decreases es.len(),
{
    if es.len() == 0 {
        Seq::empty()
    } else {
        let prev = collect_monitors(es.drop_last());
        match monitor_of(es.last(), es.len() - 1) {
            Some(m) => prev.push(m),
            None => prev,
        }
    }
}

/// The displays a report lists.
pub open spec fn profile_monitors(text: Seq<char>) -> Seq<MonitorView> {
    collect_monitors(profile_entries(text))
}

/// A listed display as plain values.
pub open spec fn monitor_view(m: MonitorInfo) -> MonitorView {
    (m.name@, m.id as int, m.width as int, m.height as int)
}

/// Whether `c` has Unicode's `White_Space` property.
fn is_white_space(c: char) -> (r: bool)
    ensures
        r == white_space(c),
{
    let u = c as u32;
    (0x9 <= u && u <= 0xd) || u == 0x20 || u == 0x85 || u == 0xa0 || u == 0x1680 || (0x2000 <= u
        && u <= 0x200a) || u == 0x2028 || u == 0x2029 || u == 0x202f || u == 0x205f || u == 0x3000
}

/// Relies on `regex::Regex`: compiles `pattern` and returns the text of groups
/// 1 and 2 of its first match in `s`.
#[verifier::external_body]
fn regex_first_two_groups(pattern: &str, s: &str) -> (r: Option<(String, String)>)
    ensures
        match r {
            None => first_two_groups(pattern@, s@) is None,
            Some(g) => first_two_groups(pattern@, s@) == Some((g.0@, g.1@)),
        },
{
    let re = regex::Regex::new(pattern).ok()?;
    let caps = re.captures(s)?;
    let a = caps.get(1)?.as_str().to_string();
    let b = caps.get(2)?.as_str().to_string();
    Some((a, b))
}

/// Relies on `str::parse::<usize>`: an optional `+` followed by decimal
/// digits, `None` on anything else or on overflow.
#[verifier::external_body]
fn parse_usize(s: &str) -> (r: Option<usize>)
    ensures
        r == parsed_usize(s@),
{
    s.parse::<usize>().ok()
}

proof fn lemma_trim_start_skip(t: Seq<char>, k: int)
    requires
        0 <= k <= t.len(),
        forall|i: int| 0 <= i < k ==> white_space(#[trigger] t[i]),
    ensures
        trim_start(t) == trim_start(t.subrange(k, t.len() as int)),
    decreases k,
{
    if k > 0 {
        let d = t.drop_first();
        assert forall|i: int| 0 <= i < k - 1 implies white_space(#[trigger] d[i]) by {
            assert(d[i] == t[i + 1]);
        }
        lemma_trim_start_skip(d, k - 1);
        assert(d.subrange(k - 1, d.len() as int) =~= t.subrange(k, t.len() as int));
    } else {
        assert(t.subrange(0, t.len() as int) =~= t);
    }
}

proof fn lemma_trim_end_skip(t: Seq<char>, k: int)
    requires
        0 <= k <= t.len(),
        forall|i: int| k <= i < t.len() ==> white_space(#[trigger] t[i]),
    ensures
        trim_end(t) == trim_end(t.subrange(0, k)),
    decreases t.len() - k,
{
    if k < t.len() {
        let d = t.drop_last();
        lemma_trim_end_skip(d, k);
        assert(d.subrange(0, k) =~= t.subrange(0, k));
    } else {
        assert(t.subrange(0, k) =~= t);
    }
}

proof fn lemma_strip_colons_skip(t: Seq<char>, k: int)
    requires
        0 <= k <= t.len(),
        forall|i: int| k <= i < t.len() ==> #[trigger] t[i] == ':',
    ensures
        strip_colons(t) == strip_colons(t.subrange(0, k)),
    decreases t.len() - k,
{
    if k < t.len() {
        let d = t.drop_last();
        lemma_strip_colons_skip(d, k);
        assert(d.subrange(0, k) =~= t.subrange(0, k));
    } else {
        assert(t.subrange(0, k) =~= t);
    }
}

fn copy_range(s: &Vec<char>, lo: usize, hi: usize) -> (r: Vec<char>)
    requires
        lo <= hi <= s@.len(),
    ensures
        r@ == s@.subrange(lo as int, hi as int),
{
    let mut out: Vec<char> = Vec::new();
    let mut i = lo;
    while i < hi
        invariant
            lo <= i <= hi,
            hi <= s@.len(),
            out@ == s@.subrange(lo as int, i as int),
        decreases hi - i,
    {
        out.push(s[i]);
        i += 1;
        assert(out@ =~= s@.subrange(lo as int, i as int));
    }
    out
}

/// The characters `lo..hi` of `s` without leading or trailing white space.
fn trimmed_range(s: &Vec<char>, lo: usize, hi: usize) -> (r: Vec<char>)
    requires
        lo <= hi <= s@.len(),
    ensures
        r@ == trim(s@.subrange(lo as int, hi as int)),
{
    let ghost whole = s@.subrange(lo as int, hi as int);
    let mut a = lo;
    while a < hi && is_white_space(s[a])
        invariant
            lo <= a <= hi,
            hi <= s@.len(),
            forall|i: int| lo <= i < a ==> white_space(#[trigger] s@[i]),
        decreases hi - a,
    {
        a += 1;
    }
    let ghost rest = s@.subrange(a as int, hi as int);
    proof {
        assert forall|i: int| 0 <= i < a - lo implies white_space(#[trigger] whole[i]) by {
            assert(whole[i] == s@[lo + i]);
        }
        lemma_trim_start_skip(whole, a - lo);
        assert(whole.subrange(a - lo, whole.len() as int) =~= rest);
    }
    let mut b = hi;
    while b > a && is_white_space(s[b - 1])
        invariant
            a <= b <= hi,
            hi <= s@.len(),
            forall|i: int| b <= i < hi ==> white_space(#[trigger] s@[i]),
        decreases b - a,
    {
        b -= 1;
    }
    proof {
        assert forall|i: int| b - a <= i < rest.len() implies white_space(#[trigger] rest[i]) by {
            assert(rest[i] == s@[a + i]);
        }
        lemma_trim_end_skip(rest, b - a);
        assert(rest.subrange(0, b - a) =~= s@.subrange(a as int, b as int));
    }
    copy_range(s, a, b)
}

/// The name a header line gives: `t` without its trailing colons, trimmed.
fn header_name(t: &Vec<char>) -> (r: Vec<char>)
    ensures
        r@ == trim(strip_colons(t@)),
{
    let mut b = t.len();
    while b > 0 && t[b - 1] == ':'
        invariant
            b <= t@.len(),
            forall|i: int| b <= i < t@.len() ==> #[trigger] t@[i] == ':',
        decreases b,
    {
        b -= 1;
    }
    proof {
        lemma_strip_colons_skip(t@, b as int);
        assert(t@.subrange(0, b as int).subrange(0, b as int) =~= t@.subrange(0, b as int));
    }
    trimmed_range(t, 0, b)
}

/// The fields kept of one display while scanning.
struct Scanned {
    name: Option<Vec<char>>,
    resolution: Option<Vec<char>>,
}

spec fn opt_chars(o: Option<Vec<char>>) -> Option<Seq<char>> {
    match o {
        Some(v) => Some(v@),
        None => None,
    }
}

spec fn entry_of(e: Scanned) -> Entry {
    (opt_chars(e.name), opt_chars(e.resolution))
}

spec fn opt_entry(o: Option<Scanned>) -> Option<Entry> {
    match o {
        Some(e) => Some(entry_of(e)),
        None => None,
    }
}

spec fn line_views(lines: Seq<Vec<char>>) -> Seq<Seq<char>> {
    lines.map_values(|l: Vec<char>| l@)
}

spec fn entry_views(es: Seq<Scanned>) -> Seq<Entry> {
    es.map_values(|e: Scanned| entry_of(e))
}

fn same_chars(a: &Vec<char>, b: &Vec<char>) -> (r: bool)
    ensures
        r == (a@ == b@),
{
    if a.len() != b.len() {
        assert(a@.len() != b@.len());
        return false;
    }
    let mut i: usize = 0;
    while i < a.len()
        invariant
            a@.len() == b@.len(),
            i <= a@.len(),
            forall|j: int| 0 <= j < i ==> a@[j] == b@[j],
        decreases a@.len() - i,
    {
        if a[i] != b[i] {
            assert(a@[i as int] != b@[i as int]);
            return false;
        }
        i += 1;
    }
    assert(a@ =~= b@);
    true
}

fn lines_of(s: &Vec<char>) -> (r: Vec<Vec<char>>)
    ensures
        line_views(r@) == split_lines(s@),
{
    let mut lines: Vec<Vec<char>> = Vec::new();
    let mut cur: Vec<char> = Vec::new();
    let mut i: usize = 0;
    assert(line_views(lines@).push(cur@) =~= split_lines(s@.subrange(0, 0)));
    while i < s.len()
        invariant
            i <= s@.len(),
            line_views(lines@).push(cur@) == split_lines(s@.subrange(0, i as int)),
        decreases s@.len() - i,
    {
        let c = s[i];
        let ghost before = line_views(lines@);
        let ghost cur_before = cur@;
        if c == '\n' {
            lines.push(cur);
            cur = Vec::new();
            assert(line_views(lines@) =~= before.push(cur_before));
        } else {
            cur.push(c);
            assert(line_views(lines@) =~= before);
        }
        i += 1;
        proof {
            let sub = s@.subrange(0, i as int);
            assert(sub.drop_last() =~= s@.subrange(0, i - 1));
            assert(sub.last() == c);
            assert(line_views(lines@).push(cur@) =~= split_lines(sub));
        }
    }
    assert(s@.subrange(0, s@.len() as int) =~= s@);
    let ghost before = line_views(lines@);
    lines.push(cur);
    assert(line_views(lines@) =~= split_lines(s@));
    lines
}

/// Position of the first colon of `raw`, if any.
fn first_colon(raw: &Vec<char>) -> (r: Option<usize>)
    ensures
        match r {
            Some(k) => is_first_colon(raw@, k as int),
            None => !exists|k: int| is_first_colon(raw@, k),
        },
{
    let mut i: usize = 0;
    while i < raw.len()
        invariant
            i <= raw@.len(),
            forall|j: int| 0 <= j < i ==> raw@[j] != ':',
        decreases raw@.len() - i,
    {
        if raw[i] == ':' {
            return Some(i);
        }
        i += 1;
    }
    assert forall|k: int| !is_first_colon(raw@, k) by {
        if 0 <= k < raw@.len() {
            assert(raw@[k] != ':');
        }
    }
    None
}

proof fn lemma_first_colon_unique(s: Seq<char>, k: int)
    requires
        is_first_colon(s, k),
    ensures
        (choose|j: int| is_first_colon(s, j)) == k,
{
    let j = choose|j: int| is_first_colon(s, j);
    assert(is_first_colon(s, j));
    if j < k {
        assert(s[j] != ':');
    } else if k < j {
        assert(s[k] != ':');
    }
}

fn with_field_exec(e: Scanned, key: &Vec<char>, val: Vec<char>) -> (r: Scanned)
    ensures
        entry_of(r) == with_field(entry_of(e), key@, val@),
{
    let name_key = chars_of("name");
    let resolution_key = chars_of("Resolution");
    if same_chars(key, &name_key) {
        Scanned { name: Some(val), resolution: e.resolution }
    } else if same_chars(key, &resolution_key) {
        Scanned { name: e.name, resolution: Some(val) }
    } else {
        e
    }
}

/// Scans the lines and returns every display opened, in order.
fn scan_entries(lines: &Vec<Vec<char>>) -> (r: Vec<Scanned>)
    ensures
        ({
            let st = scan_all(line_views(lines@));
            entry_views(r@) == match st.2 {
                Some(c) => st.1.push(c),
                None => st.1,
            }
        }),
{
    let displays = chars_of("Displays:");
    let mut found = false;
    let mut done: Vec<Scanned> = Vec::new();
    let mut current: Option<Scanned> = None;
    let mut i: usize = 0;
    assert(line_views(lines@).subrange(0, 0) =~= Seq::<Seq<char>>::empty());
    while i < lines.len()
        invariant
            i <= lines@.len(),
            displays@ == "Displays:"@,
            (found, entry_views(done@), opt_entry(current)) == scan_all(
                line_views(lines@).subrange(0, i as int),
            ),
        decreases lines@.len() - i,
    {
        let raw = &lines[i];
        let ghost st = (found, entry_views(done@), opt_entry(current));
        let ghost before = entry_views(done@);
        assert(raw@.subrange(0, raw@.len() as int) =~= raw@);
        let t = trimmed_range(raw, 0, raw.len());
        if !found {
            found = same_chars(&t, &displays);
        } else if t.len() == 0 {
        } else if t[t.len() - 1] == ':' {
            let name = header_name(&t);
            match current.take() {
                Some(c) => {
                    done.push(c);
                    assert(entry_views(done@) =~= before.push(st.2->Some_0));
                },
                None => {},
            }
            current = Some(Scanned { name: Some(name), resolution: None });
        } else {
            match first_colon(raw) {
                Some(k) => {
                    proof {
                        lemma_first_colon_unique(raw@, k as int);
                    }
                    let key = trimmed_range(raw, 0, k);
                    let val = trimmed_range(raw, k + 1, raw.len());
                    let base = match current.take() {
                        Some(c) => c,
                        None => Scanned { name: None, resolution: None },
                    };
                    current = Some(with_field_exec(base, &key, val));
                },
                None => {},
            }
        }
        proof {
            let views = line_views(lines@);
            assert(views.subrange(0, i + 1).drop_last() =~= views.subrange(0, i as int));
            assert(views.subrange(0, i + 1).last() == raw@);
        }
        i += 1;
    }
    assert(line_views(lines@).subrange(0, lines@.len() as int) =~= line_views(lines@));
    let ghost before = entry_views(done@);
    let ghost last = opt_entry(current);
    match current {
        Some(c) => {
            done.push(c);
            assert(entry_views(done@) =~= before.push(last->Some_0));
        },
        None => {},
    }
    done
}

/// The listing of a display opened `index`-th, if its resolution can be read.
fn monitor_at(e: &Scanned, index: usize) -> (r: Option<MonitorInfo>)
    requires
        index < usize::MAX,
    ensures
        match r {
            Some(m) => monitor_of(entry_of(*e), index as int) == Some(monitor_view(m)),
            None => monitor_of(entry_of(*e), index as int) is None,
        },
{
    let res = match &e.resolution {
        Some(res) => res,
        None => return None,
    };
    let text = string_from_chars(res);
    let groups = match regex_first_two_groups("(?i)^\\s*(\\d+)\\s*[x×]\\s*(\\d+)", text.as_str()) {
        Some(g) => g,
        None => return None,
    };
    let width = parse_usize(groups.0.as_str());
    let height = parse_usize(groups.1.as_str());
    match (width, height) {
        (Some(width), Some(height)) => {
            let name = match &e.name {
                Some(n) => string_from_chars(n),
                None => string_from_chars(&chars_of("Unknown")),
            };
            Some(MonitorInfo { name, id: index + 1, width, height })
        },
        _ => None,
    }
}

/// The displays listed in a `system_profiler SPDisplaysDataType` report,
/// in the order the report gives them.
pub fn parse_display_profile(text: &str) -> (r: Vec<MonitorInfo>)
    ensures
        r@.map_values(|m: MonitorInfo| monitor_view(m)) == profile_monitors(text@),
{
    let cs = chars_of(text);
    let lines = lines_of(&cs);
    let entries = scan_entries(&lines);
    let ghost es = entry_views(entries@);
    let mut out: Vec<MonitorInfo> = Vec::new();
    let mut k: usize = 0;
    assert(es.subrange(0, 0) =~= Seq::<Entry>::empty());
    assert(out@.map_values(|m: MonitorInfo| monitor_view(m)) =~= Seq::<MonitorView>::empty());
    while k < entries.len()
        invariant
            k <= entries@.len(),
            es == entry_views(entries@),
            out@.map_values(|m: MonitorInfo| monitor_view(m)) == collect_monitors(
                es.subrange(0, k as int),
            ),
        decreases entries@.len() - k,
    {
        let ghost before = out@.map_values(|m: MonitorInfo| monitor_view(m));
        match monitor_at(&entries[k], k) {
            Some(m) => {
                out.push(m);
                assert(out@.map_values(|m: MonitorInfo| monitor_view(m)) =~= before.push(
                    monitor_view(out@.last()),
                ));
            },
            None => {},
        }
        proof {
            assert(es.subrange(0, k + 1).drop_last() =~= es.subrange(0, k as int));
            assert(es.subrange(0, k + 1).last() == entry_of(entries@[k as int]));
        }
        k += 1;
    }
    assert(es.subrange(0, es.len() as int) =~= es);
    out
}

} // verus!

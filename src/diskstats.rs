//! Block-device statistics: which devices count, and the sector totals of a
//! `/proc/diskstats` text.
use vstd::prelude::*;

use crate::text::{chars_of, parse_u64_chars, parsed_u64};

verus! {

/// `s` begins with `p`.
pub open spec fn starts_with(s: Seq<char>, p: Seq<char>) -> bool {
    p.len() <= s.len() && s.subrange(0, p.len() as int) == p
}

pub open spec fn is_ascii_digit(c: char) -> bool {
    '0' <= c && c <= '9'
}

pub open spec fn is_ascii_alpha(c: char) -> bool {
    ('a' <= c && c <= 'z') || ('A' <= c && c <= 'Z')
}

/// The first index at or after `i` that is not an ASCII digit (or the length).
pub open spec fn skip_digits(s: Seq<char>, i: int) -> int
    decreases s.len() - i,
{
    if 0 <= i < s.len() && is_ascii_digit(s[i]) {
        skip_digits(s, i + 1)
    } else {
        i
    }
}

/// The first index at or after `i` that holds `c`.
pub open spec fn find_from(s: Seq<char>, i: int, c: char) -> Option<int>
    decreases s.len() - i,
{
    if i < 0 || i >= s.len() {
        None
    } else if s[i] == c {
        Some(i)
    } else {
        find_from(s, i + 1, c)
    }
}

/// A partition suffix starts at index `i`: a `p` followed by a digit.
pub open spec fn partition_at(s: Seq<char>, i: int) -> bool {
    0 <= i && i + 1 < s.len() && s[i] == 'p' && is_ascii_digit(s[i + 1])
}

/// A whole physical device, as opposed to a partition or a virtual device.
/// `loop*`, `ram*` and `dm-*` are virtual. For `nvme`, the namespace number
/// after the first `n` past the prefix may not be followed by a `p<digit>`
/// partition suffix; for `mmcblk`, the device number may not be. Any other name counts when its last
/// character is a letter.
pub open spec fn is_physical(s: Seq<char>) -> bool {
    if starts_with(s, "loop"@) || starts_with(s, "ram"@) || starts_with(s, "dm-"@) {
        false
    } else if starts_with(s, "nvme"@) {
        match find_from(s, 4, 'n') {
            Some(k) => !partition_at(s, skip_digits(s, k + 1)),
            None => true,
        }
    } else if starts_with(s, "mmcblk"@) {
        !partition_at(s, skip_digits(s, 6))
    } else {
        s.len() > 0 && is_ascii_alpha(s.last())
    }
}

fn has_prefix(s: &Vec<char>, p: &str) -> (r: bool)
    ensures
        r == starts_with(s@, p@),
{
    let pc = chars_of(p);
    if pc.len() > s.len() {
        return false;
    }
    let mut i: usize = 0;
    while i < pc.len()
        invariant
            i <= pc@.len() <= s@.len(),
            pc@ == p@,
            forall|j: int| 0 <= j < i ==> s@[j] == pc@[j],
        decreases pc@.len() - i,
    {
        if s[i] != pc[i] {
            assert(s@.subrange(0, pc@.len() as int)[i as int] != p@[i as int]);
            return false;
        }
        i = i + 1;
    }
    assert(s@.subrange(0, pc@.len() as int) =~= p@);
    true
}

fn skip_digits_exec(s: &Vec<char>, i: usize) -> (r: usize)
    requires
        i <= s@.len(),
    ensures
        r as int == skip_digits(s@, i as int),
{
    let mut j = i;
    while j < s.len() && '0' <= s[j] && s[j] <= '9'
        invariant
            i <= j <= s@.len(),
            skip_digits(s@, j as int) == skip_digits(s@, i as int),
        decreases s@.len() - j,
    {
        j = j + 1;
    }
    j
}

fn find_exec(s: &Vec<char>, i: usize, c: char) -> (r: Option<usize>)
    ensures
        match r {
            Some(k) => find_from(s@, i as int, c) == Some(k as int),
            None => find_from(s@, i as int, c) is None,
        },
        r matches Some(k) ==> k < s@.len(),
{
    let mut j = i;
    while j < s.len()
        invariant
            i <= j,
            find_from(s@, j as int, c) == find_from(s@, i as int, c),
        decreases s@.len() - j,
    {
        if s[j] == c {
            return Some(j);
        }
        j = j + 1;
    }
    None
}

fn partition_at_exec(s: &Vec<char>, i: usize) -> (r: bool)
    ensures
        r == partition_at(s@, i as int),
{
    i < s.len() && s[i] == 'p' && i + 1 < s.len() && '0' <= s[i + 1] && s[i + 1] <= '9'
}

/// Whether the characters `s` name a whole physical device.
fn is_physical_chars(s: &Vec<char>) -> (r: bool)
    ensures
        r == is_physical(s@),
{
    if has_prefix(s, "loop") || has_prefix(s, "ram") || has_prefix(s, "dm-") {
        return false;
    }
    let n = s.len();
    if has_prefix(s, "nvme") {
        return match find_exec(s, 4, 'n') {
            Some(k) => !partition_at_exec(s, skip_digits_exec(s, k + 1)),
            None => true,
        };
    }
    if has_prefix(s, "mmcblk") {
        proof {
            reveal_strlit("mmcblk");
        }
        return !partition_at_exec(s, skip_digits_exec(s, 6));
    }
    if s.len() == 0 {
        return false;
    }
    let c = s[s.len() - 1];
    ('a' <= c && c <= 'z') || ('A' <= c && c <= 'Z')
}

/// Whether `device_name` names a whole physical device (`sda`, `nvme0n1`,
/// `mmcblk0`) rather than a partition (`sda1`, `nvme0n1p1`) or a virtual
/// device (`loop0`, `ram0`, `dm-0`).
pub fn is_physical_device(device_name: &str) -> (r: bool)
    ensures
        r == is_physical(device_name@),
{
    let s = chars_of(device_name);
    is_physical_chars(&s)
}


/// Unicode white space, as `char::is_whitespace` has it.
pub open spec fn is_space(c: char) -> bool {
    c == ' ' || ('\t' <= c && c <= '\r') || c == '\u{85}' || c == '\u{a0}' || c == '\u{1680}' || (
    '\u{2000}' <= c && c <= '\u{200a}') || c == '\u{2028}' || c == '\u{2029}' || c == '\u{202f}'
        || c == '\u{205f}' || c == '\u{3000}'
}

fn is_space_exec(c: char) -> (r: bool)
    ensures
        r == is_space(c),
{
    c == ' ' || ('\t' <= c && c <= '\r') || c == '\u{85}' || c == '\u{a0}' || c == '\u{1680}' || (
    '\u{2000}' <= c && c <= '\u{200a}') || c == '\u{2028}' || c == '\u{2029}' || c == '\u{202f}'
        || c == '\u{205f}' || c == '\u{3000}'
}

/// The pieces of `s` between newlines, empty ones included.
pub open spec fn split_lines(s: Seq<char>) -> Seq<Seq<char>>
    decreases s.len(),
{
    if s.len() == 0 {
        seq![Seq::empty()]
    } else {
        let p = split_lines(s.drop_last());
        if s.last() == '\n' {
            p.push(Seq::empty())
        } else {
            p.update(p.len() - 1, p.last().push(s.last()))
        }
    }
}

/// The maximal runs of non-space characters of `s`, in order.
pub open spec fn words(s: Seq<char>) -> Seq<Seq<char>>
    decreases s.len(),
{
    if s.len() == 0 {
        Seq::empty()
    } else {
        let w = words(s.drop_last());
        if is_space(s.last()) {
            w
        } else if s.len() >= 2 && !is_space(s[s.len() - 2]) {
            w.update(w.len() - 1, w.last().push(s.last()))
        } else {
            w.push(seq![s.last()])
        }
    }
}

proof fn lemma_split_lines_nonempty(s: Seq<char>)
    ensures
        split_lines(s).len() >= 1,
    decreases s.len(),
{
    if s.len() > 0 {
        lemma_split_lines_nonempty(s.drop_last());
    }
}

proof fn lemma_words_nonempty(s: Seq<char>)
    requires
        s.len() > 0,
        !is_space(s.last()),
    ensures
        words(s).len() >= 1,
    decreases s.len(),
{
    if s.len() >= 2 && !is_space(s[s.len() - 2]) {
        lemma_words_nonempty(s.drop_last());
    }
}

/// The sectors read and written that one line of `/proc/diskstats` adds:
/// a line of at least fourteen fields about a physical device, whose sixth and
/// tenth fields are counts.
pub open spec fn line_sectors(line: Seq<char>) -> Option<(u64, u64)> {
    let f = words(line);
    if f.len() >= 14 && is_physical(f[2]) && parsed_u64(f[5]) is Some && parsed_u64(f[9]) is Some {
        Some((parsed_u64(f[5])->0, parsed_u64(f[9])->0))
    } else {
        None
    }
}

/// The sectors read over all lines.
pub open spec fn read_total(lines: Seq<Seq<char>>) -> nat
    decreases lines.len(),
{
    if lines.len() == 0 {
        0
    } else {
        read_total(lines.drop_last()) + match line_sectors(lines.last()) {
            Some(p) => p.0 as nat,
            None => 0,
        }
    }
}

/// The sectors written over all lines.
pub open spec fn write_total(lines: Seq<Seq<char>>) -> nat
    decreases lines.len(),
{
    if lines.len() == 0 {
        0
    } else {
        write_total(lines.drop_last()) + match line_sectors(lines.last()) {
            Some(p) => p.1 as nat,
            None => 0,
        }
    }
}

/// `n`, or the largest `u64` when `n` is larger.
pub open spec fn saturate(n: nat) -> u64 {
    if n > u64::MAX {
        u64::MAX
    } else {
        n as u64
    }
}

/// The pieces of `s` between newlines.
fn split_lines_exec(s: &Vec<char>) -> (r: Vec<Vec<char>>)
    ensures
        r@.map_values(|l: Vec<char>| l@) == split_lines(s@),
{
    let mut r: Vec<Vec<char>> = Vec::new();
    r.push(Vec::new());
    let mut i: usize = 0;
    assert(s@.take(0) =~= Seq::<char>::empty());
    assert(r@.map_values(|l: Vec<char>| l@) =~= split_lines(s@.take(0)));
    while i < s.len()
        invariant
            i <= s@.len(),
            r@.map_values(|l: Vec<char>| l@) == split_lines(s@.take(i as int)),
        decreases s@.len() - i,
    {
        proof {
            assert(s@.take(i + 1).drop_last() =~= s@.take(i as int));
            lemma_split_lines_nonempty(s@.take(i as int));
        }
        let c = s[i];
        if c == '\n' {
            r.push(Vec::new());
            assert(r@.map_values(|l: Vec<char>| l@) =~= split_lines(s@.take(i + 1)));
        } else {
            let last = r.len() - 1;
            let mut line = r.remove(last);
            line.push(c);
            r.push(line);
            assert(r@.map_values(|l: Vec<char>| l@) =~= split_lines(s@.take(i + 1)));
        }
        i = i + 1;
    }
    assert(s@.take(s@.len() as int) =~= s@);
    r
}

/// The words of `s`.
fn words_exec(s: &Vec<char>) -> (r: Vec<Vec<char>>)
    ensures
        r@.map_values(|w: Vec<char>| w@) == words(s@),
{
    let mut r: Vec<Vec<char>> = Vec::new();
    let mut i: usize = 0;
    assert(r@.map_values(|w: Vec<char>| w@) =~= words(s@.take(0)));
    while i < s.len()
        invariant
            i <= s@.len(),
            r@.map_values(|w: Vec<char>| w@) == words(s@.take(i as int)),
        decreases s@.len() - i,
    {
        proof {
            assert(s@.take(i + 1).drop_last() =~= s@.take(i as int));
        }
        let c = s[i];
        if is_space_exec(c) {
        } else if i >= 1 && !is_space_exec(s[i - 1]) {
            proof {
                lemma_words_nonempty(s@.take(i as int));
            }
            let last = r.len() - 1;
            let mut w = r.remove(last);
            w.push(c);
            r.push(w);
            assert(r@.map_values(|w: Vec<char>| w@) =~= words(s@.take(i + 1)));
        } else {
            let mut w: Vec<char> = Vec::new();
            w.push(c);
            r.push(w);
            assert(r@.map_values(|w: Vec<char>| w@) =~= words(s@.take(i + 1)));
        }
        i = i + 1;
    }
    assert(s@.take(s@.len() as int) =~= s@);
    r
}

/// The sectors that one line adds, computed.
fn line_sectors_exec(line: &Vec<char>) -> (r: Option<(u64, u64)>)
    ensures
        r == line_sectors(line@),
{
    let f = words_exec(line);
    let ghost fv = f@.map_values(|w: Vec<char>| w@);
    if f.len() < 14 {
        return None;
    }
    assert(fv[2] == f@[2]@ && fv[5] == f@[5]@ && fv[9] == f@[9]@);
    if !is_physical_chars(&f[2]) {
        return None;
    }
    match (parse_u64_chars(&f[5]), parse_u64_chars(&f[9])) {
        (Some(read), Some(write)) => Some((read, write)),
        _ => None,
    }
}

/// The total sectors read and written by the physical devices that a
/// `/proc/diskstats` text lists; each total stops at the largest `u64`.
pub fn parse_diskstats(content: &str) -> (r: (u64, u64))
    ensures
        r.0 == saturate(read_total(split_lines(content@))),
        r.1 == saturate(write_total(split_lines(content@))),
{
    let s = chars_of(content);
    let lines = split_lines_exec(&s);
    let ghost lv = lines@.map_values(|l: Vec<char>| l@);
    let mut total_read: u64 = 0;
    let mut total_write: u64 = 0;
    let mut i: usize = 0;
    while i < lines.len()
        invariant
            i <= lines@.len(),
            lv == lines@.map_values(|l: Vec<char>| l@),
            total_read == saturate(read_total(lv.take(i as int))),
            total_write == saturate(write_total(lv.take(i as int))),
        decreases lines@.len() - i,
    {
        proof {
            assert(lv.take(i + 1).drop_last() =~= lv.take(i as int));
            assert(lv.take(i + 1).last() == lines@[i as int]@);
        }
        match line_sectors_exec(&lines[i]) {
            Some((read, write)) => {
                total_read = total_read.saturating_add(read);
                total_write = total_write.saturating_add(write);
            },
            None => {},
        }
        i = i + 1;
    }
    assert(lv.take(lines@.len() as int) =~= lv);
    (total_read, total_write)
}


/// `a - b`, or zero when `b` is larger: a counter that went back counts as no progress.
pub open spec fn progress(a: u64, b: u64) -> nat {
    if a >= b {
        (a - b) as nat
    } else {
        0
    }
}

/// The sector counts seen at the previous refresh.
pub struct SectorCounters {
    last_read: u64,
    last_write: u64,
}

impl SectorCounters {
    pub fn new(read: u64, write: u64) -> (r: Self)
        ensures
            r.last_read_spec() == read,
            r.last_write_spec() == write,
    {
        SectorCounters { last_read: read, last_write: write }
    }

    pub closed spec fn last_read_spec(&self) -> u64 {
        self.last_read
    }

    pub closed spec fn last_write_spec(&self) -> u64 {
        self.last_write
    }

    pub fn last_read(&self) -> (r: u64)
        ensures
            r == self.last_read_spec(),
    {
        self.last_read
    }

    pub fn last_write(&self) -> (r: u64)
        ensures
            r == self.last_write_spec(),
    {
        self.last_write
    }

    /// Records the counts of this refresh and returns the sectors read and
    /// written since the previous one (at most the largest `u64`).
    pub fn advance(&mut self, read: u64, write: u64) -> (r: u64)
        ensures
            r == saturate(progress(read, old(self).last_read_spec()) + progress(
                write,
                old(self).last_write_spec(),
            )),
            final(self).last_read_spec() == read,
            final(self).last_write_spec() == write,
    {
        let read_delta = read.saturating_sub(self.last_read);
        let write_delta = write.saturating_sub(self.last_write);
        self.last_read = read;
        self.last_write = write;
        read_delta.saturating_add(write_delta)
    }
}

/// Two refreshes that see the same counts measure no activity between them.
pub proof fn lemma_unchanged_counts_no_activity(read: u64, write: u64)
    ensures
        saturate(progress(read, read) + progress(write, write)) == 0,
{
}

} // verus!

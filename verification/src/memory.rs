//! Sizing the image caches from the memory the system and its control
//! groups allow.
use vstd::prelude::*;
use crate::text::{
    chars_of, has_prefix, is_whitespace, parse_unsigned, parse_unsigned_chars, skip_chars,
    starts_with_str, trim_chars, trim_ws, whitespace,
};

verus! {

pub const MIN_TEXTURE_BUDGET: u64 = 67108864;
pub const MAX_TEXTURE_BUDGET: u64 = 536870912;
pub const ASSUMED_TEXTURE_BYTES: u64 = 16777216;
/// What is assumed where the system's memory cannot be read: 4 GiB.
pub const DEFAULT_MEMORY_BYTES: u64 = 4294967296;

/// A positive number in a control-group file: the trimmed contents parsed
/// as `u64`; nothing for "max", zero or anything else.
pub open spec fn read_number_spec(contents: Seq<char>) -> Option<u64> {
    match parse_unsigned(trim_ws(contents), u64::MAX as nat) {
        Some(v) => if v > 0 { Some(v as u64) } else { None },
        None => None,
    }
}

/// Reads a positive number from a control-group file's contents.
pub fn read_number(contents: &str) -> (r: Option<u64>)
    ensures
        r == read_number_spec(contents@),
{
    let chars = chars_of(contents);
    let trimmed = trim_chars(&chars);
    match parse_unsigned_chars(&trimmed, u64::MAX) {
        Some(v) => if v > 0 { Some(v) } else { None },
        None => None,
    }
}

/// The position of the first line break at or after `from`.
pub open spec fn find_newline(s: Seq<char>, from: int) -> Option<int>
    decreases s.len() - from,
{
    if from < 0 || from >= s.len() {
        None
    } else if s[from] == '\n' {
        Some(from)
    } else {
        find_newline(s, from + 1)
    }
}

/// A line that ended in a line break, without the carriage return of a
/// "\r\n" ending.
pub open spec fn strip_cr(line: Seq<char>) -> Seq<char> {
    if line.len() > 0 && line.last() == '\r' { line.drop_last() } else { line }
}

/// The lines of `s` as `str::lines` gives them: split at "\n" or "\r\n",
/// with no empty line after a final line break.
pub open spec fn lines(s: Seq<char>) -> Seq<Seq<char>>
    decreases s.len(),
{
    if s.len() == 0 {
        Seq::empty()
    } else {
        match find_newline(s, 0) {
            None => seq![s],
            Some(i) => if 0 <= i < s.len() {
                seq![strip_cr(s.take(i))] + lines(s.skip(i + 1))
            } else {
                Seq::empty()
            },
        }
    }
}

/// The characters up to the first whitespace.
pub open spec fn until_whitespace(s: Seq<char>) -> Seq<char>
    decreases s.len(),
{
    if s.len() == 0 || is_whitespace(s[0]) {
        Seq::empty()
    } else {
        seq![s[0]] + until_whitespace(s.drop_first())
    }
}

/// What the first line of /proc/meminfo that reports "MemTotal:" with a
/// number says, in bytes (the file counts in KiB).
pub open spec fn mem_total_in(ls: Seq<Seq<char>>) -> Option<u64>
    decreases ls.len(),
{
    if ls.len() == 0 {
        None
    } else {
        let line = ls[0];
        let value = if has_prefix(line, "MemTotal:"@) {
            let rest = line.skip(9);
            let word = until_whitespace(crate::text::trim_start_ws(rest));
            match parse_unsigned(word, u64::MAX as nat) {
                Some(k) => Some(if k * 1024 > u64::MAX { u64::MAX } else { (k * 1024) as u64 }),
                None => None,
            }
        } else {
            None
        };
        match value {
            Some(v) => Some(v),
            None => mem_total_in(ls.drop_first()),
        }
    }
}

pub open spec fn mem_total_spec(meminfo: Seq<char>) -> Option<u64> {
    mem_total_in(lines(meminfo))
}

fn line_value(line: &Vec<char>) -> (r: Option<u64>)
    ensures
        r == (if has_prefix(line@, "MemTotal:"@) {
            let word = until_whitespace(crate::text::trim_start_ws(line@.skip(9)));
            match parse_unsigned(word, u64::MAX as nat) {
                Some(k) => Some(if k * 1024 > u64::MAX { u64::MAX } else { (k * 1024) as u64 }),
                None => None,
            }
        } else {
            None
        }),
{
    if !starts_with_str(line, "MemTotal:") {
        return None;
    }
    proof {
        reveal_strlit("MemTotal:");
    }
    let rest = skip_chars(line, 9);
    let word = first_word(&rest);
    match parse_unsigned_chars(&word, u64::MAX) {
        Some(k) => Some(if k > u64::MAX / 1024 { u64::MAX } else { k * 1024 }),
        None => None,
    }
}

/// The memory that /proc/meminfo reports, if its contents say.
pub fn mem_total(meminfo: &str) -> (r: Option<u64>)
    ensures
        r == mem_total_spec(meminfo@),
{
    let s = chars_of(meminfo);
    let n = s.len();
    let mut start: usize = 0;
    assert(s@.skip(0) =~= s@);
    while start < n
        invariant
            start <= n == s@.len(),
            mem_total_spec(meminfo@) == mem_total_in(lines(s@.skip(start as int))),
            s@ == meminfo@,
        decreases n - start,
    {
        let ghost rest = s@.skip(start as int);
        let mut end = start;
        while end < n && s[end] != '\n'
            invariant
                start <= end <= n == s@.len(),
                rest == s@.skip(start as int),
                find_newline(rest, 0) == find_newline(rest, end - start),
            decreases n - end,
        {
            end += 1;
        }
        let mut line: Vec<char> = Vec::new();
        let mut k = start;
        while k < end
            invariant
                start <= k <= end <= n == s@.len(),
                line@ == s@.subrange(start as int, k as int),
            decreases end - k,
        {
            line.push(s[k]);
            k += 1;
            assert(line@ =~= s@.subrange(start as int, k as int));
        }
        let ghost body = line@;
        if end < n {
            if line.len() > 0 && line[line.len() - 1] == '\r' {
                line.pop();
            }
            assert(body =~= rest.take(end - start));
            assert(line@ == strip_cr(rest.take(end - start)));
            assert(rest.skip(end - start + 1) =~= s@.skip(end + 1));
        } else {
            assert(body =~= rest);
        }
        let ghost ls = lines(rest);
        assert(ls[0] == line@);
        assert(ls.drop_first() == lines(s@.skip(if end < n { end + 1 } else { n as int }))) by {
            if end >= n {
                assert(s@.skip(n as int) =~= Seq::<char>::empty());
            }
        }
        if let Some(v) = line_value(&line) {
            return Some(v);
        }
        start = if end < n { end + 1 } else { n };
    }
    assert(s@.skip(n as int) =~= Seq::<char>::empty());
    None
}

/// The memory the process may use: what the system reports (4 GiB where it
/// does not say), lowered to any control-group limit.
pub open spec fn effective_memory_spec(meminfo: Option<Seq<char>>, cgroup_max: Option<Seq<char>>, cgroup_limit: Option<Seq<char>>) -> u64 {
    let system = match meminfo {
        Some(m) => match mem_total_spec(m) {
            Some(v) => v,
            None => DEFAULT_MEMORY_BYTES,
        },
        None => DEFAULT_MEMORY_BYTES,
    };
    let a = match cgroup_max {
        Some(c) => match read_number_spec(c) {
            Some(v) => if v < system { v } else { system },
            None => system,
        },
        None => system,
    };
    match cgroup_limit {
        Some(c) => match read_number_spec(c) {
            Some(v) => if v < a { v } else { a },
            None => a,
        },
        None => a,
    }
}

pub open spec fn opt_chars(s: Option<&str>) -> Option<Seq<char>> {
    match s {
        Some(s) => Some(s@),
        None => None,
    }
}

/// The memory available to the process, from the contents of
/// /proc/meminfo and of the two control-group limit files, where they
/// could be read.
pub fn effective_memory_bytes(meminfo: Option<&str>, cgroup_max: Option<&str>, cgroup_limit: Option<&str>) -> (m: u64)
    ensures
        m == effective_memory_spec(opt_chars(meminfo), opt_chars(cgroup_max), opt_chars(cgroup_limit)),
{
    let system = match meminfo {
        Some(s) => match mem_total(s) {
            Some(v) => v,
            None => DEFAULT_MEMORY_BYTES,
        },
        None => DEFAULT_MEMORY_BYTES,
    };
    let mut result = system;
    if let Some(c) = cgroup_max {
        if let Some(v) = read_number(c) {
            if v < result {
                result = v;
            }
        }
    }
    if let Some(c) = cgroup_limit {
        if let Some(v) = read_number(c) {
            if v < result {
                result = v;
            }
        }
    }
    result
}

/// A forty-eighth of the memory, kept between 64 MiB and 512 MiB.
pub open spec fn texture_budget_spec(memory: u64) -> u64 {
    let b = memory / 48;
    if b < MIN_TEXTURE_BUDGET { MIN_TEXTURE_BUDGET } else if b > MAX_TEXTURE_BUDGET { MAX_TEXTURE_BUDGET } else { b }
}

/// The byte budget of decoded textures for a process with `memory` bytes.
pub fn adaptive_texture_budget(memory: u64) -> (b: u64)
    ensures
        b == texture_budget_spec(memory),
{
    let b = memory / 48;
    if b < MIN_TEXTURE_BUDGET { MIN_TEXTURE_BUDGET } else if b > MAX_TEXTURE_BUDGET { MAX_TEXTURE_BUDGET } else { b }
}

/// How many images load at once: one on up to two processors, two on up to
/// eight, three beyond.
pub fn adaptive_loader_limit(parallelism: usize) -> (n: usize)
    ensures
        n == (if parallelism <= 2 { 1usize } else if parallelism <= 8 { 2usize } else { 3usize }),
{
    if parallelism <= 2 { 1 } else if parallelism <= 8 { 2 } else { 3 }
}

pub open spec fn prefetch_slots_spec(budget: u64) -> usize {
    let n = budget / ASSUMED_TEXTURE_BYTES;
    if n < 3 { 3 } else if n > 64 { 64 } else { n as usize }
}

/// How many images are prefetched: one per 16 MiB of budget, from 3 to 64.
pub fn prefetch_slots(budget: u64) -> (n: usize)
    ensures
        n == prefetch_slots_spec(budget),
{
    let n = budget / ASSUMED_TEXTURE_BYTES;
    if n < 3 { 3 } else if n > 64 { 64 } else { n as usize }
}

pub open spec fn media_prefetch_slots_spec(budget: u64) -> usize {
    let n = prefetch_slots_spec(budget) / 4;
    if n < 2 { 2 } else if n > 8 { 8 } else { n }
}

/// How many videos are kept prepared: a quarter of the image slots, from 2 to 8.
pub fn media_prefetch_slots(budget: u64) -> (n: usize)
    ensures
        n == media_prefetch_slots_spec(budget),
{
    let n = prefetch_slots(budget) / 4;
    if n < 2 { 2 } else if n > 8 { 8 } else { n }
}

/// The first line of `ls` that starts with `name`, without that prefix.
pub open spec fn first_with_prefix(ls: Seq<Seq<char>>, name: Seq<char>) -> Option<Seq<char>>
    decreases ls.len(),
{
    if ls.len() == 0 {
        None
    } else if has_prefix(ls[0], name) {
        Some(ls[0].skip(name.len() as int))
    } else {
        first_with_prefix(ls.drop_first(), name)
    }
}

/// The number after `name` on the first line of a /proc status file that
/// starts with it; 0 where there is no such line or no number there.
pub open spec fn status_value_spec(status: Seq<char>, name: Seq<char>) -> u64 {
    match first_with_prefix(lines(status), name) {
        Some(rest) => match parse_unsigned(until_whitespace(crate::text::trim_start_ws(rest)), u64::MAX as nat) {
            Some(v) => v as u64,
            None => 0,
        },
        None => 0,
    }
}

fn first_word(rest: &Vec<char>) -> (word: Vec<char>)
    ensures
        word@ == until_whitespace(crate::text::trim_start_ws(rest@)),
{
    let mut i: usize = 0;
    assert(rest@.skip(0) =~= rest@);
    while i < rest.len() && whitespace(rest[i])
        invariant
            i <= rest@.len(),
            crate::text::trim_start_ws(rest@) == crate::text::trim_start_ws(rest@.skip(i as int)),
        decreases rest@.len() - i,
    {
        assert(rest@.skip(i as int).drop_first() =~= rest@.skip(i + 1));
        i += 1;
    }
    let ghost t = rest@.skip(i as int);
    assert(crate::text::trim_start_ws(t) == t);
    let mut word: Vec<char> = Vec::new();
    let mut j = i;
    while j < rest.len() && !whitespace(rest[j])
        invariant
            i <= j <= rest@.len(),
            t == rest@.skip(i as int),
            word@ + until_whitespace(rest@.skip(j as int)) == until_whitespace(t),
        decreases rest@.len() - j,
    {
        let ghost u = rest@.skip(j as int);
        let ghost w0 = word@;
        assert(u.drop_first() =~= rest@.skip(j + 1));
        assert(until_whitespace(u) == seq![u[0]] + until_whitespace(u.drop_first()));
        word.push(rest[j]);
        j += 1;
        assert(word@ + until_whitespace(rest@.skip(j as int)) =~= w0 + until_whitespace(u));
    }
    assert(until_whitespace(rest@.skip(j as int)) =~= Seq::<char>::empty());
    assert(word@ =~= until_whitespace(t));
    word
}

/// Reads a value such as "VmRSS:" from the contents of /proc/self/status.
pub fn status_value(status: &str, name: &str) -> (v: u64)
    ensures
        v == status_value_spec(status@, name@),
{
    let s = chars_of(status);
    let n = s.len();
    let mut start: usize = 0;
    assert(s@.skip(0) =~= s@);
    while start < n
        invariant
            start <= n == s@.len(),
            s@ == status@,
            first_with_prefix(lines(status@), name@) == first_with_prefix(lines(s@.skip(start as int)), name@),
        decreases n - start,
    {
        let ghost rest = s@.skip(start as int);
        let mut end = start;
        while end < n && s[end] != '\n'
            invariant
                start <= end <= n == s@.len(),
                rest == s@.skip(start as int),
                find_newline(rest, 0) == find_newline(rest, end - start),
            decreases n - end,
        {
            end += 1;
        }
        let mut line: Vec<char> = Vec::new();
        let mut k = start;
        while k < end
            invariant
                start <= k <= end <= n == s@.len(),
                line@ == s@.subrange(start as int, k as int),
            decreases end - k,
        {
            line.push(s[k]);
            k += 1;
            assert(line@ =~= s@.subrange(start as int, k as int));
        }
        let ghost body = line@;
        if end < n {
            if line.len() > 0 && line[line.len() - 1] == '\r' {
                line.pop();
            }
            assert(body =~= rest.take(end - start));
            assert(line@ == strip_cr(rest.take(end - start)));
            assert(rest.skip(end - start + 1) =~= s@.skip(end + 1));
        } else {
            assert(body =~= rest);
        }
        let ghost ls = lines(rest);
        assert(ls[0] == line@);
        assert(ls.drop_first() == lines(s@.skip(if end < n { end + 1 } else { n as int }))) by {
            if end >= n {
                assert(s@.skip(n as int) =~= Seq::<char>::empty());
            }
        }
        if starts_with_str(&line, name) {
            let rest_of_line = skip_chars(&line, chars_of(name).len());
            let word = first_word(&rest_of_line);
            return match parse_unsigned_chars(&word, u64::MAX) {
                Some(v) => v,
                None => 0,
            };
        }
        start = if end < n { end + 1 } else { n };
    }
    assert(s@.skip(n as int) =~= Seq::<char>::empty());
    0
}

} // verus!

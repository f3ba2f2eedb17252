//! Memory statistics from the text of `/proc/meminfo`, and the page size.
use vstd::prelude::*;
use crate::config::string_texts;
use crate::text::{chars_of, parse_u64, parse_u64_chars, split_words, starts_with, starts_with_str, views, words};

verus! {

/// System memory figures, in MB.
#[derive(Debug, Clone, Copy, Default, PartialEq, Eq, Structural)]
pub struct MemoryStats {
    pub total_mb: u64,
    pub available_mb: u64,
    pub free_mb: u64,
    pub cached_mb: u64,
}

/// Reading of system memory information.
pub struct SysInfo;

/// The number on a `/proc/meminfo` line: its second whitespace-separated
/// word, if it parses as a `u64`.
pub open spec fn meminfo_value(line: Seq<char>) -> Option<u64> {
    let w = words(line);
    if w.len() >= 2 {
        parse_u64(w[1])
    } else {
        None
    }
}

/// The values (kB) of `MemTotal:`, `MemAvailable:`, `MemFree:` and `Cached:`
/// after reading the lines `ls` in order; a later line of the same kind
/// replaces an earlier one, also with `None` when its number is unreadable.
pub open spec fn meminfo_fields(ls: Seq<Seq<char>>) -> (Option<u64>, Option<u64>, Option<u64>, Option<u64>)
    decreases ls.len(),
{
    if ls.len() == 0 {
        (None, None, None, None)
    } else {
        let p = meminfo_fields(ls.drop_last());
        let l = ls.last();
        if starts_with(l, "MemTotal:"@) {
            (meminfo_value(l), p.1, p.2, p.3)
        } else if starts_with(l, "MemAvailable:"@) {
            (p.0, meminfo_value(l), p.2, p.3)
        } else if starts_with(l, "MemFree:"@) {
            (p.0, p.1, meminfo_value(l), p.3)
        } else if starts_with(l, "Cached:"@) {
            (p.0, p.1, p.2, meminfo_value(l))
        } else {
            p
        }
    }
}

pub open spec fn or_else(o: Option<u64>, d: u64) -> u64 {
    match o {
        Some(v) => v,
        None => d,
    }
}

/// The memory statistics that the lines of `/proc/meminfo` give: none
/// without a readable `MemTotal:`; a missing free or cached figure counts as
/// 0, a missing available figure as the free one; kB are divided down to MB.
pub open spec fn memory_stats_of(ls: Seq<Seq<char>>) -> Option<MemoryStats> {
    let p = meminfo_fields(ls);
    match p.0 {
        None => None,
        Some(total_kb) => {
            let free_kb = or_else(p.2, 0);
            let avail_kb = or_else(p.1, free_kb);
            let cached_kb = or_else(p.3, 0);
            Some(
                MemoryStats {
                    total_mb: total_kb / 1024,
                    available_mb: avail_kb / 1024,
                    free_mb: free_kb / 1024,
                    cached_mb: cached_kb / 1024,
                },
            )
        },
    }
}

/// The page size to use, given what `sysconf(_SC_PAGESIZE)` returned.
pub open spec fn page_size_of(raw: i64) -> u64 {
    if raw > 0 {
        raw as u64
    } else {
        4096
    }
}

/// A line that starts with none of `MemTotal:`, `MemAvailable:`, `MemFree:`
/// and `Cached:` changes nothing.
pub proof fn lemma_meminfo_other_line(ls: Seq<Seq<char>>, l: Seq<char>)
    requires
        !starts_with(l, "MemTotal:"@),
        !starts_with(l, "MemAvailable:"@),
        !starts_with(l, "MemFree:"@),
        !starts_with(l, "Cached:"@),
    ensures
        memory_stats_of(ls.push(l)) == memory_stats_of(ls),
{
    assert(ls.push(l).drop_last() =~= ls);
}

/// Lines that do not start with `MemTotal:` leave the total as it was.
proof fn lemma_total_kept(pre: Seq<Seq<char>>, post: Seq<Seq<char>>)
    requires
        forall|j: int| 0 <= j < post.len() ==> !starts_with(#[trigger] post[j], "MemTotal:"@),
    ensures
        meminfo_fields(pre + post).0 == meminfo_fields(pre).0,
    decreases post.len(),
{
    if post.len() == 0 {
        assert(pre + post =~= pre);
    } else {
        let d = post.drop_last();
        assert forall|j: int| 0 <= j < d.len() implies !starts_with(#[trigger] d[j], "MemTotal:"@) by {
            assert(d[j] == post[j]);
        }
        lemma_total_kept(pre, d);
        assert((pre + post).drop_last() =~= pre + d);
        assert((pre + post).last() == post[post.len() - 1]);
    }
}

/// Lines that do not start with `MemAvailable:` leave the available figure
/// as it was.
proof fn lemma_available_kept(pre: Seq<Seq<char>>, post: Seq<Seq<char>>)
    requires
        forall|j: int| 0 <= j < post.len() ==> !starts_with(#[trigger] post[j], "MemAvailable:"@),
    ensures
        meminfo_fields(pre + post).1 == meminfo_fields(pre).1,
    decreases post.len(),
{
    if post.len() == 0 {
        assert(pre + post =~= pre);
    } else {
        let d = post.drop_last();
        assert forall|j: int| 0 <= j < d.len() implies !starts_with(#[trigger] d[j], "MemAvailable:"@) by {
            assert(d[j] == post[j]);
        }
        lemma_available_kept(pre, d);
        assert((pre + post).drop_last() =~= pre + d);
        assert((pre + post).last() == post[post.len() - 1]);
    }
}

/// The last line that starts with `MemTotal:` decides the total: no figures
/// when its number is unreadable, else its kB in MB, rounded down.
pub proof fn lemma_meminfo_last_total(pre: Seq<Seq<char>>, l: Seq<char>, post: Seq<Seq<char>>)
    requires
        starts_with(l, "MemTotal:"@),
        forall|j: int| 0 <= j < post.len() ==> !starts_with(#[trigger] post[j], "MemTotal:"@),
    ensures
        memory_stats_of(pre.push(l) + post) is None <==> meminfo_value(l) is None,
        meminfo_value(l) is Some ==> memory_stats_of(pre.push(l) + post)->0.total_mb == meminfo_value(l)->0
            / 1024,
{
    lemma_total_kept(pre.push(l), post);
    assert(pre.push(l).drop_last() =~= pre);
}

/// Without a line starting with `MemTotal:` there are no figures.
pub proof fn lemma_meminfo_needs_total(ls: Seq<Seq<char>>)
    requires
        forall|j: int| 0 <= j < ls.len() ==> !starts_with(#[trigger] ls[j], "MemTotal:"@),
    ensures
        memory_stats_of(ls) is None,
{
    lemma_total_kept(Seq::empty(), ls);
    assert(Seq::<Seq<char>>::empty() + ls =~= ls);
}

/// Without a line starting with `MemAvailable:` the available figure is the
/// free one.
pub proof fn lemma_meminfo_available_defaults_to_free(ls: Seq<Seq<char>>)
    requires
        forall|j: int| 0 <= j < ls.len() ==> !starts_with(#[trigger] ls[j], "MemAvailable:"@),
    ensures
        memory_stats_of(ls) is Some ==> memory_stats_of(ls)->0.available_mb == memory_stats_of(ls)->0.free_mb,
{
    lemma_available_kept(Seq::empty(), ls);
    assert(Seq::<Seq<char>>::empty() + ls =~= ls);
}

/// The number on a `/proc/meminfo` line such as `MemTotal:  16384 kB`.
pub fn parse_meminfo_line(line: &str) -> (r: Option<u64>)
    ensures
        r == meminfo_value(line@),
{
    let chars = chars_of(line);
    let parts = split_words(&chars);
    if parts.len() >= 2 {
        proof {
            assert(parts@[1]@ == views(parts@)[1]);
        }
        parse_u64_chars(&parts[1])
    } else {
        None
    }
}

impl SysInfo {
    /// The memory statistics given by the lines of `/proc/meminfo`.
    pub fn get_memory_stats(lines: &Vec<String>) -> (r: Option<MemoryStats>)
        ensures
            r == memory_stats_of(string_texts(lines@)),
    {
        let ghost texts = string_texts(lines@);
        let mut total_kb: Option<u64> = None;
        let mut avail_kb: Option<u64> = None;
        let mut free_kb: Option<u64> = None;
        let mut cached_kb: Option<u64> = None;
        let n = lines.len();
        let mut k: usize = 0;
        while k < n
            invariant
                k <= n,
                n == lines@.len(),
                texts == string_texts(lines@),
                (total_kb, avail_kb, free_kb, cached_kb) == meminfo_fields(texts.take(k as int)),
            decreases n - k,
        {
            let line = lines[k].as_str();
            let chars = chars_of(line);
            proof {
                assert(texts.take(k + 1).drop_last() =~= texts.take(k as int));
                assert(texts.take(k + 1).last() == chars@);
            }
            if starts_with_str(&chars, "MemTotal:") {
                total_kb = parse_meminfo_line(line);
            } else if starts_with_str(&chars, "MemAvailable:") {
                avail_kb = parse_meminfo_line(line);
            } else if starts_with_str(&chars, "MemFree:") {
                free_kb = parse_meminfo_line(line);
            } else if starts_with_str(&chars, "Cached:") {
                cached_kb = parse_meminfo_line(line);
            }
            k += 1;
        }
        proof {
            assert(texts.take(n as int) =~= texts);
        }
        let total_kb = match total_kb {
            Some(t) => t,
            None => {
                return None;
            },
        };
        let free_kb = match free_kb {
            Some(f) => f,
            None => 0,
        };
        let avail_kb = match avail_kb {
            Some(a) => a,
            None => free_kb,
        };
        let cached_kb = match cached_kb {
            Some(c) => c,
            None => 0,
        };
        Some(
            MemoryStats {
                total_mb: total_kb / 1024,
                available_mb: avail_kb / 1024,
                free_mb: free_kb / 1024,
                cached_mb: cached_kb / 1024,
            },
        )
    }

    /// The page size in bytes, given what `sysconf(_SC_PAGESIZE)` returned:
    /// that value when positive, else 4096.
    pub fn page_size(raw: i64) -> (size: u64)
        ensures
            size == page_size_of(raw),
    {
        if raw > 0 {
            raw as u64
        } else {
            4096
        }
    }
}

} // verus!

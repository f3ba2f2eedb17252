//! Choice of the process to terminate, from what `/proc` shows of each
//! process.
use vstd::prelude::*;
use crate::config::{config_lines_effect, default_config, default_whitelist, lemma_config_lines_keep, Config, ConfigView};
use crate::text::{
    chars_of, lower_text, parse_i32, parse_i32_chars, parse_u64, parse_u64_chars, split_words,
    string_from_chars, to_lowercase, trim, trim_chars, views, words,
};

verus! {

/// Bytes in a MB (MiB).
pub open spec fn mib() -> nat {
    1024 * 1024
}

/// A process chosen for termination.
#[derive(Debug, Clone)]
pub struct ProcessInfo {
    pub pid: i32,
    pub comm: String,
    pub rss_mb: u64,
}

/// What `/proc` showed of one directory entry: its name, the contents of its
/// `comm` file (empty when unreadable), and the contents of its `statm` file
/// (`None` when unreadable).
pub struct ProcEntry {
    pub name: String,
    pub comm: String,
    pub statm: Option<String>,
}

/// A `ProcEntry` as values.
pub struct ProcEntryView {
    pub name: Seq<char>,
    pub comm: Seq<char>,
    pub statm: Option<Seq<char>>,
}

impl View for ProcEntry {
    type V = ProcEntryView;

    open spec fn view(&self) -> ProcEntryView {
        ProcEntryView {
            name: self.name@,
            comm: self.comm@,
            statm: match self.statm {
                Some(s) => Some(s@),
                None => None,
            },
        }
    }
}

/// A process as a candidate: pid, name, resident size in MB.
pub type Candidate = (i32, Seq<char>, u64);

/// What decides which processes may be chosen.
pub struct ScanRules {
    pub whitelist: Set<Seq<char>>,
    pub self_pid: i32,
    pub parent_pid: i32,
    pub min_rss_mb: u64,
    pub page_size: u64,
}

/// The rules of a scan made with the settings `c` by the process `self_pid`
/// whose parent is `parent_pid`.
pub open spec fn scan_rules(c: ConfigView, self_pid: i32, parent_pid: i32, page_size: u64) -> ScanRules {
    ScanRules {
        whitelist: c.whitelist,
        self_pid,
        parent_pid,
        min_rss_mb: c.policy.min_rss_mb(),
        page_size,
    }
}

/// The resident page count in the text of a `statm` file: its second
/// whitespace-separated word, if it parses as a `u64`.
pub open spec fn statm_rss_pages(st: Seq<char>) -> Option<u64> {
    let w = words(st);
    if w.len() >= 2 {
        parse_u64(w[1])
    } else {
        None
    }
}

/// The resident page count of an entry, if its `statm` was read and gives one.
pub open spec fn entry_rss_pages(e: ProcEntryView) -> Option<u64> {
    match e.statm {
        Some(st) => statm_rss_pages(st),
        None => None,
    }
}

/// An entry whose name is a pid other than 0, 1, 2, this process and its
/// parent, and whose name (trimmed `comm`) is non-empty and not whitelisted
/// (compared lower-cased): its pid and name.
pub open spec fn eligible(r: ScanRules, e: ProcEntryView) -> Option<(i32, Seq<char>)> {
    match parse_i32(e.name) {
        None => None,
        Some(pid) => if pid <= 2 || pid == r.self_pid || pid == r.parent_pid {
            None
        } else {
            let comm = trim(e.comm);
            if comm.len() == 0 || r.whitelist.contains(lower_text(comm)) {
                None
            } else {
                Some((pid, comm))
            }
        },
    }
}

/// Resident MB of `pages` pages of `page_size` bytes, rounded down.
pub open spec fn rss_mb_of(pages: u64, page_size: u64) -> u64 {
    ((pages * page_size) / (mib() as int)) as u64
}

/// An eligible entry with a readable resident size of at least the policy's
/// minimum.
pub open spec fn candidate(r: ScanRules, e: ProcEntryView) -> Option<Candidate> {
    match eligible(r, e) {
        None => None,
        Some(pc) => match entry_rss_pages(e) {
            None => None,
            Some(pages) => {
                let mb = rss_mb_of(pages, r.page_size);
                if mb < r.min_rss_mb {
                    None
                } else {
                    Some((pc.0, pc.1, mb))
                }
            },
        },
    }
}

/// The resident MB of a candidate entry, 0 for another entry.
pub open spec fn candidate_mb(r: ScanRules, e: ProcEntryView) -> u64 {
    match candidate(r, e) {
        Some(c) => c.2,
        None => 0,
    }
}

/// The byte count of every eligible entry's resident pages fits in a `u64`.
pub open spec fn rss_fits(r: ScanRules, es: Seq<ProcEntryView>) -> bool {
    forall|i: int|
        0 <= i < es.len() && eligible(r, #[trigger] es[i]) is Some && entry_rss_pages(es[i]) is Some
            ==> entry_rss_pages(es[i])->0 * r.page_size <= u64::MAX
}

/// Scanning the entries in order: the highest resident size seen so far
/// (starting from 0) and the candidate that first reached it; a candidate
/// replaces the current choice only with a strictly higher size.
pub open spec fn best_target(r: ScanRules, es: Seq<ProcEntryView>) -> (u64, Option<Candidate>)
    decreases es.len(),
{
    if es.len() == 0 {
        (0, None)
    } else {
        let p = best_target(r, es.drop_last());
        match candidate(r, es.last()) {
            Some(c) => if c.2 > p.0 {
                (c.2, Some(c))
            } else {
                p
            },
            None => p,
        }
    }
}

/// The resident size in MB is the resident byte count divided by 1048576,
/// rounded down: that many whole MB fit in it, and one more does not.
pub proof fn lemma_rss_mb_bounds(pages: u64, page_size: u64)
    requires
        pages * page_size <= u64::MAX,
    ensures
        rss_mb_of(pages, page_size) * 1048576 <= pages * page_size,
        pages * page_size < (rss_mb_of(pages, page_size) + 1) * 1048576,
{
    let b = pages * page_size;
    assert(0 <= b);
    assert(b / 1048576 * 1048576 <= b) by (nonlinear_arith)
        requires
            b >= 0,
    ;
    assert(b < (b / 1048576 + 1) * 1048576) by (nonlinear_arith)
        requires
            b >= 0,
    ;
}

/// The entries' values.
pub open spec fn entry_views(v: Seq<ProcEntry>) -> Seq<ProcEntryView> {
    v.map_values(|e: ProcEntry| e@)
}

/// A chosen process as values.
pub open spec fn info_view(o: Option<ProcessInfo>) -> Option<Candidate> {
    match o {
        Some(t) => Some((t.pid, t.comm@, t.rss_mb)),
        None => None,
    }
}

/// The chosen process is the first candidate with the highest resident
/// size, which is positive; no candidate uses more. Without a choice, no
/// candidate has a positive resident size.
pub proof fn lemma_best_target(r: ScanRules, es: Seq<ProcEntryView>)
    ensures
        best_target(r, es).1 is None ==> best_target(r, es).0 == 0,
        forall|i: int| 0 <= i < es.len() ==> candidate_mb(r, #[trigger] es[i]) <= best_target(r, es).0,
        best_target(r, es).1 is Some ==> ({
            let t = best_target(r, es).1->0;
            &&& t.2 == best_target(r, es).0
            &&& t.2 > 0
            &&& exists|i: int|
                0 <= i < es.len() && candidate(r, #[trigger] es[i]) == Some(t) && forall|j: int|
                    0 <= j < i ==> candidate_mb(r, #[trigger] es[j]) < t.2
        }),
    decreases es.len(),
{
    if es.len() > 0 {
        let d = es.drop_last();
        lemma_best_target(r, d);
        let p = best_target(r, d);
        assert forall|i: int| 0 <= i < d.len() implies #[trigger] es[i] == d[i] by {}
        match candidate(r, es.last()) {
            Some(c) => {
                if c.2 > p.0 {
                    let i = es.len() - 1;
                    assert(candidate(r, es[i]) == Some(c));
                    assert forall|j: int| 0 <= j < i implies candidate_mb(r, #[trigger] es[j]) < c.2 by {
                        assert(es[j] == d[j]);
                    }
                } else {
                    if p.1 is Some {
                        let t = p.1->0;
                        let i = choose|i: int|
                            0 <= i < d.len() && candidate(r, #[trigger] d[i]) == Some(t) && forall|j: int|
                                0 <= j < i ==> candidate_mb(r, #[trigger] d[j]) < t.2;
                        assert(candidate(r, es[i]) == Some(t));
                        assert forall|j: int| 0 <= j < i implies candidate_mb(r, #[trigger] es[j]) < t.2 by {
                            assert(es[j] == d[j]);
                        }
                    }
                    assert(candidate_mb(r, es[es.len() - 1]) == c.2);
                }
            },
            None => {
                if p.1 is Some {
                    let t = p.1->0;
                    let i = choose|i: int|
                        0 <= i < d.len() && candidate(r, #[trigger] d[i]) == Some(t) && forall|j: int|
                            0 <= j < i ==> candidate_mb(r, #[trigger] d[j]) < t.2;
                    assert(candidate(r, es[i]) == Some(t));
                    assert forall|j: int| 0 <= j < i implies candidate_mb(r, #[trigger] es[j]) < t.2 by {
                        assert(es[j] == d[j]);
                    }
                }
                assert(candidate_mb(r, es[es.len() - 1]) == 0);
            },
        }
    }
}

/// The chosen process is never a kernel thread (pid 0 to 2), this process,
/// its parent, a process without a name, a whitelisted process, or one under
/// the policy's minimum resident size.
pub proof fn lemma_target_protected(r: ScanRules, es: Seq<ProcEntryView>)
    ensures
        best_target(r, es).1 is Some ==> ({
            let t = best_target(r, es).1->0;
            &&& t.0 > 2
            &&& t.0 != r.self_pid
            &&& t.0 != r.parent_pid
            &&& t.1.len() > 0
            &&& !r.whitelist.contains(lower_text(t.1))
            &&& t.2 >= r.min_rss_mb
        }),
{
    lemma_best_target(r, es);
    if best_target(r, es).1 is Some {
        let t = best_target(r, es).1->0;
        let i = choose|i: int|
            0 <= i < es.len() && candidate(r, #[trigger] es[i]) == Some(t) && forall|j: int|
                0 <= j < i ==> candidate_mb(r, #[trigger] es[j]) < t.2;
        assert(candidate(r, es[i]) == Some(t));
    }
}

/// The resident byte counts fit exactly when every eligible entry with a
/// readable page count has at most 18446744073709551615 (`u64::MAX`) bytes
/// of resident pages; a larger process of any size below that fits.
pub proof fn lemma_rss_fits_exact(r: ScanRules, es: Seq<ProcEntryView>)
    ensures
        rss_fits(r, es) <==> forall|i: int|
            0 <= i < es.len() && eligible(r, #[trigger] es[i]) is Some && entry_rss_pages(es[i]) is Some
                ==> entry_rss_pages(es[i])->0 * r.page_size <= 18446744073709551615int,
        forall|e: ProcEntryView|
            (eligible(r, e) is Some && entry_rss_pages(e) is Some ==> entry_rss_pages(e)->0 * r.page_size
                <= 18446744073709551615int) ==> #[trigger] rss_fits(r, seq![e]),
{
    assert forall|e: ProcEntryView|
        (eligible(r, e) is Some && entry_rss_pages(e) is Some ==> entry_rss_pages(e)->0 * r.page_size
            <= 18446744073709551615int) implies #[trigger] rss_fits(r, seq![e]) by {
        assert forall|i: int|
            0 <= i < 1 && eligible(r, #[trigger] seq![e][i]) is Some && entry_rss_pages(seq![e][i]) is Some
                implies entry_rss_pages(seq![e][i])->0 * r.page_size <= u64::MAX by {
            assert(seq![e][i] == e);
        }
    }
}

/// Whatever configuration lines are read on top of the defaults, no process
/// whose name lower-cases to one of the default protected names is chosen.
pub proof fn lemma_default_names_never_chosen(
    ls: Seq<Seq<char>>,
    self_pid: i32,
    parent_pid: i32,
    page_size: u64,
    es: Seq<ProcEntryView>,
)
    ensures
        ({
            let r = scan_rules(config_lines_effect(default_config(), ls), self_pid, parent_pid, page_size);
            let chosen = best_target(r, es).1;
            chosen is Some ==> !default_whitelist().contains(lower_text((chosen->0).1))
        }),
{
    let r = scan_rules(config_lines_effect(default_config(), ls), self_pid, parent_pid, page_size);
    lemma_config_lines_keep(default_config(), ls);
    lemma_target_protected(r, es);
}

/// Scanning of processes and choice of the termination target.
pub struct ProcessScanner;

/// Some eligible process's resident byte count does not fit in a `u64`.
#[derive(Debug, Clone, Copy, PartialEq, Eq, Structural)]
pub struct RssOverflow;

impl ProcessScanner {
    /// The pid that a `/proc` directory entry name spells, if any.
    pub fn entry_pid(name: &str) -> (pid: Option<i32>)
        ensures
            pid == parse_i32(name@),
    {
        let chars = chars_of(name);
        parse_i32_chars(&chars)
    }

    /// The process name in the text of a `comm` file: the text trimmed.
    pub fn comm_name(raw: &str) -> (name: String)
        ensures
            name@ == trim(raw@),
    {
        let chars = chars_of(raw);
        let t = trim_chars(&chars);
        string_from_chars(&t)
    }

    /// The resident page count in the text of a `statm` file.
    pub fn rss_pages(statm: &str) -> (pages: Option<u64>)
        ensures
            pages == statm_rss_pages(statm@),
    {
        let chars = chars_of(statm);
        let parts = split_words(&chars);
        if parts.len() >= 2 {
            proof {
                assert(parts@[1]@ == views(parts@)[1]);
            }
            parse_u64_chars(&parts[1])
        } else {
            None
        }
    }

    /// The resident size in MB that the text of a `statm` file gives, with
    /// pages of `page_size` bytes.
    pub fn rss_mb(statm: &str, page_size: u64) -> (mb: Option<u64>)
        requires
            statm_rss_pages(statm@) is Some ==> statm_rss_pages(statm@)->0 * page_size <= u64::MAX,
        ensures
            mb == match statm_rss_pages(statm@) {
                Some(p) => Some(rss_mb_of(p, page_size)),
                None => None::<u64>,
            },
    {
        match Self::rss_pages(statm) {
            Some(pages) => {
                let bytes = pages * page_size;
                Some(bytes / (1024 * 1024))
            },
            None => None,
        }
    }

    /// The pid and name of an entry that passes the pid and name checks.
    fn eligible_entry(entry: &ProcEntry, config: &Config, self_pid: i32, parent_pid: i32) -> (r: Option<(i32, String)>)
        ensures
            match r {
                Some((pid, comm)) => eligible(scan_rules(config@, self_pid, parent_pid, 0), entry@) == Some((pid, comm@)),
                None => eligible(scan_rules(config@, self_pid, parent_pid, 0), entry@) is None,
            },
    {
        let name = chars_of(entry.name.as_str());
        let pid = match parse_i32_chars(&name) {
            Some(p) => p,
            None => {
                return None;
            },
        };
        if pid <= 2 || pid == self_pid || pid == parent_pid {
            return None;
        }
        let comm_chars = chars_of(entry.comm.as_str());
        let comm = trim_chars(&comm_chars);
        if comm.len() == 0 {
            return None;
        }
        let lower = to_lowercase(&comm);
        if config.whitelist.contains_chars(&lower) {
            return None;
        }
        Some((pid, string_from_chars(&comm)))
    }

    /// The entry as a candidate, if it is one.
    pub fn candidate(entry: &ProcEntry, config: &Config, self_pid: i32, parent_pid: i32, page_size: u64) -> (c: Option<ProcessInfo>)
        requires
            rss_fits(scan_rules(config@, self_pid, parent_pid, page_size), seq![entry@]),
        ensures
            info_view(c) == candidate(scan_rules(config@, self_pid, parent_pid, page_size), entry@),
    {
        let ghost r = scan_rules(config@, self_pid, parent_pid, page_size);
        proof {
            assert(seq![entry@][0] == entry@);
            assert(eligible(r, entry@) == eligible(scan_rules(config@, self_pid, parent_pid, 0), entry@));
        }
        let (pid, comm) = match Self::eligible_entry(entry, config, self_pid, parent_pid) {
            Some(pc) => pc,
            None => {
                return None;
            },
        };
        let rss_mb = match &entry.statm {
            Some(st) => Self::rss_mb(st.as_str(), page_size),
            None => None,
        };
        let rss_mb = match rss_mb {
            Some(m) => m,
            None => {
                return None;
            },
        };
        if rss_mb < config.policy.min_rss_requirement() {
            return None;
        }
        Some(ProcessInfo { pid, comm, rss_mb })
    }

    /// Whether some eligible entry's resident byte count would not fit in a
    /// `u64`; `find_target_process` needs this to be false.
    pub fn rss_overflows(entries: &Vec<ProcEntry>, config: &Config, self_pid: i32, parent_pid: i32, page_size: u64) -> (b: bool)
        ensures
            b == !rss_fits(scan_rules(config@, self_pid, parent_pid, page_size), entry_views(entries@)),
            b <==> exists|i: int|
                0 <= i < entries@.len() && eligible(
                    scan_rules(config@, self_pid, parent_pid, page_size),
                    #[trigger] entries@[i]@,
                ) is Some && entry_rss_pages(entries@[i]@) is Some && entry_rss_pages(entries@[i]@)->0
                    * page_size > 18446744073709551615int,
    {
        proof {
            let es = entry_views(entries@);
            assert forall|i: int| 0 <= i < entries@.len() implies #[trigger] entries@[i]@ == es[i] by {}
        }
        let ghost r = scan_rules(config@, self_pid, parent_pid, page_size);
        let ghost es = entry_views(entries@);
        let n = entries.len();
        let mut k: usize = 0;
        while k < n
            invariant
                k <= n,
                n == entries@.len(),
                r == scan_rules(config@, self_pid, parent_pid, page_size),
                es == entry_views(entries@),
                rss_fits(r, es.take(k as int)),
            decreases n - k,
        {
            let e = &entries[k];
            proof {
                assert(es[k as int] == e@);
                assert(eligible(r, e@) == eligible(scan_rules(config@, self_pid, parent_pid, 0), e@));
            }
            if Self::eligible_entry(e, config, self_pid, parent_pid).is_some() {
                let pages = match &e.statm {
                    Some(st) => Self::rss_pages(st.as_str()),
                    None => None,
                };
                if let Some(p) = pages {
                    if p.checked_mul(page_size).is_none() {
                        proof {
                            assert(es[k as int] == e@);
                        }
                        return true;
                    }
                }
            }
            proof {
                assert forall|i: int|
                    0 <= i < k + 1 && eligible(r, #[trigger] es.take(k + 1)[i]) is Some && entry_rss_pages(
                        es.take(k + 1)[i],
                    ) is Some implies entry_rss_pages(es.take(k + 1)[i])->0 * r.page_size
                    <= u64::MAX by {
                    if i < k {
                        assert(es.take(k + 1)[i] == es.take(k as int)[i]);
                    }
                }
            }
            k += 1;
        }
        proof {
            assert(es.take(n as int) =~= es);
        }
        false
    }

    /// Chooses the process to terminate: among the entries that are
    /// candidates under `config`, the first one with the highest resident
    /// size, provided that size is above 0.
    pub fn find_target_process(entries: &Vec<ProcEntry>, config: &Config, self_pid: i32, parent_pid: i32, page_size: u64) -> (target: Option<ProcessInfo>)
        requires
            rss_fits(scan_rules(config@, self_pid, parent_pid, page_size), entry_views(entries@)),
        ensures
            info_view(target) == best_target(
                scan_rules(config@, self_pid, parent_pid, page_size),
                entry_views(entries@),
            ).1,
    {
        let ghost r = scan_rules(config@, self_pid, parent_pid, page_size);
        let ghost es = entry_views(entries@);
        let mut highest_rss: u64 = 0;
        let mut best: Option<ProcessInfo> = None;
        let n = entries.len();
        let mut k: usize = 0;
        while k < n
            invariant
                k <= n,
                n == entries@.len(),
                r == scan_rules(config@, self_pid, parent_pid, page_size),
                es == entry_views(entries@),
                rss_fits(r, es),
                (highest_rss, info_view(best)) == best_target(r, es.take(k as int)),
            decreases n - k,
        {
            let e = &entries[k];
            proof {
                assert(es[k as int] == e@);
                assert(es.take(k + 1).drop_last() =~= es.take(k as int));
                assert(es.take(k + 1).last() == e@);
                assert(seq![e@][0] == e@);
                assert forall|i: int|
                    0 <= i < 1 && eligible(r, #[trigger] seq![e@][i]) is Some && entry_rss_pages(
                        seq![e@][i],
                    ) is Some implies entry_rss_pages(seq![e@][i])->0 * r.page_size <= u64::MAX by {
                    assert(seq![e@][i] == es[k as int]);
                }
            }
            match Self::candidate(e, config, self_pid, parent_pid, page_size) {
                Some(c) => {
                    if c.rss_mb > highest_rss {
                        highest_rss = c.rss_mb;
                        best = Some(c);
                    }
                },
                None => {},
            }
            k += 1;
        }
        proof {
            assert(es.take(n as int) =~= es);
        }
        best
    }

    /// Chooses the process to terminate as `find_target_process` does, after
    /// checking that no eligible process's resident byte count overflows a
    /// `u64`; reports that overflow instead of choosing.
    pub fn scan(entries: &Vec<ProcEntry>, config: &Config, self_pid: i32, parent_pid: i32, page_size: u64) -> (r: Result<Option<ProcessInfo>, RssOverflow>)
        ensures
            r is Err <==> !rss_fits(scan_rules(config@, self_pid, parent_pid, page_size), entry_views(entries@)),
            r is Err <==> exists|i: int|
                0 <= i < entries@.len() && eligible(
                    scan_rules(config@, self_pid, parent_pid, page_size),
                    #[trigger] entries@[i]@,
                ) is Some && entry_rss_pages(entries@[i]@) is Some && entry_rss_pages(entries@[i]@)->0
                    * page_size > 18446744073709551615int,
            r matches Ok(target) ==> info_view(target) == best_target(
                scan_rules(config@, self_pid, parent_pid, page_size),
                entry_views(entries@),
            ).1,
    {
        proof {
            let es = entry_views(entries@);
            assert forall|i: int| 0 <= i < entries@.len() implies #[trigger] entries@[i]@ == es[i] by {}
        }
        if Self::rss_overflows(entries, config, self_pid, parent_pid, page_size) {
            Err(RssOverflow)
        } else {
            Ok(Self::find_target_process(entries, config, self_pid, parent_pid, page_size))
        }
    }
}

} // verus!

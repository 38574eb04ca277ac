//! Plymouth's traces in the system logs.
use vstd::prelude::*;
use crate::model::{JournalctlInfo, LogFileInfo, Logs, RunPlymouthLogInfo};
use crate::strmap::StrMap;
use crate::text::{char_vecs, contains, contains_str, lines, lines_of, lowercase, string_of, strs, to_lowercase, strings_of};

verus! {

/// A log line speaks of plymouth when its lowercase form contains `plymouth`.
pub open spec fn mentions_plymouth(line: Seq<char>) -> bool {
    contains(lowercase(line), "plymouth"@)
}

/// The lines of `ls` that speak of plymouth, in order.
pub open spec fn plymouth_lines(ls: Seq<Seq<char>>) -> Seq<Seq<char>>
    decreases ls.len(),
{
    if ls.len() == 0 {
        seq![]
    } else if mentions_plymouth(ls.last()) {
        plymouth_lines(ls.drop_last()).push(ls.last())
    } else {
        plymouth_lines(ls.drop_last())
    }
}

/// The last `n` items of `s` (all of them when `n` is 0 or `s` is shorter).
pub open spec fn tail_n<T>(s: Seq<T>, n: nat) -> Seq<T> {
    if n > 0 && s.len() > n {
        s.skip(s.len() - n)
    } else {
        s
    }
}

/// The lines of `text` that speak of plymouth.
pub fn plymouth_lines_of(text: &str) -> (r: Vec<Vec<char>>)
    ensures
        char_vecs(r@) == plymouth_lines(lines(text@)),
{
    let ls = lines_of(text);
    let ghost all = char_vecs(ls@);
    let mut out: Vec<Vec<char>> = Vec::new();
    let mut i: usize = 0;
    let mut ls = ls;
    let ghost orig = ls@;
    while i < ls.len()
        invariant
            i <= ls@.len(),
            all == char_vecs(ls@),
            char_vecs(out@) == plymouth_lines(all.take(i as int)),
        decreases ls@.len() - i,
    {
        assert(all.take(i + 1).drop_last() =~= all.take(i as int));
        assert(all[i as int] == ls@[i as int]@);
        let low = to_lowercase(ls[i].as_slice());
        if contains_str(low.as_slice(), "plymouth") {
            let ghost before = char_vecs(out@);
            out.push(crate::text::copy_chars(ls[i].as_slice()));
            assert(char_vecs(out@) =~= before.push(all[i as int]));
        }
        i = i + 1;
    }
    assert(all.take(i as int) =~= all);
    out
}

/// The last `n` lines of `v` (all of them when `n` is 0).
fn keep_last(v: Vec<Vec<char>>, n: usize) -> (r: Vec<Vec<char>>)
    ensures
        char_vecs(r@) == tail_n(char_vecs(v@), n as nat),
{
    if n > 0 && v.len() > n {
        let ghost whole = v@;
        let mut v = v;
        let at = v.len() - n;
        let tail = v.split_off(at);
        assert(char_vecs(tail@) =~= char_vecs(whole).skip(at as int));
        tail
    } else {
        v
    }
}


/// A log file at `path`: whether it exists and, under `field_name`, its lines that speak
/// of plymouth, the last `last_n` of them when `last_n` is not 0.
pub fn collect_log_file(path: &str, field_name: &str, last_n: usize, exists: bool, content: &str) -> (r:
    LogFileInfo)
    ensures
        r.path@ == path@,
        r.exists == exists,
        r.lines.keys() == seq![field_name@],
        r.lines.spec_get(field_name@) matches Some(v) && strs(v@) == (if exists {
            tail_n(plymouth_lines(lines(content@)), last_n as nat)
        } else {
            seq![]
        }),
{
    let selected: Vec<String> = if exists {
        let all = plymouth_lines_of(content);
        let kept = keep_last(all, last_n);
        strings_of(&kept)
    } else {
        Vec::new()
    };
    let mut map: StrMap<Vec<String>> = StrMap::new();
    map.insert(string_of(field_name), selected);
    proof {
        assert(map.keys() =~= seq![field_name@]);
    }
    LogFileInfo { path: string_of(path), exists, lines: map }
}

/// The log files read, with the field that holds their lines and how many lines are
/// kept: `/var/log/boot.log` (all), `/var/log/syslog` (last 20), `/var/log/kern.log`
/// (last 10).
pub fn log_file_paths() -> (r: Vec<String>)
    ensures
        strs(r@) == seq!["/var/log/boot.log"@, "/var/log/syslog"@, "/var/log/kern.log"@],
{
    let mut r: Vec<String> = Vec::new();
    r.push(string_of("/var/log/boot.log"));
    r.push(string_of("/var/log/syslog"));
    r.push(string_of("/var/log/kern.log"));
    assert(strs(r@) =~= seq!["/var/log/boot.log"@, "/var/log/syslog"@, "/var/log/kern.log"@]);
    r
}

/// What was read of one log file: whether it exists and its (trimmed) text.
pub struct LogRead {
    pub exists: bool,
    pub content: String,
}

/// The logs section, from whether `/run/plymouth` exists, the three log files (see
/// [`log_file_paths`]) and the output of `journalctl -b --no-pager -q`, whose last 40
/// lines that speak of plymouth are kept.
pub fn collect(run_plymouth_exists: bool, boot: LogRead, syslog: LogRead, kern: LogRead, journal: &str) -> (r:
    Logs)
    ensures
        r.run_plymouth.path@ == "/run/plymouth"@,
        r.run_plymouth.exists == run_plymouth_exists,
        r.run_plymouth.note@ == "See runtime_state.run_plymouth_files for details"@,
        r.boot_log.path@ == "/var/log/boot.log"@,
        r.boot_log.exists == boot.exists,
        r.boot_log.lines.keys() == seq!["plymouth_lines"@],
        r.boot_log.lines.spec_get("plymouth_lines"@) matches Some(v) && strs(v@) == (if boot.exists {
            plymouth_lines(lines(boot.content@))
        } else {
            seq![]
        }),
        r.syslog.path@ == "/var/log/syslog"@,
        r.syslog.exists == syslog.exists,
        r.syslog.lines.keys() == seq!["plymouth_lines_last_20"@],
        r.syslog.lines.spec_get("plymouth_lines_last_20"@) matches Some(v) && strs(v@) == (if syslog.exists {
            tail_n(plymouth_lines(lines(syslog.content@)), 20)
        } else {
            seq![]
        }),
        r.kern_log.path@ == "/var/log/kern.log"@,
        r.kern_log.exists == kern.exists,
        r.kern_log.lines.keys() == seq!["plymouth_lines_last_10"@],
        r.kern_log.lines.spec_get("plymouth_lines_last_10"@) matches Some(v) && strs(v@) == (if kern.exists {
            tail_n(plymouth_lines(lines(kern.content@)), 10)
        } else {
            seq![]
        }),
        strs(r.journalctl_current_boot.plymouth_lines_last_40@) == tail_n(
            plymouth_lines(lines(journal@)),
            40,
        ),
{
    let run_ply = RunPlymouthLogInfo {
        path: string_of("/run/plymouth"),
        exists: run_plymouth_exists,
        note: string_of("See runtime_state.run_plymouth_files for details"),
    };
    let boot_log = collect_log_file("/var/log/boot.log", "plymouth_lines", 0, boot.exists, boot.content.as_str());
    let syslog_info = collect_log_file(
        "/var/log/syslog",
        "plymouth_lines_last_20",
        20,
        syslog.exists,
        syslog.content.as_str(),
    );
    let kern_log = collect_log_file(
        "/var/log/kern.log",
        "plymouth_lines_last_10",
        10,
        kern.exists,
        kern.content.as_str(),
    );
    let j = plymouth_lines_of(journal);
    let jl = keep_last(j, 40);
    let journal_lines = strings_of(&jl);
    Logs {
        run_plymouth: run_ply,
        boot_log,
        syslog: syslog_info,
        kern_log,
        journalctl_current_boot: JournalctlInfo { plymouth_lines_last_40: journal_lines },
    }
}

/// Every line kept speaks of plymouth and is a line of the log.
proof fn lemma_plymouth_lines(ls: Seq<Seq<char>>)
    ensures
        forall|i: int|
            0 <= i < plymouth_lines(ls).len() ==> mentions_plymouth(#[trigger] plymouth_lines(ls)[i])
                && ls.contains(plymouth_lines(ls)[i]),
        plymouth_lines(ls).len() <= ls.len(),
    decreases ls.len(),
{
    if ls.len() > 0 {
        let p = ls.drop_last();
        lemma_plymouth_lines(p);
        assert forall|i: int|
            0 <= i < plymouth_lines(ls).len() implies mentions_plymouth(#[trigger] plymouth_lines(ls)[i])
            && ls.contains(plymouth_lines(ls)[i]) by {
            if i < plymouth_lines(p).len() {
                assert(plymouth_lines(ls)[i] == plymouth_lines(p)[i]);
                let j = choose|j: int| 0 <= j < p.len() && p[j] == plymouth_lines(p)[i];
                assert(ls[j] == p[j]);
            } else {
                assert(ls[ls.len() - 1] == ls.last());
            }
        }
    }
}

/// What is kept of a log: lines of the log that speak of plymouth, in their order, and
/// no more than `n` of them when `n` is not 0.
pub proof fn lemma_kept_log_lines(content: Seq<char>, n: nat)
    ensures
        forall|i: int|
            0 <= i < tail_n(plymouth_lines(lines(content)), n).len() ==> mentions_plymouth(
                #[trigger] tail_n(plymouth_lines(lines(content)), n)[i],
            ) && lines(content).contains(tail_n(plymouth_lines(lines(content)), n)[i]),
        n > 0 ==> tail_n(plymouth_lines(lines(content)), n).len() <= n,
{
    let all = plymouth_lines(lines(content));
    lemma_plymouth_lines(lines(content));
    let t = tail_n(all, n);
    assert forall|i: int| 0 <= i < t.len() implies mentions_plymouth(#[trigger] t[i]) && lines(
        content,
    ).contains(t[i]) by {
        if n > 0 && all.len() > n {
            assert(t[i] == all[i + (all.len() - n)]);
        }
    }
}

} // verus!

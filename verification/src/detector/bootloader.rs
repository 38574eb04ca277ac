//! The boot loader: GRUB's settings and menu, systemd-boot, and the kernel command line.
use vstd::prelude::*;
use crate::model::{ActiveCmdline, Bootloader, GrubConfig, SystemdBootConfig};
use crate::strmap::StrMap;
use crate::text::{
    after_char, before_char, char_vecs, chars_eq, contains, contains_str, copy_chars, find_char, from_chars,
    has_char, has_prefix, is_whitespace, is_ws, lines, lines_of, lowercase, starts_with,
    starts_with_str, string_of, strings_of, strs, sub_chars, to_chars, to_lowercase, trim, trim_chars,
};

verus! {

/// The kernel parameters looked for on the command line, in order.
pub open spec fn cmdline_parameter_names() -> Seq<Seq<char>> {
    seq!["quiet"@, "splash"@, "nomodeset"@, "plymouth.ignore-serial-consoles"@, "vt.handoff"@]
}

/// For each parameter looked for, whether the command line contains it as text.
pub open spec fn parameter_map(cmdline: Seq<char>) -> Map<Seq<char>, bool> {
    Map::empty().insert("quiet"@, contains(cmdline, "quiet"@)).insert(
        "splash"@,
        contains(cmdline, "splash"@),
    ).insert("nomodeset"@, contains(cmdline, "nomodeset"@)).insert(
        "plymouth.ignore-serial-consoles"@,
        contains(cmdline, "plymouth.ignore-serial-consoles"@),
    ).insert("vt.handoff"@, contains(cmdline, "vt.handoff"@))
}

/// The map has exactly the parameters looked for as keys, and each one's value is
/// whether the command line contains it as text.
pub proof fn lemma_parameter_map(cmdline: Seq<char>)
    ensures
        parameter_map(cmdline).dom() == cmdline_parameter_names().to_set(),
        forall|i: int|
            0 <= i < cmdline_parameter_names().len() ==> #[trigger] parameter_map(cmdline)[
                cmdline_parameter_names()[i]
            ] == contains(cmdline, cmdline_parameter_names()[i]),
{
    reveal_strlit("quiet");
    reveal_strlit("splash");
    reveal_strlit("nomodeset");
    reveal_strlit("plymouth.ignore-serial-consoles");
    reveal_strlit("vt.handoff");
    let n = cmdline_parameter_names();
    let m = parameter_map(cmdline);
    assert(n[0].len() == 5 && n[1].len() == 6 && n[2].len() == 9 && n[3].len() == 31 && n[4].len()
        == 10);
    assert forall|i: int| 0 <= i < n.len() implies #[trigger] m[n[i]] == contains(cmdline, n[i]) by {
        if i == 0 {
        } else if i == 1 {
        } else if i == 2 {
        } else if i == 3 {
        } else {
        }
    }
    assert forall|p: Seq<char>| m.dom().contains(p) <==> n.to_set().contains(p) by {
        if m.dom().contains(p) {
            if p == n[0] {
                assert(n.contains(p));
            } else if p == n[1] {
                assert(n.contains(p));
            } else if p == n[2] {
                assert(n.contains(p));
            } else if p == n[3] {
                assert(n.contains(p));
            } else {
                assert(n[4] == p);
                assert(n.contains(p));
            }
        }
        if n.to_set().contains(p) {
            assert(n.contains(p));
            let i = n.index_of(p);
            assert(n[i] == p);
        }
    }
    assert(m.dom() =~= n.to_set());
}

/// Records under `p` whether `cmdline` contains it.
fn insert_parameter(map: &mut StrMap<bool>, cmdline: &[char], p: &str)
    ensures
        final(map)@ == old(map)@.insert(p@, contains(cmdline@, p@)),
{
    let found = contains_str(cmdline, p);
    let ks = string_of(p);
    let ghost before = *map;
    let ghost kk = ks@;
    map.insert(ks, found);
    proof {
        StrMap::<bool>::lemma_view_insert(before, *map, kk, found);
    }
}

/// For each parameter looked for (see [`cmdline_parameter_names`]), whether `cmdline`
/// contains it.
pub fn cmdline_parameters(cmdline: &str) -> (r: StrMap<bool>)
    ensures
        r@ == parameter_map(cmdline@),
        r@.dom() == cmdline_parameter_names().to_set(),
        forall|p: Seq<char>|
            #![trigger r@[p]]
            cmdline_parameter_names().contains(p) ==> r@[p] == contains(cmdline@, p),
{
    let c = to_chars(cmdline);
    let mut m: StrMap<bool> = StrMap::new();
    proof {
        StrMap::<bool>::lemma_view_empty(m);
    }
    insert_parameter(&mut m, c.as_slice(), "quiet");
    insert_parameter(&mut m, c.as_slice(), "splash");
    insert_parameter(&mut m, c.as_slice(), "nomodeset");
    insert_parameter(&mut m, c.as_slice(), "plymouth.ignore-serial-consoles");
    insert_parameter(&mut m, c.as_slice(), "vt.handoff");
    proof {
        lemma_parameter_map(cmdline@);
        assert forall|p: Seq<char>| cmdline_parameter_names().contains(p) implies m@[p] == contains(
            cmdline@,
            p,
        ) by {
            let i = cmdline_parameter_names().index_of(p);
            assert(cmdline_parameter_names()[i] == p);
        }
    }
    m
}

/// The quoted value of a setting that opens `t`: when `t` starts with `prefix` (the
/// name, `=` and the opening `"`) and a closing `"` follows, the text up to that quote,
/// which may run over several lines.
pub open spec fn setting_here(t: Seq<char>, prefix: Seq<char>) -> Option<Seq<char>> {
    let rest = t.skip(prefix.len() as int);
    if starts_with(t, prefix) && has_char(rest, '"') {
        Some(before_char(rest, '"'))
    } else {
        None
    }
}

/// The quoted value of a setting that opens `t` or one of its later lines: the first
/// line start (the start of `t`, or the position after a newline) where
/// [`setting_here`] gives a value. (The pattern `^NAME="([^"]*)"` read line by line.)
pub open spec fn setting_at(t: Seq<char>, prefix: Seq<char>) -> Option<Seq<char>>
    decreases t.len(),
{
    match setting_here(t, prefix) {
        Some(v) => Some(v),
        None => if has_char(t, '\n') {
            proof {
                crate::text::lemma_index_of_char_bounds(t, '\n');
            }
            setting_at(after_char(t, '\n'), prefix)
        } else {
            None
        },
    }
}

/// The quoted value of a setting in the text of `/etc/default/grub` (see
/// [`setting_at`]); empty when there is none.
pub open spec fn quoted_setting(txt: Seq<char>, prefix: Seq<char>) -> Seq<char> {
    match setting_at(txt, prefix) {
        Some(v) => v,
        None => seq![],
    }
}

/// The quoted value of a setting that opens `t` (see [`setting_here`]).
fn setting_of(t: &[char], pc: &[char]) -> (r: Option<Vec<char>>)
    ensures
        match r {
            Some(v) => setting_here(t@, pc@) == Some(v@),
            None => setting_here(t@, pc@) is None,
        },
{
    if !has_prefix(t, pc) {
        return None;
    }
    let rest = sub_chars(t, pc.len(), t.len());
    assert(rest@ =~= t@.skip(pc@.len() as int));
    let idx = find_char(rest.as_slice(), '"');
    proof {
        crate::text::lemma_index_of_char_bounds(rest@, '"');
    }
    if idx < rest.len() {
        Some(sub_chars(rest.as_slice(), 0, idx))
    } else {
        None
    }
}

/// The quoted value of a setting in `txt` (see [`quoted_setting`]).
pub fn grub_setting(txt: &str, prefix: &str) -> (r: String)
    ensures
        r@ == quoted_setting(txt@, prefix@),
{
    let pc = to_chars(prefix);
    let mut rest = to_chars(txt);
    while rest.len() > 0
        invariant
            pc@ == prefix@,
            setting_at(txt@, prefix@) == setting_at(rest@, prefix@),
        decreases rest@.len(),
    {
        match setting_of(rest.as_slice(), pc.as_slice()) {
            Some(v) => {
                return from_chars(v.as_slice());
            },
            None => {},
        }
        let idx = find_char(rest.as_slice(), '\n');
        proof {
            crate::text::lemma_index_of_char_bounds(rest@, '\n');
        }
        if idx >= rest.len() {
            return String::new();
        }
        let next = sub_chars(rest.as_slice(), idx + 1, rest.len());
        assert(next@ =~= after_char(rest@, '\n'));
        rest = next;
    }
    proof {
        if setting_here(rest@, prefix@) is Some {
            assert(starts_with(rest@, prefix@));
        }
    }
    String::new()
}

/// How many characters of `t` come before its first whitespace.
pub open spec fn word_end(t: Seq<char>) -> int
    decreases t.len(),
{
    if t.len() == 0 || is_ws(t[0]) {
        0
    } else {
        1 + word_end(t.drop_first())
    }
}

pub proof fn lemma_word_end(t: Seq<char>)
    ensures
        0 <= word_end(t) <= t.len(),
        word_end(t) < t.len() ==> is_ws(t[word_end(t)]),
        forall|k: int| 0 <= k < word_end(t) ==> !is_ws(#[trigger] t[k]),
    decreases t.len(),
{
    if t.len() > 0 && !is_ws(t[0]) {
        lemma_word_end(t.drop_first());
        assert forall|k: int| 0 <= k < word_end(t) implies !is_ws(#[trigger] t[k]) by {
            if k > 0 {
                assert(t[k] == t.drop_first()[k - 1]);
            }
        }
    }
}

/// The kernel versions named in a boot menu, as the search for `vmlinuz-(\S+)` finds
/// them from left to right without overlap: after each `vmlinuz-` followed by a
/// non-whitespace character, the characters up to the next whitespace.
pub open spec fn kernel_versions(s: Seq<char>) -> Seq<Seq<char>>
    decreases s.len(),
{
    if s.len() == 0 {
        seq![]
    } else if starts_with(s, "vmlinuz-"@) && s.len() > 8 && !is_ws(s[8]) {
        let t = s.skip(8);
        proof {
            lemma_word_end(t);
        }
        seq![t.take(word_end(t))] + kernel_versions(t.skip(word_end(t)))
    } else {
        kernel_versions(s.drop_first())
    }
}

/// The items of `s` without repetitions, each kept where it first occurs.
pub open spec fn first_occurrences(s: Seq<Seq<char>>) -> Seq<Seq<char>>
    decreases s.len(),
{
    if s.len() == 0 {
        seq![]
    } else {
        let acc = first_occurrences(s.drop_last());
        if acc.contains(s.last()) {
            acc
        } else {
            acc.push(s.last())
        }
    }
}

/// The kernel versions named in the text `s` of a boot menu (see [`kernel_versions`]).
pub fn find_kernel_versions(s: &[char]) -> (r: Vec<Vec<char>>)
    ensures
        char_vecs(r@) == kernel_versions(s@),
{
    let pat = to_chars("vmlinuz-");
    proof {
        reveal_strlit("vmlinuz-");
    }
    assert(pat@.len() == 8);
    let mut out: Vec<Vec<char>> = Vec::new();
    let mut i: usize = 0;
    assert(s@.skip(0) =~= s@);
    assert(seq![] + kernel_versions(s@) =~= kernel_versions(s@));
    while i < s.len()
        invariant
            i <= s@.len(),
            pat@ == "vmlinuz-"@,
            pat@.len() == 8,
            char_vecs(out@) + kernel_versions(s@.skip(i as int)) == kernel_versions(s@),
        decreases s@.len() - i,
    {
        let ghost rest = s@.skip(i as int);
        let rest_len = s.len() - i;
        let found = rest_len > 8 && crate::text::matches_at(s, pat.as_slice(), i) && !is_whitespace(s[i + 8]);
        if found {
            assert(rest.take(8) =~= s@.subrange(i as int, i + 8));
            assert(starts_with(rest, "vmlinuz-"@));
            assert(rest[8] == s@[i + 8]);
            let ghost t = rest.skip(8);
            proof {
                lemma_word_end(t);
            }
            let mut j: usize = i + 8;
            while j < s.len() && !is_whitespace(s[j])
                invariant
                    i + 8 <= j <= s@.len(),
                    t == s@.skip(i + 8),
                    forall|k: int| i + 8 <= k < j ==> !is_ws(#[trigger] s@[k]),
                decreases s@.len() - j,
            {
                j = j + 1;
            }
            proof {
                let n = word_end(t);
                let m = j - (i + 8);
                if n < m {
                    assert(is_ws(t[n]));
                    assert(t[n] == s@[i + 8 + n]);
                } else if m < n {
                    assert(!is_ws(t[m]));
                    assert(t[m] == s@[j as int]);
                }
                assert(n == m);
            }
            let v = sub_chars(s, i + 8, j);
            assert(v@ =~= t.take(word_end(t)));
            assert(t.skip(word_end(t)) =~= s@.skip(j as int));
            let ghost before = char_vecs(out@);
            out.push(v);
            assert(char_vecs(out@) =~= before.push(t.take(word_end(t))));
            assert(before + kernel_versions(rest) =~= before.push(t.take(word_end(t))) + kernel_versions(
                s@.skip(j as int),
            ));
            i = j;
        } else {
            proof {
                if starts_with(rest, "vmlinuz-"@) && rest.len() > 8 {
                    assert(rest.take(8) =~= s@.subrange(i as int, i + 8));
                    assert(rest[8] == s@[i + 8]);
                }
            }
            assert(rest.drop_first() =~= s@.skip(i + 1));
            i = i + 1;
        }
    }
    assert(s@.skip(i as int).len() == 0);
    assert(char_vecs(out@) + seq![] =~= char_vecs(out@));
    out
}

/// Whether `x` is one of `v`.
fn holds_chars(v: &Vec<Vec<char>>, x: &[char]) -> (r: bool)
    ensures
        r == char_vecs(v@).contains(x@),
{
    let mut i: usize = 0;
    while i < v.len()
        invariant
            i <= v@.len(),
            forall|k: int| 0 <= k < i ==> char_vecs(v@)[k] != x@,
        decreases v@.len() - i,
    {
        if chars_eq(v[i].as_slice(), x) {
            assert(char_vecs(v@)[i as int] == x@);
            return true;
        }
        i = i + 1;
    }
    false
}

/// The items of `v` without repetitions, each kept where it first occurs.
pub fn dedup_first(v: &Vec<Vec<char>>) -> (r: Vec<Vec<char>>)
    ensures
        char_vecs(r@) == first_occurrences(char_vecs(v@)),
{
    let mut out: Vec<Vec<char>> = Vec::new();
    let mut i: usize = 0;
    while i < v.len()
        invariant
            i <= v@.len(),
            char_vecs(out@) == first_occurrences(char_vecs(v@).take(i as int)),
        decreases v@.len() - i,
    {
        assert(char_vecs(v@).take(i + 1).drop_last() =~= char_vecs(v@).take(i as int));
        assert(char_vecs(v@).take(i + 1).last() == v@[i as int]@);
        if !holds_chars(&out, v[i].as_slice()) {
            let ghost before = char_vecs(out@);
            out.push(copy_chars(v[i].as_slice()));
            assert(char_vecs(out@) =~= before.push(v@[i as int]@));
        }
        i = i + 1;
    }
    assert(char_vecs(v@).take(i as int) =~= char_vecs(v@));
    out
}

/// A boot-menu line worth showing: it contains `splash`, or `plymouth` in any case.
pub open spec fn is_splash_line(l: Seq<char>) -> bool {
    contains(l, "splash"@) || contains(lowercase(l), "plymouth"@)
}

/// The boot-menu lines worth showing, trimmed, in order.
pub open spec fn splash_lines(ls: Seq<Seq<char>>) -> Seq<Seq<char>>
    decreases ls.len(),
{
    if ls.len() == 0 {
        seq![]
    } else if is_splash_line(ls.last()) {
        splash_lines(ls.drop_last()).push(trim(ls.last()))
    } else {
        splash_lines(ls.drop_last())
    }
}

/// The first `n` items of `s` (all of them when `s` is shorter).
pub open spec fn first_n<T>(s: Seq<T>, n: nat) -> Seq<T> {
    if s.len() > n {
        s.take(n as int)
    } else {
        s
    }
}

/// The first 30 lines of the boot menu `cfg` that mention the splash or plymouth,
/// trimmed.
pub fn splash_entries(cfg: &str) -> (r: Vec<String>)
    ensures
        strs(r@) == first_n(splash_lines(lines(cfg@)), 30),
{
    let ls = lines_of(cfg);
    let ghost all = char_vecs(ls@);
    let mut out: Vec<Vec<char>> = Vec::new();
    let mut i: usize = 0;
    while i < ls.len()
        invariant
            i <= ls@.len(),
            all == char_vecs(ls@),
            char_vecs(out@) == splash_lines(all.take(i as int)),
        decreases ls@.len() - i,
    {
        assert(all.take(i + 1).drop_last() =~= all.take(i as int));
        assert(all[i as int] == ls@[i as int]@);
        let line = ls[i].as_slice();
        let keep = if contains_str(line, "splash") {
            true
        } else {
            let low = to_lowercase(line);
            contains_str(low.as_slice(), "plymouth")
        };
        if keep {
            let ghost before = char_vecs(out@);
            out.push(trim_chars(line));
            assert(char_vecs(out@) =~= before.push(trim(all[i as int])));
        }
        i = i + 1;
    }
    assert(all.take(i as int) =~= all);
    if out.len() > 30 {
        let ghost whole = out@;
        let _rest = out.split_off(30);
        assert(char_vecs(out@) =~= char_vecs(whole).take(30));
    }
    strings_of(&out)
}

/// A line of `/etc/default/grub` that says something: not blank and not a comment.
pub open spec fn is_setting_line(l: Seq<char>) -> bool {
    trim(l).len() > 0 && !starts_with(trim(l), "#"@)
}

/// The lines that say something, in order and as they are.
pub open spec fn setting_lines(ls: Seq<Seq<char>>) -> Seq<Seq<char>>
    decreases ls.len(),
{
    if ls.len() == 0 {
        seq![]
    } else if is_setting_line(ls.last()) {
        setting_lines(ls.drop_last()).push(ls.last())
    } else {
        setting_lines(ls.drop_last())
    }
}

/// The lines of `txt` that say something (see [`is_setting_line`]).
pub fn non_comment_lines(txt: &str) -> (r: Vec<String>)
    ensures
        strs(r@) == setting_lines(lines(txt@)),
{
    let ls = lines_of(txt);
    let ghost all = char_vecs(ls@);
    let mut out: Vec<Vec<char>> = Vec::new();
    let mut i: usize = 0;
    while i < ls.len()
        invariant
            i <= ls@.len(),
            all == char_vecs(ls@),
            char_vecs(out@) == setting_lines(all.take(i as int)),
        decreases ls@.len() - i,
    {
        assert(all.take(i + 1).drop_last() =~= all.take(i as int));
        assert(all[i as int] == ls@[i as int]@);
        let t = trim_chars(ls[i].as_slice());
        if t.len() > 0 && !starts_with_str(t.as_slice(), "#") {
            let ghost before = char_vecs(out@);
            out.push(copy_chars(ls[i].as_slice()));
            assert(char_vecs(out@) =~= before.push(all[i as int]));
        }
        i = i + 1;
    }
    assert(all.take(i as int) =~= all);
    strings_of(&out)
}

/// What was read for the boot-loader section: whether `/etc/default/grub` exists and its
/// (trimmed) text, the (trimmed) text of `/proc/cmdline`, whether `/boot/grub/grub.cfg`
/// exists and its (trimmed) text, whether `/usr/bin/bootctl` exists, and the output of
/// `bootctl status` when it does.
pub struct BootProbe {
    pub grub_default_exists: bool,
    pub grub_default: String,
    pub proc_cmdline: String,
    pub grub_cfg_exists: bool,
    pub grub_cfg: String,
    pub bootctl_exists: bool,
    pub bootctl_status: String,
}

/// The boot-loader section.
pub fn collect(p: BootProbe) -> (r: Bootloader)
    ensures
        r.bootloader_type@ == (if p.bootctl_exists && !p.grub_cfg_exists {
            "systemd-boot"@
        } else {
            "grub"@
        }),
        r.grub.present == p.grub_cfg_exists,
        r.grub.default_config_path.is_some() == p.grub_default_exists,
        r.grub.default_config_path matches Some(s) ==> s@ == "/etc/default/grub"@,
        r.grub.cfg_path.is_some() == p.grub_cfg_exists,
        r.grub.cfg_path matches Some(s) ==> s@ == "/boot/grub/grub.cfg"@,
        r.grub.cmdline_linux_default@ == quoted_setting(
            p.grub_default@,
            "GRUB_CMDLINE_LINUX_DEFAULT=\""@,
        ),
        r.grub.cmdline_linux@ == quoted_setting(p.grub_default@, "GRUB_CMDLINE_LINUX=\""@),
        strs(r.grub.non_comment_lines@) == setting_lines(lines(p.grub_default@)),
        strs(r.grub.splash_plymouth_entries_in_cfg@) == (if p.grub_cfg_exists {
            first_n(splash_lines(lines(p.grub_cfg@)), 30)
        } else {
            seq![]
        }),
        r.systemd_boot.present == p.bootctl_exists,
        r.systemd_boot.status.is_some() == p.bootctl_exists,
        r.systemd_boot.status matches Some(s) ==> s@ == p.bootctl_status@,
        r.active_cmdline.raw@ == p.proc_cmdline@,
        r.active_cmdline.parameters@ == parameter_map(p.proc_cmdline@),
        strs(r.kernel_entries@) == (if p.grub_cfg_exists {
            first_occurrences(kernel_versions(p.grub_cfg@))
        } else {
            seq![]
        }),
{
    let parameters = cmdline_parameters(p.proc_cmdline.as_str());
    let cmdline_linux_default = grub_setting(p.grub_default.as_str(), "GRUB_CMDLINE_LINUX_DEFAULT=\"");
    let cmdline_linux = grub_setting(p.grub_default.as_str(), "GRUB_CMDLINE_LINUX=\"");
    let kernel_entries = if p.grub_cfg_exists {
        let cfg = to_chars(p.grub_cfg.as_str());
        let found = find_kernel_versions(cfg.as_slice());
        let distinct = dedup_first(&found);
        strings_of(&distinct)
    } else {
        Vec::new()
    };
    let splash = if p.grub_cfg_exists {
        splash_entries(p.grub_cfg.as_str())
    } else {
        Vec::new()
    };
    let bootloader_type = if p.bootctl_exists && !p.grub_cfg_exists {
        string_of("systemd-boot")
    } else {
        string_of("grub")
    };
    let non_comment = non_comment_lines(p.grub_default.as_str());
    Bootloader {
        bootloader_type,
        grub: GrubConfig {
            present: p.grub_cfg_exists,
            default_config_path: if p.grub_default_exists {
                Some(string_of("/etc/default/grub"))
            } else {
                None
            },
            cfg_path: if p.grub_cfg_exists {
                Some(string_of("/boot/grub/grub.cfg"))
            } else {
                None
            },
            cmdline_linux_default,
            cmdline_linux,
            non_comment_lines: non_comment,
            splash_plymouth_entries_in_cfg: splash,
        },
        systemd_boot: SystemdBootConfig {
            present: p.bootctl_exists,
            status: if p.bootctl_exists {
                Some(p.bootctl_status)
            } else {
                None
            },
        },
        active_cmdline: ActiveCmdline { raw: p.proc_cmdline, parameters },
        kernel_entries,
    }
}

/// Keeping first occurrences leaves no item twice and loses none.
pub proof fn lemma_first_occurrences(s: Seq<Seq<char>>)
    ensures
        first_occurrences(s).no_duplicates(),
        forall|x: Seq<char>| #[trigger] first_occurrences(s).contains(x) <==> s.contains(x),
    decreases s.len(),
{
    if s.len() > 0 {
        let p = s.drop_last();
        lemma_first_occurrences(p);
        let acc = first_occurrences(p);
        assert forall|x: Seq<char>| #[trigger] first_occurrences(s).contains(x) <==> s.contains(x) by {
            if s.contains(x) && x != s.last() {
                let i = choose|i: int| 0 <= i < s.len() && s[i] == x;
                assert(p[i] == x);
            }
            if p.contains(x) {
                let i = choose|i: int| 0 <= i < p.len() && p[i] == x;
                assert(s[i] == x);
            }
            if !acc.contains(s.last()) && first_occurrences(s).contains(x) && x != s.last() {
                let i = choose|i: int| 0 <= i < first_occurrences(s).len() && first_occurrences(s)[i] == x;
                assert(acc[i] == x);
            }
            if !acc.contains(s.last()) && acc.contains(x) {
                let i = choose|i: int| 0 <= i < acc.len() && acc[i] == x;
                assert(first_occurrences(s)[i] == x);
            }
            if x == s.last() {
                assert(s[s.len() - 1] == x);
                if !acc.contains(s.last()) {
                    assert(first_occurrences(s)[acc.len() as int] == x);
                }
            }
        }
    }
}

/// The kernel versions of a boot menu are listed once each, and every version found in
/// the menu is listed.
pub proof fn lemma_kernel_entries_distinct(cfg: Seq<char>)
    ensures
        first_occurrences(kernel_versions(cfg)).no_duplicates(),
        forall|v: Seq<char>|
            #[trigger] first_occurrences(kernel_versions(cfg)).contains(v) <==> kernel_versions(cfg).contains(v),
{
    lemma_first_occurrences(kernel_versions(cfg));
}

} // verus!

//! The running daemon, its systemd units, the display manager that waits for it, and
//! the files it keeps under `/run/plymouth`.
use vstd::prelude::*;
use crate::model::{DisplayManagerInfo, RunPlymouthFile, RuntimeState, UnitState, UnitStateView};
use crate::order::{sort_by_key, sorted_by_key, stable_image, TextKey};
use crate::strmap::StrMap;
use crate::text::{
    after_char, before_char, char_vecs, contains, contains_str, eq_str, find_char, from_chars,
    has_char, lines, lines_of, lowercase, opt_str, string_of, strings_of, strs, sub_chars, to_chars,
    to_lowercase, trim, trim_chars,
};

verus! {

/// The daemon's mode: what `plymouth --get-mode` printed when the daemon answers, else
/// `unknown`.
pub fn daemon_mode(running: bool, mode_output: String) -> (r: String)
    ensures
        r@ == (if running {
            mode_output@
        } else {
            "unknown"@
        }),
{
    if running {
        mode_output
    } else {
        string_of("unknown")
    }
}

/// A command's output as an optional text: none when it is empty.
pub fn non_empty(s: String) -> (r: Option<String>)
    ensures
        opt_str(r) == (if s@.len() == 0 {
            None
        } else {
            Some(s@)
        }),
{
    if s.as_str().unicode_len() == 0 {
        None
    } else {
        Some(s)
    }
}

/// The lines of `out`, each trimmed.
pub fn trimmed_lines(out: &str) -> (r: Vec<String>)
    ensures
        strs(r@) == lines(out@).map_values(|l: Seq<char>| trim(l)),
{
    let ls = lines_of(out);
    let ghost all = char_vecs(ls@);
    let mut v: Vec<Vec<char>> = Vec::new();
    let mut i: usize = 0;
    while i < ls.len()
        invariant
            i <= ls@.len(),
            all == char_vecs(ls@),
            char_vecs(v@) == all.take(i as int).map_values(|l: Seq<char>| trim(l)),
        decreases ls@.len() - i,
    {
        let ghost before = char_vecs(v@);
        assert(all[i as int] == ls@[i as int]@);
        v.push(trim_chars(ls[i].as_slice()));
        assert(char_vecs(v@) =~= before.push(trim(all[i as int])));
        assert(all.take(i + 1).map_values(|l: Seq<char>| trim(l)) =~= all.take(i as int).map_values(
            |l: Seq<char>| trim(l),
        ).push(trim(all[i as int])));
        i = i + 1;
    }
    assert(all.take(i as int) =~= all);
    strings_of(&v)
}

/// The units whose state is asked of systemd, in order.
pub open spec fn key_unit_list() -> Seq<Seq<char>> {
    seq![
        "plymouth-start.service"@,
        "plymouth-quit.service"@,
        "plymouth-quit-wait.service"@,
        "plymouth-read-write.service"@,
        "plymouth-halt.service"@,
        "plymouth-poweroff.service"@,
        "plymouth-reboot.service"@,
    ]
}

/// The units whose state is asked of systemd, in order.
pub fn key_units() -> (r: Vec<String>)
    ensures
        strs(r@) == key_unit_list(),
{
    let mut r: Vec<String> = Vec::new();
    r.push(string_of("plymouth-start.service"));
    r.push(string_of("plymouth-quit.service"));
    r.push(string_of("plymouth-quit-wait.service"));
    r.push(string_of("plymouth-read-write.service"));
    r.push(string_of("plymouth-halt.service"));
    r.push(string_of("plymouth-poweroff.service"));
    r.push(string_of("plymouth-reboot.service"));
    assert(strs(r@) =~= key_unit_list());
    r
}

/// Each of `names` mapped to the state at the same place in `states`.
pub open spec fn zip_states(names: Seq<Seq<char>>, states: Seq<UnitState>) -> Map<Seq<char>, UnitStateView>
    decreases names.len(),
{
    if names.len() == 0 || states.len() == 0 {
        Map::empty()
    } else {
        zip_states(names.drop_last(), states.drop_last()).insert(names.last(), states.last()@)
    }
}

/// The states of the key units (see [`key_unit_list`]), given in that order.
pub fn unit_state_map(states: Vec<UnitState>) -> (r: StrMap<UnitState>)
    requires
        states@.len() == key_unit_list().len(),
    ensures
        r@ == zip_states(key_unit_list(), states@),
{
    let names = key_units();
    let mut m: StrMap<UnitState> = StrMap::new();
    proof {
        StrMap::<UnitState>::lemma_view_empty(m);
    }
    let mut st = states;
    let ghost st0 = st@;
    let mut i: usize = 0;
    while st.len() > 0
        invariant
            i <= 7,
            st0.len() == 7,
            strs(names@) == key_unit_list(),
            names@.len() == 7,
            st@ == st0.skip(i as int),
            st@.len() + i == 7,
            m@ == zip_states(key_unit_list().take(i as int), st0.take(i as int)),
        decreases st@.len(),
    {
        let u = st.remove(0);
        assert(u == st0[i as int]);
        assert(strs(names@)[i as int] == names@[i as int]@);
        let ks = string_of(names[i].as_str());
        let ghost before = m;
        let ghost kk = ks@;
        let ghost uv = u@;
        m.insert(ks, u);
        proof {
            StrMap::<UnitState>::lemma_view_insert(before, m, kk, uv);
            assert(key_unit_list().take(i + 1).drop_last() =~= key_unit_list().take(i as int));
            assert(st0.take(i + 1).drop_last() =~= st0.take(i as int));
            assert(key_unit_list().take(i + 1).last() == kk);
            assert(st0.take(i + 1).last() == u);
        }
        i = i + 1;
        assert(st@ =~= st0.skip(i as int));
    }
    assert(key_unit_list().take(7) =~= key_unit_list());
    assert(st0.take(7) =~= st0);
    m
}

/// What one line of `systemctl show` adds: a line with `=` maps the text before the
/// first `=` to the text after it.
pub open spec fn show_step(m: Map<Seq<char>, Seq<char>>, line: Seq<char>) -> Map<Seq<char>, Seq<char>> {
    if has_char(line, '=') {
        m.insert(before_char(line, '='), after_char(line, '='))
    } else {
        m
    }
}

/// The properties printed by `systemctl show`, a later line overriding an earlier one.
pub open spec fn show_properties(out: Seq<char>) -> Map<Seq<char>, Seq<char>> {
    lines(out).fold_left(Map::empty(), |m: Map<Seq<char>, Seq<char>>, l: Seq<char>| show_step(m, l))
}

/// The `Name=value` properties printed by `systemctl show`.
pub fn parse_show_properties(out: &str) -> (r: StrMap<String>)
    ensures
        r@ == show_properties(out@),
{
    let ls = lines_of(out);
    let ghost all = char_vecs(ls@);
    let mut m: StrMap<String> = StrMap::new();
    proof {
        StrMap::<String>::lemma_view_empty(m);
    }
    let mut i: usize = 0;
    while i < ls.len()
        invariant
            i <= ls@.len(),
            all == char_vecs(ls@),
            all.len() == ls@.len(),
            m@ == all.take(i as int).fold_left(
                Map::empty(),
                |m: Map<Seq<char>, Seq<char>>, l: Seq<char>| show_step(m, l),
            ),
        decreases ls@.len() - i,
    {
        let line = ls[i].as_slice();
        assert(all[i as int] == line@);
        assert(all.take(i + 1).drop_last() =~= all.take(i as int));
        let idx = find_char(line, '=');
        proof {
            crate::text::lemma_index_of_char_bounds(line@, '=');
        }
        if idx < line.len() {
            let k = sub_chars(line, 0, idx);
            let v = sub_chars(line, idx + 1, line.len());
            assert(v@ =~= after_char(line@, '='));
            let ks = from_chars(k.as_slice());
            let vs = from_chars(v.as_slice());
            let ghost before = m;
            let ghost kk = ks@;
            let ghost vv = vs@;
            m.insert(ks, vs);
            proof {
                StrMap::<String>::lemma_view_insert(before, m, kk, vv);
            }
        }
        i = i + 1;
    }
    assert(all.take(i as int) =~= all);
    m
}

/// The display managers looked for, in order.
pub open spec fn display_manager_list() -> Seq<Seq<char>> {
    seq!["gdm.service"@, "gdm3.service"@, "lightdm.service"@, "sddm.service"@]
}

/// The display managers looked for, in order.
pub fn display_managers() -> (r: Vec<String>)
    ensures
        strs(r@) == display_manager_list(),
{
    let mut r: Vec<String> = Vec::new();
    r.push(string_of("gdm.service"));
    r.push(string_of("gdm3.service"));
    r.push(string_of("lightdm.service"));
    r.push(string_of("sddm.service"));
    assert(strs(r@) =~= display_manager_list());
    r
}

/// What was asked of systemd about one display manager: its unit, what
/// `systemctl is-active` printed for it, and what `systemctl show --property=After`
/// printed for it (asked only of an active one).
pub struct DmProbe {
    pub service: String,
    pub is_active: String,
    pub after: String,
}

/// Whether `systemctl is-active` said the unit is active.
pub fn is_active_answer(out: &str) -> (r: bool)
    ensures
        r == (out@ == "active"@),
{
    let c = to_chars(out);
    eq_str(c.as_slice(), "active")
}

/// Index of the first probe that found its unit active, or the number of probes.
pub open spec fn first_active(ps: Seq<DmProbe>) -> int
    decreases ps.len(),
{
    if ps.len() == 0 {
        0
    } else if ps[0].is_active@ == "active"@ {
        0
    } else {
        1 + first_active(ps.drop_first())
    }
}

pub proof fn lemma_first_active(ps: Seq<DmProbe>)
    ensures
        0 <= first_active(ps) <= ps.len(),
        first_active(ps) < ps.len() ==> ps[first_active(ps)].is_active@ == "active"@,
    decreases ps.len(),
{
    if ps.len() > 0 && ps[0].is_active@ != "active"@ {
        lemma_first_active(ps.drop_first());
    }
}

/// The display manager of the snapshot: the first of the probes (made in the order of
/// [`display_manager_list`]) whose unit is active, with whether the units it starts
/// after mention plymouth; nothing when none is active.
pub fn display_manager_of(probes: Vec<DmProbe>) -> (r: DisplayManagerInfo)
    ensures
        0 <= first_active(probes@) <= probes@.len(),
        first_active(probes@) == probes@.len() ==> {
            &&& r.service is None
            &&& !r.active
            &&& !r.depends_on_plymouth_quit_wait
            &&& r.after_property is None
        },
        first_active(probes@) < probes@.len() ==> {
            let p = probes@[first_active(probes@)];
            &&& opt_str(r.service) == Some(p.service@)
            &&& r.active
            &&& r.depends_on_plymouth_quit_wait == contains(lowercase(p.after@), "plymouth"@)
            &&& opt_str(r.after_property) == Some(p.after@)
        },
{
    let mut ps = probes;
    let ghost ps0 = ps@;
    let ghost mut k: int = 0;
    proof {
        lemma_first_active(ps0);
        assert(ps0.skip(0) =~= ps0);
    }
    while ps.len() > 0
        invariant
            0 <= k <= ps0.len(),
            ps0 == probes@,
            ps@ == ps0.skip(k),
            first_active(ps0) == k + first_active(ps@),
            0 <= first_active(ps@) <= ps@.len(),
        decreases ps@.len(),
    {
        proof {
            lemma_first_active(ps@);
        }
        let ghost cur = ps@;
        let p = ps.remove(0);
        assert(p == ps0[k]);
        if is_active_answer(p.is_active.as_str()) {
            assert(first_active(cur) == 0);
            let low = to_chars(p.after.as_str());
            let low = to_lowercase(low.as_slice());
            let dep = contains_str(low.as_slice(), "plymouth");
            return DisplayManagerInfo {
                service: Some(p.service),
                active: true,
                depends_on_plymouth_quit_wait: dep,
                after_property: Some(p.after),
            };
        }
        proof {
            assert(ps@ =~= ps0.skip(k + 1));
            assert(ps@ =~= ps0.skip(k).drop_first());
            lemma_first_active(ps@);
            k = k + 1;
        }
    }
    DisplayManagerInfo { service: None, active: false, depends_on_plymouth_quit_wait: false, after_property: None }
}

/// An entry of `/run/plymouth`: its path, its size when it could be read, whether it is a
/// regular file, and its (trimmed) text when it is one.
pub struct RunFileProbe {
    pub path: String,
    pub size_bytes: Option<u64>,
    pub is_file: bool,
    pub content: String,
}

/// The record of an entry of `/run/plymouth`: its text only when it is a regular file.
pub open spec fn run_file_of(p: RunFileProbe) -> RunPlymouthFile {
    RunPlymouthFile {
        path: p.path,
        size_bytes: p.size_bytes,
        content: if p.is_file {
            Some(p.content)
        } else {
            None
        },
    }
}

/// The records of the entries, in the order given.
pub open spec fn run_files_of(ps: Seq<RunFileProbe>) -> Seq<RunPlymouthFile> {
    ps.map_values(|p: RunFileProbe| run_file_of(p))
}

impl TextKey for RunPlymouthFile {
    open spec fn key(&self) -> Seq<char> {
        self.path@
    }

    fn key_chars(&self) -> (r: Vec<char>) {
        to_chars(self.path.as_str())
    }
}

/// The records of the entries of `/run/plymouth`, sorted by path.
pub fn run_plymouth_files(entries: Vec<RunFileProbe>) -> (r: Vec<RunPlymouthFile>)
    ensures
        sorted_by_key(r@),
        r@.to_multiset() == run_files_of(entries@).to_multiset(),
        exists|p: Seq<int>|
            stable_image(r@, run_files_of(entries@), p) && forall|i: int, j: int|
                0 <= i < j < r@.len() && r@[i].key() == r@[j].key() ==> #[trigger] p[i] < #[trigger] p[j],
{
    let ghost all = run_files_of(entries@);
    let mut files: Vec<RunPlymouthFile> = Vec::new();
    let mut es = entries;
    let ghost es0 = es@;
    while es.len() > 0
        invariant
            es@.len() + files@.len() == es0.len(),
            es@ == es0.skip(files@.len() as int),
            all == run_files_of(es0),
            files@ == all.take(files@.len() as int),
        decreases es@.len(),
    {
        let ghost k = files@.len();
        let e = es.remove(0);
        assert(e == es0[k as int]);
        let content = if e.is_file {
            Some(e.content)
        } else {
            None
        };
        files.push(RunPlymouthFile { path: e.path, size_bytes: e.size_bytes, content });
        assert(files@ =~= all.take(files@.len() as int));
        assert(es@ =~= es0.skip(files@.len() as int));
    }
    assert(files@ =~= all);
    sort_by_key(files)
}

/// The modes the daemon can be switched to.
pub open spec fn valid_mode_list() -> Seq<Seq<char>> {
    seq![
        "boot"@,
        "shutdown"@,
        "suspend"@,
        "resume"@,
        "updates"@,
        "system-upgrade"@,
        "firmware-upgrade"@,
    ]
}

/// The modes the daemon can be switched to.
pub fn valid_modes() -> (r: Vec<String>)
    ensures
        strs(r@) == valid_mode_list(),
{
    let mut r: Vec<String> = Vec::new();
    r.push(string_of("boot"));
    r.push(string_of("shutdown"));
    r.push(string_of("suspend"));
    r.push(string_of("resume"));
    r.push(string_of("updates"));
    r.push(string_of("system-upgrade"));
    r.push(string_of("firmware-upgrade"));
    assert(strs(r@) =~= valid_mode_list());
    r
}

/// The commands that switch the daemon's mode, by purpose.
pub open spec fn mode_command_map() -> Map<Seq<char>, Seq<char>> {
    Map::empty().insert("quit_retain_splash"@, "plymouth quit --retain-splash"@).insert(
        "shutdown"@,
        "plymouth change-mode --shutdown"@,
    ).insert("suspend"@, "plymouth change-mode --suspend"@).insert(
        "resume"@,
        "plymouth change-mode --resume"@,
    ).insert("updates"@, "plymouth change-mode --updates"@).insert(
        "system_upgrade"@,
        "plymouth change-mode --system-upgrade"@,
    )
}

/// Stores `v` under `k`.
fn insert_text(map: &mut StrMap<String>, k: &str, v: &str)
    ensures
        final(map)@ == old(map)@.insert(k@, v@),
{
    let ks = string_of(k);
    let vs = string_of(v);
    let ghost before = *map;
    let ghost kk = ks@;
    let ghost vv = vs@;
    map.insert(ks, vs);
    proof {
        StrMap::<String>::lemma_view_insert(before, *map, kk, vv);
    }
}

/// The commands that switch the daemon's mode, by purpose.
pub fn mode_control_commands() -> (r: StrMap<String>)
    ensures
        r@ == mode_command_map(),
{
    let mut m: StrMap<String> = StrMap::new();
    proof {
        StrMap::<String>::lemma_view_empty(m);
    }
    insert_text(&mut m, "quit_retain_splash", "plymouth quit --retain-splash");
    insert_text(&mut m, "shutdown", "plymouth change-mode --shutdown");
    insert_text(&mut m, "suspend", "plymouth change-mode --suspend");
    insert_text(&mut m, "resume", "plymouth change-mode --resume");
    insert_text(&mut m, "updates", "plymouth change-mode --updates");
    insert_text(&mut m, "system_upgrade", "plymouth change-mode --system-upgrade");
    m
}

/// What was asked of the running system for the runtime section: the output of
/// `plymouth --version`, the exit code of `plymouth --ping`, the output of
/// `plymouth --get-mode` (asked only when the daemon answers), the output of
/// `systemctl list-units` for `plymouth*`, the states of the key units (see
/// [`key_unit_list`], in that order), the output of `systemctl show` for
/// `plymouth-quit-wait.service`, the output of `systemctl cat plymouth-start.service`,
/// the display-manager probes, and the entries of `/run/plymouth`.
pub struct RuntimeProbe {
    pub version: String,
    pub ping_rc: i32,
    pub mode: String,
    pub units: String,
    pub unit_states: Vec<UnitState>,
    pub quit_wait_show: String,
    pub start_unit_cat: String,
    pub display_managers: Vec<DmProbe>,
    pub run_files: Vec<RunFileProbe>,
}

/// The runtime section.
pub fn collect(p: RuntimeProbe) -> (r: RuntimeState)
    requires
        p.unit_states@.len() == key_unit_list().len(),
    ensures
        opt_str(r.version) == (if p.version@.len() == 0 {
            None
        } else {
            Some(p.version@)
        }),
        r.daemon_running == (p.ping_rc == 0),
        r.daemon_mode@ == (if p.ping_rc == 0 {
            p.mode@
        } else {
            "unknown"@
        }),
        strs(r.valid_modes@) == valid_mode_list(),
        r.mode_control_commands@ == mode_command_map(),
        strs(r.units_list@) == lines(p.units@).map_values(|l: Seq<char>| trim(l)),
        r.unit_states@ == zip_states(key_unit_list(), p.unit_states@),
        r.plymouth_quit_wait_properties@ == show_properties(p.quit_wait_show@),
        opt_str(r.plymouth_start_unit_file) == (if p.start_unit_cat@.len() == 0 {
            None
        } else {
            Some(p.start_unit_cat@)
        }),
        first_active(p.display_managers@) == p.display_managers@.len() ==> {
            &&& r.display_manager.service is None
            &&& !r.display_manager.active
            &&& !r.display_manager.depends_on_plymouth_quit_wait
            &&& r.display_manager.after_property is None
        },
        first_active(p.display_managers@) < p.display_managers@.len() ==> {
            let d = p.display_managers@[first_active(p.display_managers@)];
            &&& opt_str(r.display_manager.service) == Some(d.service@)
            &&& r.display_manager.active
            &&& r.display_manager.depends_on_plymouth_quit_wait == contains(
                lowercase(d.after@),
                "plymouth"@,
            )
            &&& opt_str(r.display_manager.after_property) == Some(d.after@)
        },
        sorted_by_key(r.run_plymouth_files@),
        r.run_plymouth_files@.to_multiset() == run_files_of(p.run_files@).to_multiset(),
        exists|q: Seq<int>|
            stable_image(r.run_plymouth_files@, run_files_of(p.run_files@), q) && forall|i: int, j: int|
                0 <= i < j < r.run_plymouth_files@.len() && r.run_plymouth_files@[i].key()
                    == r.run_plymouth_files@[j].key() ==> #[trigger] q[i] < #[trigger] q[j],
{
    let running = p.ping_rc == 0;
    let units_list = trimmed_lines(p.units.as_str());
    let props = parse_show_properties(p.quit_wait_show.as_str());
    let ghost probes = run_files_of(p.run_files@);
    let files = run_plymouth_files(p.run_files);
    let ghost q = choose|q: Seq<int>|
        stable_image(files@, probes, q) && forall|i: int, j: int|
            0 <= i < j < files@.len() && files@[i].key() == files@[j].key() ==> #[trigger] q[i]
                < #[trigger] q[j];
    let r = RuntimeState {
        version: non_empty(p.version),
        daemon_running: running,
        daemon_mode: daemon_mode(running, p.mode),
        valid_modes: valid_modes(),
        mode_control_commands: mode_control_commands(),
        units_list,
        unit_states: unit_state_map(p.unit_states),
        plymouth_quit_wait_properties: props,
        plymouth_start_unit_file: non_empty(p.start_unit_cat),
        display_manager: display_manager_of(p.display_managers),
        run_plymouth_files: files,
    };
    assert(stable_image(r.run_plymouth_files@, run_files_of(p.run_files@), q));
    assert(forall|i: int, j: int|
        0 <= i < j < r.run_plymouth_files@.len() && r.run_plymouth_files@[i].key()
            == r.run_plymouth_files@[j].key() ==> #[trigger] q[i] < #[trigger] q[j]);
    r
}

} // verus!

//! The daemon's configuration files, the active theme and the links that select it.
use vstd::prelude::*;
use crate::model::{ConfigFile, ConfigValue, ConfigValueView, DirectoryInfo, FileInfo, GlobalConfig, SymlinkStep};
use crate::order::{sort_by_key, sorted_by_key, stable_image, TextKey};
use crate::detector::utils::step_target;
use crate::path::{extension, parent_name, path_extension, path_parent_name};
use crate::strmap::StrMap;
use crate::text::{
    after_char, char_vecs, copy_opt, find_char, from_chars, lines, lines_of,
    opt_str, starts_with, starts_with_str, string_of, strs, sub_chars, to_chars, trim, trim_chars,
    trim_start, is_ws, lemma_trim_idempotent,
};

verus! {

/// The keys read from the daemon's configuration files, in order.
pub open spec fn config_keys() -> Seq<Seq<char>> {
    seq!["Theme"@, "ShowDelay"@, "DeviceTimeout"@, "CharacterEncoding"@]
}

pub proof fn lemma_config_keys_distinct()
    ensures
        config_keys().no_duplicates(),
{
    reveal_strlit("Theme");
    reveal_strlit("ShowDelay");
    reveal_strlit("DeviceTimeout");
    reveal_strlit("CharacterEncoding");
    let k = config_keys();
    assert(k[0].len() == 5 && k[1].len() == 9 && k[2].len() == 13 && k[3].len() == 17);
}

/// The keys read from the daemon's configuration files.
pub fn config_key_list() -> (r: Vec<String>)
    ensures
        strs(r@) == config_keys(),
{
    let mut r: Vec<String> = Vec::new();
    r.push(string_of("Theme"));
    r.push(string_of("ShowDelay"));
    r.push(string_of("DeviceTimeout"));
    r.push(string_of("CharacterEncoding"));
    assert(strs(r@) =~= config_keys());
    r
}

/// The value that a line gives to `key`: the line starts with `key`, then optional
/// whitespace, `=`, and at least one more character; the value is what follows `=`,
/// trimmed. (The pattern `^key\s*=\s*(.+)$` on one line, its capture trimmed.)
pub open spec fn config_line_value(line: Seq<char>, key: Seq<char>) -> Option<Seq<char>> {
    if starts_with(line, key) {
        let rest = trim_start(line.skip(key.len() as int));
        if rest.len() >= 2 && rest[0] == '=' {
            Some(trim(rest.skip(1)))
        } else {
            None
        }
    } else {
        None
    }
}

/// A value read from a configuration line never starts or ends with whitespace:
/// trimming it changes nothing.
pub proof fn lemma_config_line_value_trimmed(line: Seq<char>, key: Seq<char>)
    ensures
        config_line_value(line, key) matches Some(x) ==> {
            &&& x == trim(x)
            &&& x.len() > 0 ==> !is_ws(x[0]) && !is_ws(x.last())
        },
{
    if let Some(x) = config_line_value(line, key) {
        let rest = trim_start(line.skip(key.len() as int));
        lemma_trim_idempotent(rest.skip(1));
    }
}

/// The value that the first line giving one gives to `key`.
pub open spec fn first_config_value(ls: Seq<Seq<char>>, key: Seq<char>) -> Option<Seq<char>>
    decreases ls.len(),
{
    if ls.len() == 0 {
        None
    } else {
        match config_line_value(ls[0], key) {
            Some(v) => Some(v),
            None => first_config_value(ls.drop_first(), key),
        }
    }
}

/// Whatever line of a text gives `key` its value, that value is trimmed.
pub proof fn lemma_first_config_value_trimmed(ls: Seq<Seq<char>>, key: Seq<char>)
    ensures
        first_config_value(ls, key) matches Some(x) ==> x == trim(x),
    decreases ls.len(),
{
    if ls.len() > 0 {
        lemma_config_line_value_trimmed(ls[0], key);
        lemma_first_config_value_trimmed(ls.drop_first(), key);
    }
}

/// The value that `line` gives to `key`, if any.
pub fn line_value(line: &[char], key: &[char]) -> (r: Option<Vec<char>>)
    ensures
        match r {
            Some(v) => config_line_value(line@, key@) == Some(v@),
            None => config_line_value(line@, key@) is None,
        },
{
    if !crate::text::has_prefix(line, key) {
        return None;
    }
    let rest = sub_chars(line, key.len(), line.len());
    assert(rest@ =~= line@.skip(key@.len() as int));
    // Skip whitespace.
    let mut i: usize = 0;
    assert(rest@.skip(0) =~= rest@);
    while i < rest.len() && crate::text::is_whitespace(rest[i])
        invariant
            i <= rest@.len(),
            trim_start(rest@) == trim_start(rest@.skip(i as int)),
        decreases rest@.len() - i,
    {
        assert(rest@.skip(i as int).drop_first() =~= rest@.skip(i + 1));
        i = i + 1;
    }
    assert(trim_start(rest@.skip(i as int)) == rest@.skip(i as int));
    if rest.len() - i >= 2 && rest[i] == '=' {
        let tail = sub_chars(rest.as_slice(), i + 1, rest.len());
        assert(tail@ =~= rest@.skip(i as int).skip(1));
        Some(trim_chars(tail.as_slice()))
    } else {
        None
    }
}

/// The value that the first line of `ls` giving one gives to `key`.
pub fn first_line_value(ls: &Vec<Vec<char>>, key: &[char]) -> (r: Option<Vec<char>>)
    ensures
        match r {
            Some(v) => first_config_value(char_vecs(ls@), key@) == Some(v@),
            None => first_config_value(char_vecs(ls@), key@) is None,
        },
{
    let ghost all = char_vecs(ls@);
    let mut i: usize = 0;
    assert(all.skip(0) =~= all);
    while i < ls.len()
        invariant
            i <= ls@.len(),
            all == char_vecs(ls@),
            first_config_value(all, key@) == first_config_value(all.skip(i as int), key@),
        decreases ls@.len() - i,
    {
        assert(all.skip(i as int)[0] == ls@[i as int]@);
        assert(all.skip(i as int).drop_first() =~= all.skip(i + 1));
        match line_value(ls[i].as_slice(), key) {
            Some(v) => {
                return Some(v);
            },
            None => {},
        }
        i = i + 1;
    }
    None
}

/// The value stored under `k` in a configuration file's values: absent, or present
/// with or without a value.
pub open spec fn file_value(f: ConfigFile, k: Seq<char>) -> Option<Option<Seq<char>>> {
    match f.values.spec_get(k) {
        Some(o) => Some(opt_str(o)),
        None => None,
    }
}

/// The value that a configuration file with text `content` (or none) gives to `k`.
pub open spec fn expected_value(content: Option<String>, k: Seq<char>) -> Option<Seq<char>> {
    match content {
        Some(c) => first_config_value(lines(c@), k),
        None => None,
    }
}

/// A daemon configuration file at `path`, with its (trimmed) text when it exists: for
/// each configuration key, the value that the first line giving one gives to it; no
/// value at all when the file is absent.
pub fn collect_config_file(path: &str, content: Option<String>) -> (r: ConfigFile)
    ensures
        r.path@ == path@,
        r.present == (content is Some),
        opt_str(r.content) == opt_str(content),
        r.values.keys() == config_keys(),
        forall|k: Seq<char>|
            #![trigger file_value(r, k)]
            config_keys().contains(k) ==> file_value(r, k) == Some(expected_value(content, k)),
        forall|k: Seq<char>, v: Seq<char>|
            #![trigger file_value(r, k), trim(v)]
            file_value(r, k) == Some(Some(v)) ==> v == trim(v),
{
    let keys = config_key_list();
    let ls: Vec<Vec<char>> = match &content {
        Some(c) => lines_of(c.as_str()),
        None => Vec::new(),
    };
    let mut values: StrMap<Option<String>> = StrMap::new();
    proof {
        lemma_config_keys_distinct();
    }
    let mut i: usize = 0;
    while i < keys.len()
        invariant
            i <= keys@.len(),
            strs(keys@) == config_keys(),
            config_keys().no_duplicates(),
            values.keys() == config_keys().take(i as int),
            content is Some ==> char_vecs(ls@) == lines(content->0@),
            forall|j: int|
                0 <= j < i ==> #[trigger] values.spec_get(config_keys()[j]) is Some && opt_str(
                    values.spec_get(config_keys()[j])->0,
                ) == expected_value(content, config_keys()[j]),
        decreases keys@.len() - i,
    {
        let key = to_chars(keys[i].as_str());
        assert(key@ == config_keys()[i as int]);
        let v: Option<String> = match &content {
            Some(_) => match first_line_value(&ls, key.as_slice()) {
                Some(x) => Some(from_chars(x.as_slice())),
                None => None,
            },
            None => None,
        };
        let ghost before = values;
        assert(!before.has(key@)) by {
            if before.has(key@) {
                let a = before.keys().index_of(key@);
                assert(config_keys()[a] == config_keys()[i as int]);
            }
        }
        values.insert(keys[i].clone(), v);
        proof {
            assert(values.keys() =~= config_keys().take(i + 1));
            assert forall|j: int| 0 <= j < i + 1 implies #[trigger] values.spec_get(
                config_keys()[j],
            ) is Some && opt_str(values.spec_get(config_keys()[j])->0) == expected_value(
                content,
                config_keys()[j],
            ) by {
                if j < i {
                    assert(config_keys()[j] != config_keys()[i as int]);
                }
            }
        }
        i = i + 1;
    }
    assert(config_keys().take(4) =~= config_keys());
    let present = content.is_some();
    let ghost c0 = content;
    let r = ConfigFile { path: string_of(path), present, content, values };
    proof {
        assert forall|k: Seq<char>| config_keys().contains(k) implies #[trigger] file_value(r, k)
            == Some(expected_value(c0, k)) by {
            let j = config_keys().index_of(k);
            assert(config_keys()[j] == k);
        }
        assert forall|k: Seq<char>, v: Seq<char>| file_value(r, k) == Some(Some(v)) implies v
            == trim(v) by {
            assert(r.values.keys().contains(k));
            let j = config_keys().index_of(k);
            assert(config_keys()[j] == k);
            assert(file_value(r, k) == Some(expected_value(c0, k)));
            if let Some(c) = c0 {
                lemma_first_config_value_trimmed(lines(c@), k);
            }
        }
    }
    r
}


/// The note recorded with the resolved daemon configuration.
pub open spec fn effective_note() -> Seq<char> {
    "Resolved: conf overrides defaults; theme via update-alternatives when no conf"@
}

/// The resolved value of `k`: the value `conf` gives it if it gives one, else the value
/// `defaults` gives it; when neither gives one, `Theme` falls back to the active theme,
/// `ShowDelay` to 0, `DeviceTimeout` to 8, and any other key to nothing.
pub open spec fn effective_value(
    conf: ConfigFile,
    defaults: ConfigFile,
    k: Seq<char>,
    active_theme: Seq<char>,
) -> ConfigValueView {
    let v = match file_value(conf, k) {
        Some(Some(x)) => Some(x),
        _ => match file_value(defaults, k) {
            Some(x) => x,
            None => None,
        },
    };
    match v {
        Some(s) => ConfigValueView::Text(s),
        None => if k == "Theme"@ {
            ConfigValueView::Text(active_theme)
        } else if k == "ShowDelay"@ {
            ConfigValueView::Number(0)
        } else if k == "DeviceTimeout"@ {
            ConfigValueView::Number(8)
        } else {
            ConfigValueView::Null
        },
    }
}

/// The value stored under `k` in `f`, copied: absent, or present with or without a value.
fn stored_value(f: &ConfigFile, k: &[char]) -> (r: Option<Option<String>>)
    ensures
        match r {
            Some(o) => file_value(*f, k@) == Some(opt_str(o)),
            None => file_value(*f, k@) is None,
        },
{
    match f.values.get_chars(k) {
        Some(o) => Some(copy_opt(o)),
        None => None,
    }
}

/// The resolved daemon configuration: a note, then for each configuration key its
/// resolved value.
pub fn effective_config(conf: &ConfigFile, defaults: &ConfigFile, active_theme: &str) -> (r: StrMap<
    ConfigValue,
>)
    ensures
        r@ == Map::<Seq<char>, ConfigValueView>::empty().insert(
            "note"@,
            ConfigValueView::Text(effective_note()),
        ).insert("Theme"@, effective_value(*conf, *defaults, "Theme"@, active_theme@)).insert(
            "ShowDelay"@,
            effective_value(*conf, *defaults, "ShowDelay"@, active_theme@),
        ).insert(
            "DeviceTimeout"@,
            effective_value(*conf, *defaults, "DeviceTimeout"@, active_theme@),
        ).insert(
            "CharacterEncoding"@,
            effective_value(*conf, *defaults, "CharacterEncoding"@, active_theme@),
        ),
{
    let mut m: StrMap<ConfigValue> = StrMap::new();
    proof {
        StrMap::<ConfigValue>::lemma_view_empty(m);
    }
    let ghost m0 = m;
    m.insert(string_of("note"), ConfigValue::Text(string_of(
        "Resolved: conf overrides defaults; theme via update-alternatives when no conf",
    )));
    proof {
        StrMap::<ConfigValue>::lemma_view_insert(m0, m, "note"@, ConfigValueView::Text(effective_note()));
    }
    let keys = config_key_list();
    let mut i: usize = 0;
    while i < keys.len()
        invariant
            i <= keys@.len(),
            strs(keys@) == config_keys(),
            m@ == config_keys().take(i as int).fold_left(
                Map::<Seq<char>, ConfigValueView>::empty().insert(
                    "note"@,
                    ConfigValueView::Text(effective_note()),
                ),
                |acc: Map<Seq<char>, ConfigValueView>, k: Seq<char>|
                    acc.insert(k, effective_value(*conf, *defaults, k, active_theme@)),
            ),
        decreases keys@.len() - i,
    {
        let key = to_chars(keys[i].as_str());
        assert(key@ == config_keys()[i as int]);
        assert(config_keys().take(i + 1).drop_last() =~= config_keys().take(i as int));
        let v = match stored_value(conf, key.as_slice()) {
            Some(Some(x)) => Some(x),
            _ => match stored_value(defaults, key.as_slice()) {
                Some(x) => x,
                None => None,
            },
        };
        let value = match v {
            Some(s) => ConfigValue::Text(s),
            None => {
                if crate::text::eq_str(key.as_slice(), "Theme") {
                    ConfigValue::Text(string_of(active_theme))
                } else if crate::text::eq_str(key.as_slice(), "ShowDelay") {
                    ConfigValue::Number(0)
                } else if crate::text::eq_str(key.as_slice(), "DeviceTimeout") {
                    ConfigValue::Number(8)
                } else {
                    ConfigValue::Null
                }
            },
        };
        let ghost before = m;
        let ghost vv = value@;
        assert(vv == effective_value(*conf, *defaults, key@, active_theme@));
        m.insert(keys[i].clone(), value);
        proof {
            StrMap::<ConfigValue>::lemma_view_insert(before, m, key@, vv);
        }
        i = i + 1;
    }
    proof {
        assert(config_keys().take(4) =~= config_keys());
        let base = Map::<Seq<char>, ConfigValueView>::empty().insert(
            "note"@,
            ConfigValueView::Text(effective_note()),
        );
        let f = |acc: Map<Seq<char>, ConfigValueView>, k: Seq<char>|
            acc.insert(k, effective_value(*conf, *defaults, k, active_theme@));
        assert(config_keys().take(1).drop_last() =~= config_keys().take(0));
        assert(config_keys().take(2).drop_last() =~= config_keys().take(1));
        assert(config_keys().take(3).drop_last() =~= config_keys().take(2));
        assert(config_keys().take(4).drop_last() =~= config_keys().take(3));
        assert(config_keys().take(0).fold_left(base, f) == base);
        assert(config_keys().take(1).fold_left(base, f) == f(base, config_keys()[0]));
        assert(config_keys().take(2).fold_left(base, f) == f(config_keys().take(1).fold_left(base, f), config_keys()[1]));
        assert(config_keys().take(3).fold_left(base, f) == f(config_keys().take(2).fold_left(base, f), config_keys()[2]));
        assert(config_keys().take(4).fold_left(base, f) == f(config_keys().take(3).fold_left(base, f), config_keys()[3]));
    }
    m
}

/// The theme that a path names when it is a `.plymouth` file: the name of the
/// directory holding it.
pub open spec fn theme_of_path(p: Seq<char>) -> Option<Seq<char>> {
    if extension(p) == Some("plymouth"@) {
        parent_name(p)
    } else {
        None
    }
}

/// The theme that the first `Value:` line of `update-alternatives --query` naming a
/// `.plymouth` file selects.
pub open spec fn theme_from_query(ls: Seq<Seq<char>>) -> Option<Seq<char>>
    decreases ls.len(),
{
    if ls.len() == 0 {
        None
    } else {
        let line = ls[0];
        if starts_with(line, "Value:"@) && theme_of_path(trim(after_char(line, ':'))) is Some {
            theme_of_path(trim(after_char(line, ':')))
        } else {
            theme_from_query(ls.drop_first())
        }
    }
}

/// Where a chain of links ends: the path of its last step.
pub open spec fn chain_end(c: Vec<SymlinkStep>) -> Option<Seq<char>> {
    if c@.len() > 0 {
        Some(c@.last().path@)
    } else {
        None
    }
}

/// Where each chain ends (see [`chain_end`]).
pub open spec fn chains_ends(chains: Seq<Vec<SymlinkStep>>) -> Seq<Option<Seq<char>>> {
    chains.map_values(|c: Vec<SymlinkStep>| chain_end(c))
}

/// The theme that the first chain ending in a `.plymouth` file selects.
pub open spec fn theme_from_chains(ends: Seq<Option<Seq<char>>>) -> Option<Seq<char>>
    decreases ends.len(),
{
    if ends.len() == 0 {
        None
    } else {
        match ends[0] {
            Some(p) => if theme_of_path(p) is Some {
                theme_of_path(p)
            } else {
                theme_from_chains(ends.drop_first())
            },
            None => theme_from_chains(ends.drop_first()),
        }
    }
}

/// The `Theme` value that a configuration file gives, if it gives one.
pub open spec fn configured_theme(f: ConfigFile) -> Option<Seq<char>> {
    match file_value(f, "Theme"@) {
        Some(Some(t)) => Some(t),
        _ => None,
    }
}

/// The active theme: the one that the alternatives system selects, else the one at the
/// end of the first symlink chain of a link that is there and that ends in a `.plymouth`
/// file, else the `Theme` of
/// the daemon's configuration file, else that of its defaults file, else none (empty).
pub open spec fn active_theme(
    query: Seq<char>,
    chains: Seq<Option<Seq<char>>>,
    conf: ConfigFile,
    defaults: ConfigFile,
) -> Seq<char> {
    match theme_from_query(lines(query)) {
        Some(t) => t,
        None => match theme_from_chains(chains) {
            Some(t) => t,
            None => match configured_theme(conf) {
                Some(t) => t,
                None => match configured_theme(defaults) {
                    Some(t) => t,
                    None => seq![],
                },
            },
        },
    }
}

/// The theme that `p` names when it is a `.plymouth` file.
fn path_theme(p: &[char]) -> (r: Option<Vec<char>>)
    ensures
        match r {
            Some(t) => theme_of_path(p@) == Some(t@),
            None => theme_of_path(p@) is None,
        },
{
    match path_extension(p) {
        Some(e) => {
            if crate::text::eq_str(e.as_slice(), "plymouth") {
                path_parent_name(p)
            } else {
                None
            }
        },
        None => None,
    }
}

/// The active theme, from the output of `update-alternatives --query default.plymouth`,
/// the symlink chains of the two default-theme links, and the configuration files.
pub fn detect_active_theme(
    query: &str,
    chains: &Vec<Vec<SymlinkStep>>,
    conf: &ConfigFile,
    defaults: &ConfigFile,
) -> (r: String)
    ensures
        r@ == active_theme(query@, chains_ends(chains@), *conf, *defaults),
{
    let ls = lines_of(query);
    let ghost all = char_vecs(ls@);
    let mut i: usize = 0;
    assert(all.skip(0) =~= all);
    while i < ls.len()
        invariant
            i <= ls@.len(),
            all == char_vecs(ls@),
            all == lines(query@),
            theme_from_query(all) == theme_from_query(all.skip(i as int)),
        decreases ls@.len() - i,
    {
        let line = ls[i].as_slice();
        assert(all.skip(i as int)[0] == line@);
        assert(all.skip(i as int).drop_first() =~= all.skip(i + 1));
        if starts_with_str(line, "Value:") {
            proof {
                reveal_strlit("Value:");
                crate::text::lemma_index_of_char_bounds(line@, ':');
                assert(line@.take(6) == "Value:"@);
                assert(line@.take(6)[5] == ':');
                assert(line@[5] == ':');
            }
            let idx = find_char(line, ':');
            let n = line.len();
            assert(idx <= 5);
            assert(idx < n);
            let after = sub_chars(line, idx + 1, n);
            assert(after@ =~= after_char(line@, ':'));
            let p = trim_chars(after.as_slice());
            match path_theme(p.as_slice()) {
                Some(t) => {
                    return from_chars(t.as_slice());
                },
                None => {},
            }
        }
        i = i + 1;
    }
    let mut j: usize = 0;
    assert(chains_ends(chains@).skip(0) =~= chains_ends(chains@));
    while j < chains.len()
        invariant
            j <= chains@.len(),
            all == lines(query@),
            theme_from_query(all) is None,
            theme_from_chains(chains_ends(chains@)) == theme_from_chains(
                chains_ends(chains@).skip(j as int),
            ),
        decreases chains@.len() - j,
    {
        let ghost cp = chains_ends(chains@);
        assert(cp.skip(j as int)[0] == chain_end(chains@[j as int]));
        assert(cp.skip(j as int).drop_first() =~= cp.skip(j + 1));
        let c = &chains[j];
        if c.len() > 0 {
            let last = to_chars(c[c.len() - 1].path.as_str());
            assert(chain_end(*c) == Some(last@));
            match path_theme(last.as_slice()) {
                Some(t) => {
                    return from_chars(t.as_slice());
                },
                None => {},
            }
        }
        j = j + 1;
    }
    let theme_key = to_chars("Theme");
    match stored_value(conf, theme_key.as_slice()) {
        Some(Some(t)) => {
            return t;
        },
        _ => {},
    }
    match stored_value(defaults, theme_key.as_slice()) {
        Some(Some(t)) => t,
        _ => String::new(),
    }
}

/// The links whose symlink chains are followed, in order.
pub fn default_theme_links() -> (r: Vec<String>)
    ensures
        strs(r@) == seq![
            "/etc/alternatives/default.plymouth"@,
            "/usr/share/plymouth/themes/default.plymouth"@,
        ],
{
    let mut r: Vec<String> = Vec::new();
    r.push(string_of("/etc/alternatives/default.plymouth"));
    r.push(string_of("/usr/share/plymouth/themes/default.plymouth"));
    assert(strs(r@) =~= seq![
        "/etc/alternatives/default.plymouth"@,
        "/usr/share/plymouth/themes/default.plymouth"@,
    ]);
    r
}


// ---------------------------------------------------------------------------
// Following symbolic links
// ---------------------------------------------------------------------------

impl TextKey for FileInfo {
    open spec fn key(&self) -> Seq<char> {
        self.path@
    }

    fn key_chars(&self) -> (r: Vec<char>) {
        to_chars(self.path.as_str())
    }
}

/// The symlink chain of a default-theme link, and whether the link is there at all.
pub struct LinkChain {
    pub link: String,
    pub present: bool,
    pub steps: Vec<SymlinkStep>,
}

/// The chains of the links that are there, by link; a later chain of the same link
/// replaces an earlier one.
pub open spec fn present_chain(chains: Seq<LinkChain>, k: Seq<char>) -> Option<Vec<SymlinkStep>>
    decreases chains.len(),
{
    if chains.len() == 0 {
        None
    } else if chains.last().present && chains.last().link@ == k {
        Some(chains.last().steps)
    } else {
        present_chain(chains.drop_last(), k)
    }
}

/// Where the chains of the links that are there end, in order.
pub open spec fn present_ends(chains: Seq<LinkChain>) -> Seq<Option<Seq<char>>>
    decreases chains.len(),
{
    if chains.len() == 0 {
        seq![]
    } else if chains.last().present {
        present_ends(chains.drop_last()).push(chain_end(chains.last().steps))
    } else {
        present_ends(chains.drop_last())
    }
}

/// The global configuration section: the files of `/etc/plymouth` sorted by path, the
/// two configuration files, the resolved configuration, the active theme (see
/// [`active_theme`]), the outputs of `update-alternatives`, and the chains of the
/// default-theme links that are there.
pub fn collect(
    etc_plymouth_exists: bool,
    etc_files: Vec<FileInfo>,
    defaults_file: ConfigFile,
    conf_file: ConfigFile,
    update_alternatives_display: String,
    update_alternatives_query: String,
    chains: Vec<LinkChain>,
) -> (r: GlobalConfig)
    ensures
        r.etc_plymouth_directory.exists == etc_plymouth_exists,
        sorted_by_key(r.etc_plymouth_directory.files@),
        r.etc_plymouth_directory.files@.to_multiset() == etc_files@.to_multiset(),
        exists|q: Seq<int>|
            stable_image(r.etc_plymouth_directory.files@, etc_files@, q) && forall|i: int, j: int|
                0 <= i < j < r.etc_plymouth_directory.files@.len() && r.etc_plymouth_directory.files@[i].key()
                    == r.etc_plymouth_directory.files@[j].key() ==> #[trigger] q[i] < #[trigger] q[j],
        r.daemon_defaults_file == defaults_file,
        r.daemon_conf_file == conf_file,
        r.active_theme@ == active_theme(
            update_alternatives_query@,
            present_ends(chains@),
            conf_file,
            defaults_file,
        ),
        r.effective_daemon_config@ == Map::<Seq<char>, ConfigValueView>::empty().insert(
            "note"@,
            ConfigValueView::Text(effective_note()),
        ).insert("Theme"@, effective_value(conf_file, defaults_file, "Theme"@, r.active_theme@)).insert(
            "ShowDelay"@,
            effective_value(conf_file, defaults_file, "ShowDelay"@, r.active_theme@),
        ).insert(
            "DeviceTimeout"@,
            effective_value(conf_file, defaults_file, "DeviceTimeout"@, r.active_theme@),
        ).insert(
            "CharacterEncoding"@,
            effective_value(conf_file, defaults_file, "CharacterEncoding"@, r.active_theme@),
        ),
        r.update_alternatives_display@ == update_alternatives_display@,
        r.update_alternatives_query@ == update_alternatives_query@,
        forall|k: Seq<char>| #[trigger] r.symlink_chains.spec_get(k) == present_chain(chains@, k),
{
    let ghost orig = chains@;
    let mut all_steps: Vec<Vec<SymlinkStep>> = Vec::new();
    let mut map: StrMap<Vec<SymlinkStep>> = StrMap::new();
    let mut rest = chains;
    let ghost mut done: int = 0;
    while rest.len() > 0
        invariant
            0 <= done <= orig.len(),
            rest@ == orig.skip(done),
            chains_ends(all_steps@) == present_ends(orig.take(done)),
            forall|k: Seq<char>| #[trigger] map.spec_get(k) == present_chain(orig.take(done), k),
        decreases rest@.len(),
    {
        let c = rest.remove(0);
        proof {
            assert(orig[done] == c);
            assert(orig.take(done + 1).drop_last() =~= orig.take(done));
            assert(rest@ =~= orig.skip(done + 1));
        }
        let LinkChain { link, present, steps } = c;
        let ghost old_all = all_steps@;
        if present {
            let copy = copy_steps(&steps);
            let ghost copy_v = copy;
            all_steps.push(copy);
            map.insert(link, steps);
            proof {
                assert(chain_end(copy_v) == chain_end(c.steps));
                assert(chains_ends(all_steps@) =~= chains_ends(old_all).push(chain_end(copy_v)));
            }
        }
        proof {
            assert(chains_ends(all_steps@) =~= present_ends(orig.take(done + 1)));
            assert forall|j: Seq<char>| #[trigger] map.spec_get(j) == present_chain(orig.take(done + 1), j) by {
                assert(orig.take(done + 1).last() == c);
            }
            done = done + 1;
        }
    }
    assert(orig.take(done) =~= orig);
    let active = detect_active_theme(&update_alternatives_query, &all_steps, &conf_file, &defaults_file);
    let effective = effective_config(&conf_file, &defaults_file, active.as_str());
    let ghost given = etc_files@;
    let files = sort_by_key(etc_files);
    let ghost q = choose|q: Seq<int>|
        stable_image(files@, given, q) && forall|i: int, j: int|
            0 <= i < j < files@.len() && files@[i].key() == files@[j].key() ==> #[trigger] q[i] < #[trigger] q[j];
    let r = GlobalConfig {
        etc_plymouth_directory: DirectoryInfo { exists: etc_plymouth_exists, files },
        daemon_defaults_file: defaults_file,
        daemon_conf_file: conf_file,
        effective_daemon_config: effective,
        active_theme: active,
        update_alternatives_display,
        update_alternatives_query,
        symlink_chains: map,
    };
    assert(stable_image(r.etc_plymouth_directory.files@, given, q));
    r
}

/// A copy of the steps of a chain.
fn copy_steps(steps: &Vec<SymlinkStep>) -> (r: Vec<SymlinkStep>)
    ensures
        r@.len() == steps@.len(),
        forall|i: int| 0 <= i < r@.len() ==> {
            &&& (#[trigger] r@[i]).path@ == steps@[i].path@
            &&& r@[i].is_symlink == steps@[i].is_symlink
            &&& r@[i].exists == steps@[i].exists
            &&& step_target(r@[i]) == step_target(steps@[i])
        },
{
    let mut r: Vec<SymlinkStep> = Vec::new();
    let mut i: usize = 0;
    while i < steps.len()
        invariant
            i <= steps@.len(),
            r@.len() == i,
            forall|k: int| 0 <= k < i ==> {
                &&& (#[trigger] r@[k]).path@ == steps@[k].path@
                &&& r@[k].is_symlink == steps@[k].is_symlink
                &&& r@[k].exists == steps@[k].exists
                &&& step_target(r@[k]) == step_target(steps@[k])
            },
        decreases steps@.len() - i,
    {
        let s = &steps[i];
        r.push(SymlinkStep { path: s.path.clone(), is_symlink: s.is_symlink, exists: s.exists, target: copy_opt(&s.target) });
        i = i + 1;
    }
    r
}

} // verus!

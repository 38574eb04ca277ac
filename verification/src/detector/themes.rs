//! Themes: the `.plymouth` description files, the active theme and every installed one.
use vstd::prelude::*;
use crate::model::{ActiveTheme, AssetInfo, AvailableTheme, PluginSo, ScriptFileDetail};
use crate::detector::utils::{hex, sha256_digest, sha256_full, sha256_short};
use crate::order::{sort_by_key, sorted_by_key, stable_image, TextKey};
use crate::path::{extension, join, path_extension, path_join};
use crate::strmap::StrMap;
use crate::text::{
    after_char, before_char, char_vecs, contains, contains_chars, eq_str, find_char, string_of,
    from_chars, has_char, lines, lines_of, lowercase, opt_str, strs, sub_chars, to_chars,
    to_lowercase, trim, trim_chars,
};

verus! {

/// Sections of an INI text, each mapping keys to values.
pub type IniView = Map<Seq<char>, Map<Seq<char>, Seq<char>>>;

/// What one line of a `.plymouth` file does to the sections read so far and the current
/// section name. The line is trimmed; empty lines and lines starting with `#` or `;` do
/// nothing; `[name]` starts (or empties) the section `name`; `key=value` inside a named
/// section stores the trimmed value under the trimmed key; anything else does nothing.
pub open spec fn ini_step(st: (IniView, Seq<char>), raw: Seq<char>) -> (IniView, Seq<char>) {
    let (m, cur) = st;
    let line = trim(raw);
    if line.len() == 0 || line[0] == '#' || line[0] == ';' {
        st
    } else if line[0] == '[' && line.last() == ']' {
        let sec = line.subrange(1, line.len() - 1);
        (m.insert(sec, Map::empty()), sec)
    } else if has_char(line, '=') && cur.len() > 0 && m.contains_key(cur) {
        (
            m.insert(cur, m[cur].insert(trim(before_char(line, '=')), trim(after_char(line, '=')))),
            cur,
        )
    } else {
        st
    }
}

/// `ini_step` as a function value, for folding over lines.
pub open spec fn ini_fold() -> spec_fn((IniView, Seq<char>), Seq<char>) -> (IniView, Seq<char>) {
    |st: (IniView, Seq<char>), l: Seq<char>| ini_step(st, l)
}

/// The sections and the current section name after reading the lines `ls` in order.
pub open spec fn ini_state(ls: Seq<Seq<char>>) -> (IniView, Seq<char>) {
    ls.fold_left((Map::empty(), seq![]), ini_fold())
}

/// The sections of an INI text.
pub open spec fn ini(content: Seq<char>) -> IniView {
    ini_state(lines(content)).0
}

/// Reading `first` and then `second` is reading `second` from the state that `first` left.
proof fn lemma_ini_state_concat(first: Seq<Seq<char>>, second: Seq<Seq<char>>)
    ensures
        (first + second).fold_left((Map::empty(), seq![]), ini_fold())
            == second.fold_left(ini_state(first), ini_fold()),
{
    let all = first + second;
    all.lemma_fold_left_split((Map::empty(), seq![]), ini_fold(), first.len() as int);
    assert(all.subrange(0, first.len() as int) =~= first);
    assert(all.subrange(first.len() as int, all.len() as int) =~= second);
}

/// A comment line (one whose trimmed text starts with `#`) changes nothing: neither the
/// sections read so far nor the current section.
pub proof fn lemma_comment_line_is_ignored(st: (IniView, Seq<char>), line: Seq<char>)
    requires
        trim(line).len() > 0,
        trim(line)[0] == '#',
    ensures
        ini_step(st, line) == st,
{
}

/// Inserting a comment line anywhere among the lines of an INI text leaves the sections,
/// and the section that later lines go to, as they were without it.
pub proof fn lemma_comment_lines_add_nothing(
    before: Seq<Seq<char>>,
    comment: Seq<char>,
    after: Seq<Seq<char>>,
)
    requires
        trim(comment).len() > 0,
        trim(comment)[0] == '#',
    ensures
        ini_state(before + seq![comment] + after) == ini_state(before + after),
{
    let with = before + seq![comment];
    lemma_ini_state_concat(with, after);
    lemma_ini_state_concat(before, after);
    assert(with.drop_last() =~= before);
    assert(with.last() == comment);
    lemma_comment_line_is_ignored(ini_state(before), comment);
    assert(ini_state(with) == ini_step(ini_state(before), comment));
}

/// Two texts whose lines differ only by one comment line have the same sections.
pub proof fn lemma_comment_line_in_text(
    with_comment: Seq<char>,
    without: Seq<char>,
    before: Seq<Seq<char>>,
    comment: Seq<char>,
    after: Seq<Seq<char>>,
)
    requires
        lines(with_comment) == before + seq![comment] + after,
        lines(without) == before + after,
        trim(comment).len() > 0,
        trim(comment)[0] == '#',
    ensures
        ini(with_comment) == ini(without),
{
    lemma_comment_lines_add_nothing(before, comment, after);
}

/// The sections of an INI text, as the `.plymouth` files of themes write them.
pub fn parse_ini(content: &str) -> (r: StrMap<StrMap<String>>)
    ensures
        r@ == ini(content@),
{
    let ls = lines_of(content);
    let ghost all = char_vecs(ls@);
    let mut m: StrMap<StrMap<String>> = StrMap::new();
    let mut cur: Vec<char> = Vec::new();
    proof {
        StrMap::<StrMap<String>>::lemma_view_empty(m);
    }
    let mut i: usize = 0;
    while i < ls.len()
        invariant
            i <= ls@.len(),
            all == char_vecs(ls@),
            all.len() == ls@.len(),
            (m@, cur@) == ini_state(all.take(i as int)),
        decreases ls@.len() - i,
    {
        assert(all[i as int] == ls@[i as int]@);
        assert(all.take(i + 1).drop_last() =~= all.take(i as int));
        let ghost prev = (m@, cur@);
        let line = trim_chars(ls[i].as_slice());
        let n = line.len();
        if n == 0 || line[0] == '#' || line[0] == ';' {
        } else if line[0] == '[' && line[n - 1] == ']' {
            let sec = sub_chars(line.as_slice(), 1, n - 1);
            let ghost before = m;
            let empty: StrMap<String> = StrMap::new();
            proof {
                StrMap::<String>::lemma_view_empty(empty);
            }
            m.insert(from_chars(sec.as_slice()), empty);
            proof {
                StrMap::<StrMap<String>>::lemma_view_insert(before, m, sec@, Map::empty());
            }
            cur = sec;
            assert((m@, cur@) == ini_step(prev, all[i as int]));
        } else if find_char(line.as_slice(), '=') < n && cur.len() > 0 {
            let ghost before = m;
            match m.remove(cur.as_slice()) {
                Some(section) => {
                    proof {
                        StrMap::<StrMap<String>>::lemma_view_remove(before, m, cur@);
                        before.lemma_view();
                    }
                    let ghost removed = m;
                    let mut section = section;
                    let ghost sec_before = section;
                    proof {
                        crate::text::lemma_index_of_char_bounds(line@, '=');
                    }
                    let idx = find_char(line.as_slice(), '=');
                    let kraw = sub_chars(line.as_slice(), 0, idx);
                    let vraw = sub_chars(line.as_slice(), idx + 1, n);
                    assert(kraw@ == before_char(line@, '='));
                    assert(vraw@ =~= after_char(line@, '='));
                    let k = trim_chars(kraw.as_slice());
                    let v = trim_chars(vraw.as_slice());
                    let ks = from_chars(k.as_slice());
                    let vs = from_chars(v.as_slice());
                    let ghost kk = ks@;
                    let ghost vv = vs@;
                    section.insert(ks, vs);
                    proof {
                        StrMap::<String>::lemma_view_insert(sec_before, section, kk, vv);
                        assert(vv == trim(after_char(line@, '=')));
                    }
                    let ghost new_sec = section@;
                    m.insert(from_chars(cur.as_slice()), section);
                    proof {
                        StrMap::<StrMap<String>>::lemma_view_insert(removed, m, cur@, new_sec);
                        assert(m@ =~= before@.insert(cur@, before@[cur@].insert(kk, vv)));
                        assert(has_char(line@, '='));
                        assert(vv == trim(after_char(line@, '=')));
                        assert((m@, cur@) == ini_step(prev, all[i as int]));
                    }
                },
                None => {
                    proof {
                        before.lemma_view();
                        StrMap::<StrMap<String>>::lemma_view_remove(before, m, cur@);
                        assert(m@ =~= before@);
                        assert((m@, cur@) == ini_step(prev, all[i as int]));
                    }
                },
            }
        }
        i = i + 1;
    }
    assert(all.take(i as int) =~= all);
    m
}


/// The value of `key` in section `sec`, if both are there.
pub open spec fn section_value(m: IniView, sec: Seq<char>, key: Seq<char>) -> Option<Seq<char>> {
    if m.contains_key(sec) && m[sec].contains_key(key) {
        Some(m[sec][key])
    } else {
        None
    }
}

/// The value of `key` in the `[Plymouth Theme]` section of a theme's INI text.
pub open spec fn theme_value(content: Seq<char>, key: Seq<char>) -> Option<Seq<char>> {
    section_value(ini(content), "Plymouth Theme"@, key)
}

/// The value stored under `key` in an optional section.
fn ini_field(sec: &Option<StrMap<String>>, key: &str) -> (r: Option<String>)
    ensures
        opt_str(r) == match sec {
            Some(s) => if s@.contains_key(key@) {
                Some(s@[key@])
            } else {
                None
            },
            None => None,
        },
{
    match sec {
        Some(s) => {
            proof {
                s.lemma_view();
            }
            match s.get(key) {
                Some(v) => Some(v.clone()),
                None => None,
            }
        },
        None => None,
    }
}

/// The `[Plymouth Theme]` section of a theme's INI text, taken out of the sections.
fn take_theme_section(ini: &mut StrMap<StrMap<String>>) -> (r: Option<StrMap<String>>)
    ensures
        final(ini)@ == old(ini)@.remove("Plymouth Theme"@),
        r is Some == old(ini)@.contains_key("Plymouth Theme"@),
        r matches Some(s) ==> s@ == old(ini)@["Plymouth Theme"@],
{
    let key = to_chars("Plymouth Theme");
    let ghost before = *ini;
    let r = ini.remove(key.as_slice());
    proof {
        StrMap::<StrMap<String>>::lemma_view_remove(before, *ini, key@);
        before.lemma_view();
    }
    r
}

/// A `.plymouth` file found for a theme: its directory, its path and its (trimmed) text.
pub struct ThemeFile {
    pub dir: String,
    pub path: String,
    pub content: String,
}

/// The plugin library of a theme before it is looked for: nothing known.
pub open spec fn plugin_so_unknown(p: PluginSo) -> bool {
    p.path is None && p.size_bytes is None && p.ldd is None
}

/// The two places where the active theme's `.plymouth` file is looked for, in order:
/// for each theme root, the theme's directory and `<name>.plymouth` inside it.
pub fn active_theme_candidates(name: &str) -> (r: Vec<(String, String)>)
    ensures
        r@.len() == 2,
        r@[0].0@ == join("/usr/share/plymouth/themes"@, name@),
        r@[0].1@ == join(join("/usr/share/plymouth/themes"@, name@), name@ + ".plymouth"@),
        r@[1].0@ == join("/usr/local/share/plymouth/themes"@, name@),
        r@[1].1@ == join(join("/usr/local/share/plymouth/themes"@, name@), name@ + ".plymouth"@),
{
    let n = to_chars(name);
    let mut file = to_chars(name);
    crate::text::append_str(&mut file, ".plymouth");
    let mut r: Vec<(String, String)> = Vec::new();
    let root1 = to_chars("/usr/share/plymouth/themes");
    let root2 = to_chars("/usr/local/share/plymouth/themes");
    let d1 = path_join(root1.as_slice(), n.as_slice());
    let f1 = path_join(d1.as_slice(), file.as_slice());
    let d2 = path_join(root2.as_slice(), n.as_slice());
    let f2 = path_join(d2.as_slice(), file.as_slice());
    r.push((from_chars(d1.as_slice()), from_chars(f1.as_slice())));
    r.push((from_chars(d2.as_slice()), from_chars(f2.as_slice())));
    r
}

/// The active theme as far as its `.plymouth` file tells, given that file (its
/// directory, path and trimmed text) when one was found: nothing found when `name` is
/// empty or there is no file; otherwise the file's place and text, the plugin, script
/// and image directory of its `[Plymouth Theme]` section and its other sections. The
/// plugin library, the images and the script's details are not looked at yet.
pub open spec fn active_base(r: ActiveTheme, name: Seq<char>, f: Option<(Seq<char>, Seq<char>, Seq<char>)>) -> bool {
    &&& r.name@ == name
    &&& plugin_so_unknown(r.plugin_so)
    &&& r.assets@.len() == 0
    &&& r.script_file_detail is None
    &&& (name.len() == 0 || f is None) ==> {
        &&& !r.found
        &&& r.theme_dir is None
        &&& r.plymouth_file is None
        &&& r.plymouth_file_content is None
        &&& r.plugin is None
        &&& r.script_file is None
        &&& r.image_dir is None
        &&& r.extra_sections@ == Map::<Seq<char>, Map<Seq<char>, Seq<char>>>::empty()
    }
    &&& (name.len() > 0 && f is Some) ==> {
        let (dir, path, content) = f->0;
        &&& r.found
        &&& opt_str(r.theme_dir) == Some(dir)
        &&& opt_str(r.plymouth_file) == Some(path)
        &&& opt_str(r.plymouth_file_content) == Some(content)
        &&& opt_str(r.plugin) == theme_value(content, "ModuleName"@)
        &&& opt_str(r.script_file) == theme_value(content, "ScriptFile"@)
        &&& opt_str(r.image_dir) == theme_value(content, "ImageDir"@)
        &&& r.extra_sections@ == ini(content).remove("Plymouth Theme"@)
    }
}

/// The roots searched for the active theme, in order.
pub open spec fn active_roots() -> Seq<Seq<char>> {
    seq!["/usr/share/plymouth/themes"@, "/usr/local/share/plymouth/themes"@]
}

/// The `.plymouth` file that the theme `name` would have under `root`.
pub open spec fn candidate_file(root: Seq<char>, name: Seq<char>) -> Seq<char> {
    join(join(root, name), name + ".plymouth"@)
}

/// The first candidate `.plymouth` file that exists, with its directory and text, given
/// the text of each candidate that exists (see [`active_roots`]).
pub open spec fn chosen_candidate(name: Seq<char>, share: Option<String>, local: Option<String>) -> Option<
    (Seq<char>, Seq<char>, Seq<char>),
> {
    match share {
        Some(c) => Some(
            (join(active_roots()[0], name), candidate_file(active_roots()[0], name), c@),
        ),
        None => match local {
            Some(c) => Some(
                (join(active_roots()[1], name), candidate_file(active_roots()[1], name), c@),
            ),
            None => None,
        },
    }
}

/// The active theme as far as its `.plymouth` file tells, given the (trimmed) text of
/// each candidate file that exists, in the order of [`active_theme_candidates`]: the
/// copy under `/usr/share` wins over the one under `/usr/local`.
pub fn collect_active_detail(name: &str, share: Option<String>, local: Option<String>) -> (r: ActiveTheme)
    ensures
        active_base(r, name@, chosen_candidate(name@, share, local)),
{
    let mut cands = active_theme_candidates(name);
    proof {
        reveal_strlit("/usr/share/plymouth/themes");
        reveal_strlit("/usr/local/share/plymouth/themes");
    }
    let ghost c0 = cands@;
    let file = match share {
        Some(c) => {
            let (dir, path) = cands.remove(0);
            assert(dir@ == c0[0].0@ && path@ == c0[0].1@);
            Some(ThemeFile { dir, path, content: c })
        },
        None => match local {
            Some(c) => {
                let (dir, path) = cands.remove(1);
                assert(dir@ == c0[1].0@ && path@ == c0[1].1@);
                Some(ThemeFile { dir, path, content: c })
            },
            None => None,
        },
    };
    describe_found(name, file)
}

/// The active theme as far as its `.plymouth` file tells, given that file.
fn describe_found(name: &str, file: Option<ThemeFile>) -> (r: ActiveTheme)
    ensures
        active_base(
            r,
            name@,
            match file {
                Some(f) => Some((f.dir@, f.path@, f.content@)),
                None => None,
            },
        ),
{
    let empty_sections: StrMap<StrMap<String>> = StrMap::new();
    proof {
        StrMap::<StrMap<String>>::lemma_view_empty(empty_sections);
    }
    let base = ActiveTheme {
        name: crate::text::string_of(name),
        found: false,
        theme_dir: None,
        plymouth_file: None,
        plymouth_file_content: None,
        plugin: None,
        script_file: None,
        image_dir: None,
        extra_sections: empty_sections,
        plugin_so: PluginSo { path: None, size_bytes: None, ldd: None },
        assets: Vec::new(),
        script_file_detail: None,
    };
    if to_chars(name).len() == 0 {
        return base;
    }
    match file {
        None => base,
        Some(f) => {
            let mut ini = parse_ini(f.content.as_str());
            let ghost all = ini@;
            let ts = take_theme_section(&mut ini);
            let plugin = ini_field(&ts, "ModuleName");
            let script_file = ini_field(&ts, "ScriptFile");
            let image_dir = ini_field(&ts, "ImageDir");
            let content = f.content.clone();
            ActiveTheme {
                name: base.name,
                found: true,
                theme_dir: Some(f.dir),
                plymouth_file: Some(f.path),
                plymouth_file_content: Some(content),
                plugin,
                script_file,
                image_dir,
                extra_sections: ini,
                plugin_so: base.plugin_so,
                assets: base.assets,
                script_file_detail: None,
            }
        },
    }
}

/// Where a theme's plugin library may stand, in the order they are tried.
pub fn plugin_so_candidates(plugin: &str) -> (r: Vec<String>)
    ensures
        strs(r@) == seq![
            "/usr/lib/x86_64-linux-gnu/plymouth/"@ + plugin@ + ".so"@,
            "/usr/lib/plymouth/"@ + plugin@ + ".so"@,
        ],
{
    let mut a = to_chars("/usr/lib/x86_64-linux-gnu/plymouth/");
    crate::text::append_str(&mut a, plugin);
    crate::text::append_str(&mut a, ".so");
    let mut b = to_chars("/usr/lib/plymouth/");
    crate::text::append_str(&mut b, plugin);
    crate::text::append_str(&mut b, ".so");
    let mut r: Vec<String> = Vec::new();
    r.push(from_chars(a.as_slice()));
    r.push(from_chars(b.as_slice()));
    assert(strs(r@) =~= seq![
        "/usr/lib/x86_64-linux-gnu/plymouth/"@ + plugin@ + ".so"@,
        "/usr/lib/plymouth/"@ + plugin@ + ".so"@,
    ]);
    r
}

/// The plugin library found at `path`: its size and the lines of `ldd` run on it.
pub fn plugin_so(path: String, size_bytes: Option<u64>, ldd_output: &str) -> (r: PluginSo)
    ensures
        opt_str(r.path) == Some(path@),
        r.size_bytes == size_bytes,
        r.ldd matches Some(l) && strs(l@) == lines(ldd_output@),
{
    let ls = lines_of(ldd_output);
    let l = crate::text::strings_of(&ls);
    PluginSo { path: Some(path), size_bytes, ldd: Some(l) }
}

/// The extensions of image files, in lowercase.
pub open spec fn is_image_ext(e: Seq<char>) -> bool {
    e == "png"@ || e == "jpg"@ || e == "svg"@ || e == "bmp"@
}

/// Whether the file at `path` is an image of the theme: its extension, in lowercase,
/// is png, jpg, svg or bmp.
pub fn is_image_asset(path: &str) -> (r: bool)
    ensures
        r == (extension(path@) matches Some(e) && is_image_ext(lowercase(e))),
{
    let p = to_chars(path);
    match path_extension(p.as_slice()) {
        None => false,
        Some(e) => {
            let l = to_lowercase(e.as_slice());
            eq_str(l.as_slice(), "png") || eq_str(l.as_slice(), "jpg") || eq_str(l.as_slice(), "svg")
                || eq_str(l.as_slice(), "bmp")
        },
    }
}

/// The digest text of an optional content: `digest` applied to it when it was read.
pub open spec fn digest_text(content: Option<Vec<u8>>, short: bool) -> Option<Seq<char>> {
    match content {
        Some(d) => Some(
            if short {
                hex(sha256_digest(d@)).take(16)
            } else {
                hex(sha256_digest(d@))
            },
        ),
        None => None,
    }
}

/// The record of an image of the theme: its file name, its size when it could be read,
/// and the first 16 hexadecimal digits of the SHA-256 digest of its content when the
/// file could be opened.
pub fn asset_info(file: String, size_bytes: Option<u64>, content: Option<Vec<u8>>) -> (r: AssetInfo)
    ensures
        r.file@ == file@,
        r.size_bytes == size_bytes,
        opt_str(r.sha256_prefix) == digest_text(content, true),
{
    let sha256_prefix = match &content {
        Some(d) => Some(sha256_short(d.as_slice())),
        None => None,
    };
    AssetInfo { file, size_bytes, sha256_prefix }
}

/// The record of the theme's script, found at `path`: its size when it could be read
/// and the SHA-256 digest of its content, in hexadecimal, when the file could be opened.
pub fn script_file_detail(path: String, size_bytes: Option<u64>, content: Option<Vec<u8>>) -> (r:
    ScriptFileDetail)
    ensures
        r.path@ == path@,
        r.exists,
        r.size_bytes == size_bytes,
        opt_str(r.sha256) == digest_text(content, false),
{
    let sha256 = match &content {
        Some(d) => Some(sha256_full(d.as_slice())),
        None => None,
    };
    ScriptFileDetail { path, exists: true, size_bytes, sha256 }
}

/// What was found at a candidate plugin library that exists: its size when it could be
/// read and the output of `ldd` on it.
pub struct SoProbe {
    pub size_bytes: Option<u64>,
    pub ldd_output: String,
}

/// An entry met while walking a theme's directory (symbolic links not followed): its
/// path, its file name, whether it is a regular file, its size when it could be read,
/// and its bytes when it could be opened.
pub struct WalkEntry {
    pub path: String,
    pub file_name: String,
    pub is_file: bool,
    pub size_bytes: Option<u64>,
    pub content: Option<Vec<u8>>,
}

impl TextKey for WalkEntry {
    open spec fn key(&self) -> Seq<char> {
        self.file_name@
    }

    fn key_chars(&self) -> (r: Vec<char>) {
        to_chars(self.file_name.as_str())
    }
}

/// What was found at a path: whether something exists there, its size when it could be
/// read, and its bytes when it could be opened.
pub struct FileProbe {
    pub exists: bool,
    pub size_bytes: Option<u64>,
    pub content: Option<Vec<u8>>,
}

/// The plugin library of the theme's plugin: the first of its two candidates (see
/// [`plugin_so_candidates`]) that exists, with what was found there; none without a
/// plugin or when neither exists.
pub open spec fn so_pick(plugin: Option<String>, first: Option<SoProbe>, second: Option<SoProbe>) -> Option<
    (Seq<char>, SoProbe),
> {
    match plugin {
        None => None,
        Some(p) => match first {
            Some(x) => Some(("/usr/lib/x86_64-linux-gnu/plymouth/"@ + p@ + ".so"@, x)),
            None => match second {
                Some(x) => Some(("/usr/lib/plymouth/"@ + p@ + ".so"@, x)),
                None => None,
            },
        },
    }
}

/// Whether `path` names an image: its extension, in lowercase, is png, jpg, svg or bmp.
pub open spec fn is_image_path(path: Seq<char>) -> bool {
    extension(path) matches Some(e) && is_image_ext(lowercase(e))
}

/// The images among the walked entries, in order: each regular file whose path names an
/// image, as its file name, size, and the first 16 digits of its digest.
pub open spec fn image_triples(es: Seq<WalkEntry>) -> Seq<(Seq<char>, Option<u64>, Option<Seq<char>>)>
    decreases es.len(),
{
    if es.len() == 0 {
        seq![]
    } else {
        let e = es.last();
        if e.is_file && is_image_path(e.path@) {
            image_triples(es.drop_last()).push((e.file_name@, e.size_bytes, digest_text(e.content, true)))
        } else {
            image_triples(es.drop_last())
        }
    }
}

/// Each asset as its file name, size and digest prefix.
pub open spec fn asset_triples(a: Seq<AssetInfo>) -> Seq<(Seq<char>, Option<u64>, Option<Seq<char>>)> {
    a.map_values(|x: AssetInfo| (x.file@, x.size_bytes, opt_str(x.sha256_prefix)))
}

/// The images of the walked entries, sorted by file name: they are the images of some
/// stable sort of the entries by file name.
pub open spec fn assets_of(assets: Seq<AssetInfo>, entries: Seq<WalkEntry>) -> bool {
    exists|s: Seq<WalkEntry>, q: Seq<int>|
        #![trigger stable_image(s, entries, q)]
        sorted_by_key(s) && s.to_multiset() == entries.to_multiset() && stable_image(s, entries, q)
            && (forall|i: int, j: int|
            0 <= i < j < s.len() && s[i].key() == s[j].key() ==> #[trigger] q[i] < #[trigger] q[j])
            && asset_triples(assets) == image_triples(s)
}

/// Where the theme's script stands: its name taken from the theme's directory.
pub open spec fn script_path(t: ActiveTheme) -> Option<Seq<char>> {
    match t.script_file {
        Some(sf) => Some(
            join(
                match t.theme_dir {
                    Some(d) => d@,
                    None => seq![],
                },
                sf@,
            ),
        ),
        None => None,
    }
}

/// The active theme `r` is `base` completed with what was found: the plugin library (see
/// [`so_pick`]), the images among the walked entries (see [`assets_of`]), and the
/// script's details when the theme names a script and it exists (`script` was found at
/// [`script_path`]). A theme that was not found stays as it is.
pub open spec fn finished(
    r: ActiveTheme,
    base: ActiveTheme,
    first: Option<SoProbe>,
    second: Option<SoProbe>,
    entries: Seq<WalkEntry>,
    script: FileProbe,
) -> bool {
    &&& !base.found ==> r == base
    &&& base.found ==> {
        &&& r.name == base.name
        &&& r.found
        &&& r.theme_dir == base.theme_dir
        &&& r.plymouth_file == base.plymouth_file
        &&& r.plymouth_file_content == base.plymouth_file_content
        &&& r.plugin == base.plugin
        &&& r.script_file == base.script_file
        &&& r.image_dir == base.image_dir
        &&& r.extra_sections == base.extra_sections
        &&& match so_pick(base.plugin, first, second) {
            None => r.plugin_so == base.plugin_so,
            Some((path, x)) => {
                &&& opt_str(r.plugin_so.path) == Some(path)
                &&& r.plugin_so.size_bytes == x.size_bytes
                &&& r.plugin_so.ldd matches Some(l) && strs(l@) == lines(x.ldd_output@)
            },
        }
        &&& assets_of(r.assets@, entries)
        &&& r.script_file_detail is Some == (script_path(base) is Some && script.exists)
        &&& r.script_file_detail matches Some(d) ==> {
            &&& Some(d.path@) == script_path(base)
            &&& d.exists
            &&& d.size_bytes == script.size_bytes
            &&& opt_str(d.sha256) == digest_text(script.content, false)
        }
    }
}

/// The images among the walked entries, sorted by file name.
fn collect_assets(entries: Vec<WalkEntry>) -> (r: Vec<AssetInfo>)
    ensures
        assets_of(r@, entries@),
{
    let ghost given = entries@;
    let sorted = sort_by_key(entries);
    let ghost sv = sorted@;
    let ghost q = choose|q: Seq<int>|
        stable_image(sv, given, q) && forall|i: int, j: int|
            0 <= i < j < sv.len() && sv[i].key() == sv[j].key() ==> #[trigger] q[i] < #[trigger] q[j];
    let mut rest = sorted;
    let mut assets: Vec<AssetInfo> = Vec::new();
    let ghost mut done: int = 0;
    assert(sv.skip(0) =~= sv);
    while rest.len() > 0
        invariant
            0 <= done <= sv.len(),
            rest@ == sv.skip(done),
            asset_triples(assets@) == image_triples(sv.take(done)),
        decreases rest@.len(),
    {
        let e = rest.remove(0);
        proof {
            assert(sv[done] == e);
            assert(sv.take(done + 1).drop_last() =~= sv.take(done));
            assert(sv.take(done + 1).last() == e);
            assert(rest@ =~= sv.skip(done + 1));
        }
        let ghost before = asset_triples(assets@);
        if e.is_file && is_image_asset(e.path.as_str()) {
            let a = asset_info(e.file_name, e.size_bytes, e.content);
            assets.push(a);
            assert(asset_triples(assets@) =~= before.push((e.file_name@, e.size_bytes, digest_text(e.content, true))));
        }
        proof {
            done = done + 1;
        }
    }
    assert(sv.take(done) =~= sv);
    assert(stable_image(sv, given, q));
    assets
}

/// The active theme completed with what was found once its description was read: the
/// candidate plugin libraries that exist (in the order of [`plugin_so_candidates`]), the
/// entries of the theme's directory, and what was found at the script's path.
pub fn finish_active_theme(
    base: ActiveTheme,
    first: Option<SoProbe>,
    second: Option<SoProbe>,
    entries: Vec<WalkEntry>,
    script: FileProbe,
) -> (r: ActiveTheme)
    ensures
        finished(r, base, first, second, entries@, script),
{
    if !base.found {
        return base;
    }
    let ghost b = base;
    let ghost pick = so_pick(base.plugin, first, second);
    let script_at: Option<String> = match &base.script_file {
        Some(sf) => {
            let dir = match &base.theme_dir {
                Some(d) => d.as_str(),
                None => "",
            };
            proof {
                reveal_strlit("");
            }
            Some(theme_resource_path(dir, sf.as_str()))
        },
        None => None,
    };
    let ActiveTheme {
        name,
        found,
        theme_dir,
        plymouth_file,
        plymouth_file_content,
        plugin,
        script_file,
        image_dir,
        extra_sections,
        plugin_so: unknown_so,
        assets: _,
        script_file_detail: _,
    } = base;
    let so = match &plugin {
        None => unknown_so,
        Some(p) => {
            let mut cands = plugin_so_candidates(p.as_str());
            let ghost c0 = strs(cands@);
            assert(c0.len() == 2);
            assert(cands@.len() == 2);
            assert(c0[0] == cands@[0]@ && c0[1] == cands@[1]@);
            match first {
                Some(x) => {
                    let path = cands.remove(0);
                    assert(path@ == c0[0]);
                    plugin_so(path, x.size_bytes, x.ldd_output.as_str())
                },
                None => match second {
                    Some(x) => {
                        let path = cands.remove(1);
                        assert(path@ == c0[1]);
                        plugin_so(path, x.size_bytes, x.ldd_output.as_str())
                    },
                    None => unknown_so,
                },
            }
        },
    };
    let detail = match script_at {
        Some(sp) => {
            if script.exists {
                Some(script_file_detail(sp, script.size_bytes, script.content))
            } else {
                None
            }
        },
        None => None,
    };
    let assets = collect_assets(entries);
    ActiveTheme {
        name,
        found,
        theme_dir,
        plymouth_file,
        plymouth_file_content,
        plugin,
        script_file,
        image_dir,
        extra_sections,
        plugin_so: so,
        assets,
        script_file_detail: detail,
    }
}

/// What was found for the active theme: the text of each candidate `.plymouth` file that
/// exists (see [`active_theme_candidates`]), then, for the theme described there, the
/// candidate plugin libraries that exist, the entries of its directory, and what was
/// found at its script's path.
pub struct ActiveThemeProbe {
    pub share: Option<String>,
    pub local: Option<String>,
    pub so_first: Option<SoProbe>,
    pub so_second: Option<SoProbe>,
    pub entries: Vec<WalkEntry>,
    pub script: FileProbe,
}

/// The active-theme section for the theme `name`, from what was found for it.
pub open spec fn active_theme_of(r: ActiveTheme, name: Seq<char>, p: ActiveThemeProbe) -> bool {
    exists|base: ActiveTheme|
        #![trigger active_base(base, name, chosen_candidate(name, p.share, p.local))]
        active_base(base, name, chosen_candidate(name, p.share, p.local)) && finished(
            r,
            base,
            p.so_first,
            p.so_second,
            p.entries@,
            p.script,
        )
}

/// The active-theme section for the theme `name`, from what was found for it.
pub fn active_theme_section(name: &str, p: ActiveThemeProbe) -> (r: ActiveTheme)
    ensures
        active_theme_of(r, name@, p),
{
    let ghost pv = p;
    let ActiveThemeProbe { share, local, so_first, so_second, entries, script } = p;
    let base = collect_active_detail(name, share, local);
    let ghost b = base;
    let r = finish_active_theme(base, so_first, so_second, entries, script);
    assert(active_base(b, name@, chosen_candidate(name@, pv.share, pv.local)));
    r
}

/// Where a file named in a theme's description stands: relative names are taken from
/// the theme's directory.
pub fn theme_resource_path(dir: &str, name: &str) -> (r: String)
    ensures
        r@ == join(dir@, name@),
{
    let d = to_chars(dir);
    let n = to_chars(name);
    let j = path_join(d.as_slice(), n.as_slice());
    from_chars(j.as_slice())
}


/// The directories searched for installed themes, in order.
pub fn theme_search_roots() -> (r: Vec<String>)
    ensures
        strs(r@) == seq![
            "/usr/share/plymouth/themes"@,
            "/usr/local/share/plymouth/themes"@,
            "/opt/plymouth/themes"@,
        ],
{
    let mut r: Vec<String> = Vec::new();
    r.push(crate::text::string_of("/usr/share/plymouth/themes"));
    r.push(crate::text::string_of("/usr/local/share/plymouth/themes"));
    r.push(crate::text::string_of("/opt/plymouth/themes"));
    assert(strs(r@) =~= seq![
        "/usr/share/plymouth/themes"@,
        "/usr/local/share/plymouth/themes"@,
        "/opt/plymouth/themes"@,
    ]);
    r
}

/// The `.plymouth` file a theme directory is expected to hold: `<dir>/<name>.plymouth`.
pub fn theme_plymouth_file(dir: &str, name: &str) -> (r: String)
    ensures
        r@ == join(dir@, name@ + ".plymouth"@),
{
    let d = to_chars(dir);
    let mut f = to_chars(name);
    crate::text::append_str(&mut f, ".plymouth");
    let j = path_join(d.as_slice(), f.as_slice());
    from_chars(j.as_slice())
}

/// Whether `path` names a theme description file (extension `plymouth`).
pub fn is_plymouth_file(path: &str) -> (r: bool)
    ensures
        r == (extension(path@) == Some("plymouth"@)),
{
    let p = to_chars(path);
    match path_extension(p.as_slice()) {
        None => false,
        Some(e) => eq_str(e.as_slice(), "plymouth"),
    }
}

/// An installed theme: its directory `dir` named `name`, and its `.plymouth` file (path
/// and trimmed text) when one was found. It is active when its name is `active_name`;
/// whether it is in the initramfs is known when the initramfs listing is not empty,
/// and then means that the listing mentions the name.
pub fn available_theme(
    name: &str,
    dir: String,
    file: Option<(String, String)>,
    active_name: &str,
    initramfs_contents: &str,
) -> (r: AvailableTheme)
    ensures
        r.dir@ == dir@,
        r.is_active == (name@ == active_name@),
        initramfs_contents@.len() == 0 ==> r.in_initramfs is None,
        initramfs_contents@.len() > 0 ==> r.in_initramfs == Some(
            contains(initramfs_contents@, name@),
        ),
        r.missing_files is None,
        file is None ==> {
            &&& r.plymouth_file is None
            &&& r.name is None
            &&& r.description is None
            &&& r.plugin is None
            &&& r.script_file is None
            &&& r.image_dir is None
            &&& r.extra_sections@ == Map::<Seq<char>, Map<Seq<char>, Seq<char>>>::empty()
            &&& opt_str(r.error) == Some("no .plymouth file found"@)
        },
        file matches Some(f) ==> {
            &&& opt_str(r.plymouth_file) == Some(f.0@)
            &&& opt_str(r.name) == theme_value(f.1@, "Name"@)
            &&& opt_str(r.description) == theme_value(f.1@, "Description"@)
            &&& opt_str(r.plugin) == theme_value(f.1@, "ModuleName"@)
            &&& opt_str(r.script_file) == theme_value(f.1@, "ScriptFile"@)
            &&& opt_str(r.image_dir) == theme_value(f.1@, "ImageDir"@)
            &&& r.extra_sections@ == ini(f.1@).remove("Plymouth Theme"@)
            &&& r.error is None
        },
{
    let n = to_chars(name);
    let is_active = eq_str(n.as_slice(), active_name);
    let listing = to_chars(initramfs_contents);
    let in_initramfs = if listing.len() == 0 {
        None
    } else {
        Some(contains_chars(listing.as_slice(), n.as_slice()))
    };
    match file {
        None => {
            let empty_sections: StrMap<StrMap<String>> = StrMap::new();
            proof {
                StrMap::<StrMap<String>>::lemma_view_empty(empty_sections);
            }
            AvailableTheme {
                dir,
                plymouth_file: None,
                is_active,
                in_initramfs,
                name: None,
                description: None,
                plugin: None,
                script_file: None,
                image_dir: None,
                extra_sections: empty_sections,
                missing_files: None,
                error: Some(crate::text::string_of("no .plymouth file found")),
            }
        },
        Some((path, content)) => {
            let mut ini = parse_ini(content.as_str());
            let ts = take_theme_section(&mut ini);
            let tname = ini_field(&ts, "Name");
            let description = ini_field(&ts, "Description");
            let plugin = ini_field(&ts, "ModuleName");
            let script_file = ini_field(&ts, "ScriptFile");
            let image_dir = ini_field(&ts, "ImageDir");
            AvailableTheme {
                dir,
                plymouth_file: Some(path),
                is_active,
                in_initramfs,
                name: tname,
                description,
                plugin,
                script_file,
                image_dir,
                extra_sections: ini,
                missing_files: None,
                error: None,
            }
        },
    }
}

/// The characters of each string of an optional list.
pub open spec fn opt_strs(o: Option<Vec<String>>) -> Option<Seq<Seq<char>>> {
    match o {
        Some(v) => Some(strs(v@)),
        None => None,
    }
}

/// The notes on the files that `theme` names but that are missing (see
/// [`missing_files`]); none when nothing is missing.
pub open spec fn missing_notes(theme: AvailableTheme, script_exists: bool, image_exists: bool) -> Option<
    Seq<Seq<char>>,
> {
    let script_note: Seq<Seq<char>> = match theme.script_file {
        Some(sf) => if !script_exists {
            seq!["ScriptFile: "@ + join(theme.dir@, sf@)]
        } else {
            seq![]
        },
        None => seq![],
    };
    let image_note: Seq<Seq<char>> = match theme.image_dir {
        Some(d) => if !image_exists {
            seq!["ImageDir: "@ + join(theme.dir@, d@)]
        } else {
            seq![]
        },
        None => seq![],
    };
    let notes = script_note + image_note;
    if notes.len() == 0 {
        None
    } else {
        Some(notes)
    }
}

/// The notes on the files that a theme names but that are missing: for a script
/// file and then for an image directory that the theme names and that does not exist,
/// `ScriptFile: <path>` and `ImageDir: <path>`, each path taken from the theme's
/// directory; none when nothing is missing.
pub fn missing_files(theme: &AvailableTheme, script_exists: bool, image_exists: bool) -> (r: Option<
    Vec<String>,
>)
    ensures
        opt_strs(r) == missing_notes(*theme, script_exists, image_exists),
{
    let mut notes: Vec<String> = Vec::new();
    let ghost mut script_note: Seq<Seq<char>> = seq![];
    match &theme.script_file {
        Some(sf) => {
            if !script_exists {
                let mut m = to_chars("ScriptFile: ");
                let p = to_chars(theme_resource_path(theme.dir.as_str(), sf.as_str()).as_str());
                crate::text::append_chars(&mut m, p.as_slice());
                notes.push(from_chars(m.as_slice()));
                proof {
                    script_note = seq![m@];
                }
            }
        },
        None => {},
    }
    assert(strs(notes@) =~= script_note);
    let ghost mut image_note: Seq<Seq<char>> = seq![];
    match &theme.image_dir {
        Some(d) => {
            if !image_exists {
                let mut m = to_chars("ImageDir: ");
                let p = to_chars(theme_resource_path(theme.dir.as_str(), d.as_str()).as_str());
                crate::text::append_chars(&mut m, p.as_slice());
                let ghost before = strs(notes@);
                notes.push(from_chars(m.as_slice()));
                proof {
                    image_note = seq![m@];
                    assert(strs(notes@) =~= before + image_note);
                }
            }
        },
        None => {},
    }
    assert(strs(notes@) =~= script_note + image_note);
    if notes.len() == 0 {
        None
    } else {
        Some(notes)
    }
}

/// An entry of a theme's directory: its path, whether something exists there, and its
/// (trimmed) text when it is an existing `.plymouth` file.
pub struct EntryProbe {
    pub path: String,
    pub exists: bool,
    pub content: String,
}

/// An entry of a theme root, in the order the roots are searched (see
/// [`theme_search_roots`]) and the entries listed: the root, the entry's name, whether it
/// is a directory, the text of `<name>.plymouth` inside it when that exists, the entries
/// inside it, and whether the script file and image directory that its description names
/// exist.
pub struct InstalledThemeProbe {
    pub root: String,
    pub name: String,
    pub is_dir: bool,
    pub primary: Option<String>,
    pub entries: Vec<EntryProbe>,
    pub script_exists: bool,
    pub image_exists: bool,
}

/// The first entry whose path has the extension `plymouth`.
pub open spec fn first_plymouth_entry(es: Seq<EntryProbe>) -> Option<EntryProbe>
    decreases es.len(),
{
    if es.len() == 0 {
        None
    } else if extension(es[0].path@) == Some("plymouth"@) {
        Some(es[0])
    } else {
        first_plymouth_entry(es.drop_first())
    }
}

/// The description file of an installed theme, with its text: `<name>.plymouth` in its
/// directory when that exists, else the first `.plymouth` entry of the directory when
/// that exists; none otherwise.
pub open spec fn chosen_file(p: InstalledThemeProbe) -> Option<(Seq<char>, Seq<char>)> {
    match p.primary {
        Some(c) => Some((candidate_file(p.root@, p.name@), c@)),
        None => match first_plymouth_entry(p.entries@) {
            Some(e) => if e.exists {
                Some((e.path@, e.content@))
            } else {
                None
            },
            None => None,
        },
    }
}

/// What the installed theme `t` is for the entry `p`: its directory is the entry's
/// path, it is active exactly when its name is `active`, it is in the initramfs when
/// the (non-empty) listing mentions its name, and the rest comes from its description
/// file (see [`chosen_file`]), with the notes on missing files; without a file it only
/// says so.
pub open spec fn installed_entry(t: AvailableTheme, p: InstalledThemeProbe, active: Seq<char>, listing: Seq<char>) -> bool {
    &&& t.dir@ == join(p.root@, p.name@)
    &&& t.is_active == (p.name@ == active)
    &&& t.in_initramfs == (if listing.len() == 0 {
        None
    } else {
        Some(contains(listing, p.name@))
    })
    &&& match chosen_file(p) {
        None => {
            &&& t.plymouth_file is None
            &&& t.name is None
            &&& t.description is None
            &&& t.plugin is None
            &&& t.script_file is None
            &&& t.image_dir is None
            &&& t.extra_sections@ == Map::<Seq<char>, Map<Seq<char>, Seq<char>>>::empty()
            &&& t.missing_files is None
            &&& opt_str(t.error) == Some("no .plymouth file found"@)
        },
        Some((path, content)) => {
            &&& opt_str(t.plymouth_file) == Some(path)
            &&& opt_str(t.name) == theme_value(content, "Name"@)
            &&& opt_str(t.description) == theme_value(content, "Description"@)
            &&& opt_str(t.plugin) == theme_value(content, "ModuleName"@)
            &&& opt_str(t.script_file) == theme_value(content, "ScriptFile"@)
            &&& opt_str(t.image_dir) == theme_value(content, "ImageDir"@)
            &&& t.extra_sections@ == ini(content).remove("Plymouth Theme"@)
            &&& opt_strs(t.missing_files) == missing_notes(t, p.script_exists, p.image_exists)
            &&& t.error is None
        },
    }
}

/// Where the first `.plymouth` entry stands, if any.
fn first_plymouth(es: &Vec<EntryProbe>) -> (r: Option<usize>)
    ensures
        match r {
            Some(i) => i < es@.len() && first_plymouth_entry(es@) == Some(es@[i as int]),
            None => first_plymouth_entry(es@) is None,
        },
{
    let mut i: usize = 0;
    assert(es@.skip(0) =~= es@);
    while i < es.len()
        invariant
            i <= es@.len(),
            first_plymouth_entry(es@) == first_plymouth_entry(es@.skip(i as int)),
        decreases es@.len() - i,
    {
        assert(es@.skip(i as int)[0] == es@[i as int]);
        assert(es@.skip(i as int).drop_first() =~= es@.skip(i + 1));
        if is_plymouth_file(es[i].path.as_str()) {
            return Some(i);
        }
        i = i + 1;
    }
    None
}

/// The installed theme of an entry of a theme root that is a directory.
pub fn installed_theme(p: &InstalledThemeProbe, active_name: &str, listing: &str) -> (r: AvailableTheme)
    ensures
        installed_entry(r, *p, active_name@, listing@),
{
    let dir = theme_resource_path(p.root.as_str(), p.name.as_str());
    let file: Option<(String, String)> = match &p.primary {
        Some(c) => Some((theme_plymouth_file(dir.as_str(), p.name.as_str()), string_of(c.as_str()))),
        None => match first_plymouth(&p.entries) {
            Some(i) => {
                if p.entries[i].exists {
                    Some((string_of(p.entries[i].path.as_str()), string_of(p.entries[i].content.as_str())))
                } else {
                    None
                }
            },
            None => None,
        },
    };
    let has_file = file.is_some();
    let mut t = available_theme(p.name.as_str(), dir, file, active_name, listing);
    if has_file {
        t.missing_files = missing_files(&t, p.script_exists, p.image_exists);
    }
    t
}

/// The last entry of the theme roots that is a directory named `k`.
pub open spec fn last_dir_named(ps: Seq<InstalledThemeProbe>, k: Seq<char>) -> Option<InstalledThemeProbe>
    decreases ps.len(),
{
    if ps.len() == 0 {
        None
    } else if ps.last().is_dir && ps.last().name@ == k {
        Some(ps.last())
    } else {
        last_dir_named(ps.drop_last(), k)
    }
}

/// The installed themes by name: for every entry of the theme roots that is a
/// directory, the theme described there (see [`installed_entry`]); an entry found later
/// under a name already seen replaces the earlier one.
pub fn scan_all(found: Vec<InstalledThemeProbe>, active_name: &str, initramfs_contents: &str) -> (r: StrMap<
    AvailableTheme,
>)
    ensures
        forall|k: Seq<char>|
            #![trigger r.spec_get(k)]
            match r.spec_get(k) {
                None => last_dir_named(found@, k) is None,
                Some(t) => last_dir_named(found@, k) matches Some(p) && installed_entry(
                    t,
                    p,
                    active_name@,
                    initramfs_contents@,
                ),
            },
{
    let mut m: StrMap<AvailableTheme> = StrMap::new();
    let ghost orig = found@;
    let mut rest = found;
    let ghost mut done: int = 0;
    while rest.len() > 0
        invariant
            0 <= done <= orig.len(),
            rest@ == orig.skip(done),
            forall|k: Seq<char>|
                #![trigger m.spec_get(k)]
                match m.spec_get(k) {
                    None => last_dir_named(orig.take(done), k) is None,
                    Some(t) => last_dir_named(orig.take(done), k) matches Some(p) && installed_entry(
                        t,
                        p,
                        active_name@,
                        initramfs_contents@,
                    ),
                },
        decreases rest@.len(),
    {
        let x = rest.remove(0);
        proof {
            assert(orig[done] == x);
            assert(orig.take(done + 1).drop_last() =~= orig.take(done));
            assert(orig.take(done + 1).last() == x);
            assert(rest@ =~= orig.skip(done + 1));
        }
        if x.is_dir {
            let t = installed_theme(&x, active_name, initramfs_contents);
            let ghost before = m;
            m.insert(string_of(x.name.as_str()), t);
            proof {
                assert forall|k: Seq<char>| #![trigger m.spec_get(k)] match m.spec_get(k) {
                    None => last_dir_named(orig.take(done + 1), k) is None,
                    Some(t) => last_dir_named(orig.take(done + 1), k) matches Some(p) && installed_entry(
                        t,
                        p,
                        active_name@,
                        initramfs_contents@,
                    ),
                } by {
                    if k != x.name@ {
                        assert(m.spec_get(k) == before.spec_get(k));
                    }
                }
            }
        } else {
            proof {
                assert forall|k: Seq<char>| #![trigger m.spec_get(k)] match m.spec_get(k) {
                    None => last_dir_named(orig.take(done + 1), k) is None,
                    Some(t) => last_dir_named(orig.take(done + 1), k) matches Some(p) && installed_entry(
                        t,
                        p,
                        active_name@,
                        initramfs_contents@,
                    ),
                } by {
                    assert(last_dir_named(orig.take(done + 1), k) == last_dir_named(orig.take(done), k));
                }
            }
        }
        proof {
            done = done + 1;
        }
    }
    assert(orig.take(done) =~= orig);
    m
}

} // verus!

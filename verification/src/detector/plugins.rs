//! The splash plugins and renderers installed under `/usr/lib/*/plymouth/`.
use vstd::prelude::*;
use crate::model::{Plugin, PluginView, Renderer, RendererView};
use crate::path::{file_stem, path_file_stem};
use crate::strmap::StrMap;
use crate::text::{
    append_str, copy_chars, ends_with, from_chars, has_suffix, lines, lines_of, string_of, strings_of,
    to_chars,
};

verus! {

/// What each known plugin does, by plugin name.
pub open spec fn plugin_description_map() -> Map<Seq<char>, Seq<char>> {
    Map::empty().insert("details"@, "Diagnostic – displays raw boot messages"@).insert(
        "script"@,
        "Scriptable – drives .script/.lua animations (most flexible)"@,
    ).insert("text"@, "Text – simple TTY progress bar"@).insert(
        "tribar"@,
        "Tricolor progress bar"@,
    ).insert("two-step"@, "Two-phase: static logo then animated throbber"@).insert(
        "label"@,
        "Label rendering (required by spinner/two-step)"@,
    ).insert("label-pango"@, "Pango-based label (Ubuntu/Mint default)"@).insert(
        "ubuntu-text"@,
        "Ubuntu text mode plugin"@,
    )
}

/// What each known renderer does, by renderer name.
pub open spec fn renderer_description_map() -> Map<Seq<char>, Seq<char>> {
    Map::empty().insert("drm"@, "Preferred – DRM/KMS (/dev/dri/card0)"@).insert(
        "frame-buffer"@,
        "Fallback – /dev/fb0 directly"@,
    ).insert("x11"@, "X11 test renderer (development only)"@)
}

/// Stores `v` under `k`.
fn insert_text(map: &mut StrMap<String>, k: &str, v: &str)
    ensures
        final(map)@ == old(map)@.insert(k@, v@),
{
    let ks = string_of(k);
    let vs = string_of(v);
    let ghost before = *map;
    let ghost kk = ks@;
    let ghost vv = vs@;
    map.insert(ks, vs);
    proof {
        StrMap::<String>::lemma_view_insert(before, *map, kk, vv);
    }
}

/// What each known plugin does, by plugin name.
pub fn get_plugin_descriptions() -> (r: StrMap<String>)
    ensures
        r@ == plugin_description_map(),
{
    let mut m: StrMap<String> = StrMap::new();
    proof {
        StrMap::<String>::lemma_view_empty(m);
    }
    insert_text(&mut m, "details", "Diagnostic – displays raw boot messages");
    insert_text(&mut m, "script", "Scriptable – drives .script/.lua animations (most flexible)");
    insert_text(&mut m, "text", "Text – simple TTY progress bar");
    insert_text(&mut m, "tribar", "Tricolor progress bar");
    insert_text(&mut m, "two-step", "Two-phase: static logo then animated throbber");
    insert_text(&mut m, "label", "Label rendering (required by spinner/two-step)");
    insert_text(&mut m, "label-pango", "Pango-based label (Ubuntu/Mint default)");
    insert_text(&mut m, "ubuntu-text", "Ubuntu text mode plugin");
    m
}

/// What each known renderer does, by renderer name.
pub fn get_renderer_descriptions() -> (r: StrMap<String>)
    ensures
        r@ == renderer_description_map(),
{
    let mut m: StrMap<String> = StrMap::new();
    proof {
        StrMap::<String>::lemma_view_empty(m);
    }
    insert_text(&mut m, "drm", "Preferred – DRM/KMS (/dev/dri/card0)");
    insert_text(&mut m, "frame-buffer", "Fallback – /dev/fb0 directly");
    insert_text(&mut m, "x11", "X11 test renderer (development only)");
    m
}

/// The directories searched for plugins, as a glob pattern.
pub fn plugin_dir_pattern() -> (r: String)
    ensures
        r@ == "/usr/lib/*/plymouth/"@,
{
    string_of("/usr/lib/*/plymouth/")
}

/// The directories searched for renderers, as a glob pattern.
pub fn renderer_dir_pattern() -> (r: String)
    ensures
        r@ == "/usr/lib/*/plymouth/renderers/"@,
{
    string_of("/usr/lib/*/plymouth/renderers/")
}

/// The glob pattern of the shared objects in directory `dir`.
pub open spec fn so_pattern_of(dir: Seq<char>) -> Seq<char> {
    if ends_with(dir, "/"@) {
        dir + "*.so"@
    } else {
        dir + "/*.so"@
    }
}

/// The glob pattern of the shared objects in directory `dir`.
pub fn so_pattern(dir: &str) -> (r: String)
    ensures
        r@ == so_pattern_of(dir@),
{
    let mut v = to_chars(dir);
    let slash = to_chars("/");
    if has_suffix(v.as_slice(), slash.as_slice()) {
        append_str(&mut v, "*.so");
    } else {
        append_str(&mut v, "/*.so");
    }
    from_chars(v.as_slice())
}

/// A shared object found by the plugin search, in the order the search found them:
/// its path, its size when it could be read, and the output of `ldd` on it.
pub struct PluginFile {
    pub path: String,
    pub size_bytes: Option<u64>,
    pub ldd_output: String,
}

/// A shared object found by the renderer search: its path and its size when it could be
/// read.
pub struct RendererFile {
    pub path: String,
    pub size_bytes: Option<u64>,
}

/// The description of the module `name`: the known one, or `name` followed by `suffix`.
pub open spec fn described(descs: Map<Seq<char>, Seq<char>>, name: Seq<char>, suffix: Seq<char>) -> Seq<
    char,
> {
    if descs.contains_key(name) {
        descs[name]
    } else {
        name + suffix
    }
}

/// The description of the module `name`.
fn describe(descs: &StrMap<String>, name: &[char], suffix: &str) -> (r: String)
    ensures
        r@ == described(descs@, name@, suffix@),
{
    proof {
        descs.lemma_view();
    }
    match descs.get_chars(name) {
        Some(d) => string_of(d.as_str()),
        None => {
            let mut v = copy_chars(name);
            append_str(&mut v, suffix);
            from_chars(v.as_slice())
        },
    }
}

/// What one shared object adds to the plugins: a plugin named by its file stem, unless
/// one of that name was found before.
pub open spec fn plugin_step(m: Map<Seq<char>, PluginView>, f: PluginFile) -> Map<Seq<char>, PluginView> {
    let name = file_stem(f.path@)->0;
    if m.contains_key(name) {
        m
    } else {
        m.insert(
            name,
            PluginView {
                so_path: f.path@,
                size_bytes: f.size_bytes,
                description: described(plugin_description_map(), name, " plugin"@),
                ldd: Some(lines(f.ldd_output@)),
            },
        )
    }
}

/// The plugins made of the shared objects found, the first of each name winning.
pub open spec fn plugins_of(files: Seq<PluginFile>) -> Map<Seq<char>, PluginView> {
    files.fold_left(Map::empty(), |m: Map<Seq<char>, PluginView>, f: PluginFile| plugin_step(m, f))
}

/// The plugins made of the shared objects found under the plugin directories, in the
/// order in which they were found.
pub fn collect_plugins(files: &Vec<PluginFile>) -> (r: StrMap<Plugin>)
    requires
        forall|i: int| 0 <= i < files@.len() ==> #[trigger] file_stem(files@[i].path@) is Some,
    ensures
        r@ == plugins_of(files@),
{
    let descs = get_plugin_descriptions();
    let mut m: StrMap<Plugin> = StrMap::new();
    proof {
        StrMap::<Plugin>::lemma_view_empty(m);
    }
    let mut i: usize = 0;
    while i < files.len()
        invariant
            i <= files@.len(),
            descs@ == plugin_description_map(),
            forall|i: int| 0 <= i < files@.len() ==> #[trigger] file_stem(files@[i].path@) is Some,
            m@ == files@.take(i as int).fold_left(
                Map::empty(),
                |m: Map<Seq<char>, PluginView>, f: PluginFile| plugin_step(m, f),
            ),
        decreases files@.len() - i,
    {
        assert(files@.take(i + 1).drop_last() =~= files@.take(i as int));
        let f = &files[i];
        let pc = to_chars(f.path.as_str());
        assert(file_stem(f.path@) is Some);
        let name = match path_file_stem(pc.as_slice()) {
            Some(n) => n,
            None => Vec::new(),
        };
        proof {
            m.lemma_view();
        }
        if m.get_chars(name.as_slice()).is_none() {
            let lo = lines_of(f.ldd_output.as_str());
            let plugin = Plugin {
                so_path: string_of(f.path.as_str()),
                size_bytes: f.size_bytes,
                description: describe(&descs, name.as_slice(), " plugin"),
                ldd: Some(strings_of(&lo)),
            };
            let ks = from_chars(name.as_slice());
            let ghost before = m;
            let ghost kk = ks@;
            let ghost pv = plugin@;
            m.insert(ks, plugin);
            proof {
                StrMap::<Plugin>::lemma_view_insert(before, m, kk, pv);
            }
        }
        i = i + 1;
    }
    assert(files@.take(i as int) =~= files@);
    m
}

/// What one shared object adds to the renderers: a renderer named by its file stem,
/// unless one of that name was found before.
pub open spec fn renderer_step(m: Map<Seq<char>, RendererView>, f: RendererFile) -> Map<
    Seq<char>,
    RendererView,
> {
    let name = file_stem(f.path@)->0;
    if m.contains_key(name) {
        m
    } else {
        m.insert(
            name,
            RendererView {
                so_path: f.path@,
                size_bytes: f.size_bytes,
                description: described(renderer_description_map(), name, " renderer"@),
            },
        )
    }
}

/// The renderers made of the shared objects found, the first of each name winning.
pub open spec fn renderers_of(files: Seq<RendererFile>) -> Map<Seq<char>, RendererView> {
    files.fold_left(
        Map::empty(),
        |m: Map<Seq<char>, RendererView>, f: RendererFile| renderer_step(m, f),
    )
}

/// The renderers made of the shared objects found under the renderer directories, in
/// the order in which they were found.
pub fn collect_renderers(files: &Vec<RendererFile>) -> (r: StrMap<Renderer>)
    requires
        forall|i: int| 0 <= i < files@.len() ==> #[trigger] file_stem(files@[i].path@) is Some,
    ensures
        r@ == renderers_of(files@),
{
    let descs = get_renderer_descriptions();
    let mut m: StrMap<Renderer> = StrMap::new();
    proof {
        StrMap::<Renderer>::lemma_view_empty(m);
    }
    let mut i: usize = 0;
    while i < files.len()
        invariant
            i <= files@.len(),
            descs@ == renderer_description_map(),
            forall|i: int| 0 <= i < files@.len() ==> #[trigger] file_stem(files@[i].path@) is Some,
            m@ == files@.take(i as int).fold_left(
                Map::empty(),
                |m: Map<Seq<char>, RendererView>, f: RendererFile| renderer_step(m, f),
            ),
        decreases files@.len() - i,
    {
        assert(files@.take(i + 1).drop_last() =~= files@.take(i as int));
        let f = &files[i];
        let pc = to_chars(f.path.as_str());
        assert(file_stem(f.path@) is Some);
        let name = match path_file_stem(pc.as_slice()) {
            Some(n) => n,
            None => Vec::new(),
        };
        proof {
            m.lemma_view();
        }
        if m.get_chars(name.as_slice()).is_none() {
            let renderer = Renderer {
                so_path: string_of(f.path.as_str()),
                size_bytes: f.size_bytes,
                description: describe(&descs, name.as_slice(), " renderer"),
            };
            let ks = from_chars(name.as_slice());
            let ghost before = m;
            let ghost kk = ks@;
            let ghost rv = renderer@;
            m.insert(ks, renderer);
            proof {
                StrMap::<Renderer>::lemma_view_insert(before, m, kk, rv);
            }
        }
        i = i + 1;
    }
    assert(files@.take(i as int) =~= files@);
    m
}

/// The name a shared object gives its plugin or renderer: its file stem.
pub open spec fn module_name(path: Seq<char>) -> Seq<char> {
    file_stem(path)->0
}

/// The plugin that a shared object yields.
pub open spec fn plugin_from(f: PluginFile) -> PluginView {
    PluginView {
        so_path: f.path@,
        size_bytes: f.size_bytes,
        description: described(plugin_description_map(), module_name(f.path@), " plugin"@),
        ldd: Some(lines(f.ldd_output@)),
    }
}

/// A plugin is known by a name exactly when some shared object has that name, and it is
/// the plugin of the first such object: later objects of the same name are ignored.
pub proof fn lemma_first_found_plugin(files: Seq<PluginFile>, name: Seq<char>)
    ensures
        plugins_of(files).contains_key(name) <==> exists|i: int|
            0 <= i < files.len() && #[trigger] module_name(files[i].path@) == name,
        plugins_of(files).contains_key(name) ==> exists|i: int|
            0 <= i < files.len() && #[trigger] module_name(files[i].path@) == name && (forall|j: int|
                0 <= j < i ==> module_name(#[trigger] files[j].path@) != name) && plugins_of(files)[name]
                == plugin_from(files[i]),
    decreases files.len(),
{
    if files.len() > 0 {
        let p = files.drop_last();
        lemma_first_found_plugin(p, name);
        let last = files.last();
        assert(plugins_of(files) == plugin_step(plugins_of(p), last));
        if plugins_of(p).contains_key(name) {
            let i = choose|i: int|
                0 <= i < p.len() && #[trigger] module_name(p[i].path@) == name && (forall|j: int|
                    0 <= j < i ==> module_name(#[trigger] p[j].path@) != name) && plugins_of(p)[name]
                    == plugin_from(p[i]);
            assert(files[i] == p[i]);
            assert forall|j: int| 0 <= j < i implies module_name(#[trigger] files[j].path@) != name by {
                assert(files[j] == p[j]);
            }
        } else {
            assert forall|j: int| 0 <= j < p.len() implies module_name(#[trigger] files[j].path@) != name by {
                assert(files[j] == p[j]);
                if module_name(files[j].path@) == name {
                    assert(module_name(p[j].path@) == name);
                }
            }
            if module_name(last.path@) == name {
                assert(files[files.len() - 1] == last);
            }
        }
    }
}

/// The renderer that a shared object yields.
pub open spec fn renderer_from(f: RendererFile) -> RendererView {
    RendererView {
        so_path: f.path@,
        size_bytes: f.size_bytes,
        description: described(renderer_description_map(), module_name(f.path@), " renderer"@),
    }
}

/// A renderer is known by a name exactly when some shared object has that name, and it
/// is the renderer of the first such object.
pub proof fn lemma_first_found_renderer(files: Seq<RendererFile>, name: Seq<char>)
    ensures
        renderers_of(files).contains_key(name) <==> exists|i: int|
            0 <= i < files.len() && #[trigger] module_name(files[i].path@) == name,
        renderers_of(files).contains_key(name) ==> exists|i: int|
            0 <= i < files.len() && #[trigger] module_name(files[i].path@) == name && (forall|j: int|
                0 <= j < i ==> module_name(#[trigger] files[j].path@) != name) && renderers_of(files)[name]
                == renderer_from(files[i]),
    decreases files.len(),
{
    if files.len() > 0 {
        let p = files.drop_last();
        lemma_first_found_renderer(p, name);
        let last = files.last();
        assert(renderers_of(files) == renderer_step(renderers_of(p), last));
        if renderers_of(p).contains_key(name) {
            let i = choose|i: int|
                0 <= i < p.len() && #[trigger] module_name(p[i].path@) == name && (forall|j: int|
                    0 <= j < i ==> module_name(#[trigger] p[j].path@) != name) && renderers_of(p)[name]
                    == renderer_from(p[i]);
            assert(files[i] == p[i]);
            assert forall|j: int| 0 <= j < i implies module_name(#[trigger] files[j].path@) != name by {
                assert(files[j] == p[j]);
            }
        } else {
            assert forall|j: int| 0 <= j < p.len() implies module_name(#[trigger] files[j].path@) != name by {
                assert(files[j] == p[j]);
                if module_name(files[j].path@) == name {
                    assert(module_name(p[j].path@) == name);
                }
            }
            if module_name(last.path@) == name {
                assert(files[files.len() - 1] == last);
            }
        }
    }
}

} // verus!

//! The initial RAM disks: the tools that build them, the images in `/boot`, and what the
//! image of the running kernel holds of Plymouth.
use vstd::prelude::*;
use crate::model::{InitrdAnalysis, InitrdImage, Initramfs, ToolInfo, ToolInfoView};
use crate::order::{sort_by_key, sorted_by_key, stable_image, TextKey};
use crate::strmap::StrMap;
use crate::text::{
    char_vecs, contains, contains_chars, contains_str, keep_lines, lines, lines_of, lowercase,
    string_of, strings_of, strs, to_chars, to_lowercase, copy_chars,
};

verus! {

/// The tools that build initial RAM disks, in the order in which they are looked for.
pub open spec fn tool_name_list() -> Seq<Seq<char>> {
    seq!["update-initramfs"@, "dracut"@, "mkinitcpio"@]
}

/// The tools that build initial RAM disks, in the order in which they are looked for.
pub fn tool_names() -> (r: Vec<String>)
    ensures
        strs(r@) == tool_name_list(),
{
    let mut r: Vec<String> = Vec::new();
    r.push(string_of("update-initramfs"));
    r.push(string_of("dracut"));
    r.push(string_of("mkinitcpio"));
    assert(strs(r@) =~= tool_name_list());
    r
}

/// What was found of one tool: the output of `which` for it, and the output of the tool's
/// `--version` (asked only when `which` found it).
pub struct ToolProbe {
    pub path: String,
    pub version: String,
}

/// The record of one tool: where it is and its version, both only when `which` found it.
pub open spec fn tool_entry(t: ToolProbe) -> ToolInfoView {
    if t.path@.len() == 0 {
        ToolInfoView { path: None, version: None }
    } else {
        ToolInfoView { path: Some(t.path@), version: Some(t.version@) }
    }
}

/// The record of one tool.
pub fn tool_info(t: ToolProbe) -> (r: ToolInfo)
    ensures
        r@ == tool_entry(t),
{
    if t.path.as_str().unicode_len() == 0 {
        ToolInfo { path: None, version: None }
    } else {
        ToolInfo { path: Some(t.path), version: Some(t.version) }
    }
}

/// Stores under `name` the record of a tool.
fn insert_tool(map: &mut StrMap<ToolInfo>, name: &str, t: ToolProbe)
    ensures
        final(map)@ == old(map)@.insert(name@, tool_entry(t)),
{
    let ghost tv = tool_entry(t);
    let info = tool_info(t);
    let ks = string_of(name);
    let ghost before = *map;
    let ghost kk = ks@;
    map.insert(ks, info);
    proof {
        StrMap::<ToolInfo>::lemma_view_insert(before, *map, kk, tv);
    }
}

/// An image found by `/boot/initrd.img-*`: its path, and its size and modification time
/// when they could be read.
pub struct ImageFile {
    pub path: String,
    pub size_bytes: Option<u64>,
    pub modified: Option<String>,
}

/// The record of an image: it is current when its path contains the running kernel's
/// release.
pub open spec fn image_of(f: ImageFile, kernel: Seq<char>) -> InitrdImage {
    InitrdImage {
        path: f.path,
        size_bytes: f.size_bytes,
        modified: f.modified,
        is_current: contains(f.path@, kernel),
    }
}

/// The records of the images found, in the order found.
pub open spec fn images_of(files: Seq<ImageFile>, kernel: Seq<char>) -> Seq<InitrdImage> {
    files.map_values(|f: ImageFile| image_of(f, kernel))
}

impl TextKey for InitrdImage {
    open spec fn key(&self) -> Seq<char> {
        self.path@
    }

    fn key_chars(&self) -> (r: Vec<char>) {
        to_chars(self.path.as_str())
    }
}

/// The records of the images found, sorted by path (images of the same path keep their
/// order).
pub fn initrd_images(files: Vec<ImageFile>, kernel: &str) -> (r: Vec<InitrdImage>)
    ensures
        sorted_by_key(r@),
        r@.to_multiset() == images_of(files@, kernel@).to_multiset(),
        exists|p: Seq<int>|
            stable_image(r@, images_of(files@, kernel@), p) && forall|
                i: int,
                j: int,
            |
                0 <= i < j < r@.len() && r@[i].key() == r@[j].key() ==> #[trigger] p[i] < #[trigger] p[j],
{
    let kc = to_chars(kernel);
    let ghost all = images_of(files@, kernel@);
    let mut images: Vec<InitrdImage> = Vec::new();
    let mut fs = files;
    let ghost fs0 = fs@;
    while fs.len() > 0
        invariant
            fs@.len() + images@.len() == fs0.len(),
            fs@ == fs0.skip(images@.len() as int),
            kc@ == kernel@,
            all == images_of(fs0, kernel@),
            images@ == all.take(images@.len() as int),
        decreases fs@.len(),
    {
        let ghost k = images@.len();
        let f = fs.remove(0);
        assert(f == fs0[k as int]);
        let pc = to_chars(f.path.as_str());
        let is_current = contains_chars(pc.as_slice(), kc.as_slice());
        images.push(
            InitrdImage { path: f.path, size_bytes: f.size_bytes, modified: f.modified, is_current },
        );
        assert(images@ =~= all.take(images@.len() as int));
        assert(fs@ =~= fs0.skip(images@.len() as int));
    }
    assert(images@ =~= all);
    sort_by_key(images)
}

/// The image of the running kernel.
pub open spec fn initrd_path_of(kernel: Seq<char>) -> Seq<char> {
    "/boot/initrd.img-"@ + kernel
}

/// The image of the running kernel.
pub fn current_initrd_path(kernel: &str) -> (r: String)
    ensures
        r@ == initrd_path_of(kernel@),
{
    let mut v = to_chars("/boot/initrd.img-");
    crate::text::append_str(&mut v, kernel);
    crate::text::from_chars(v.as_slice())
}

/// The directory of the active theme.
pub fn active_theme_dir(theme: &str) -> (r: String)
    ensures
        r@ == "/usr/share/plymouth/themes/"@ + theme@,
{
    let mut v = to_chars("/usr/share/plymouth/themes/");
    crate::text::append_str(&mut v, theme);
    crate::text::from_chars(v.as_slice())
}

/// A file listed in an image that belongs to Plymouth.
pub open spec fn is_plymouth_file(l: Seq<char>) -> bool {
    contains(lowercase(l), "plymouth"@)
}

/// A Plymouth file of the image that belongs to the active theme `theme` (never when no
/// theme is active).
pub open spec fn is_theme_file(l: Seq<char>, theme: Seq<char>) -> bool {
    is_plymouth_file(l) && theme.len() > 0 && contains(l, theme)
}

/// A file of the image that belongs to kernel mode setting.
pub open spec fn is_drm_file(l: Seq<char>) -> bool {
    let low = lowercase(l);
    contains(low, "drm"@) || contains(low, "kms"@) || contains(low, "i915"@) || contains(
        low,
        "amdgpu"@,
    ) || contains(low, "nouveau"@)
}

/// A file of the image that belongs to the boot graphics record.
pub open spec fn is_bgrt_file(l: Seq<char>) -> bool {
    contains(lowercase(l), "bgrt"@)
}

pub open spec fn plymouth_files_of(ls: Seq<Seq<char>>) -> Seq<Seq<char>> {
    keep_lines(ls, |l: Seq<char>| is_plymouth_file(l))
}

pub open spec fn theme_files_of(ls: Seq<Seq<char>>, theme: Seq<char>) -> Seq<Seq<char>> {
    keep_lines(ls, |l: Seq<char>| is_theme_file(l, theme))
}

pub open spec fn drm_files_of(ls: Seq<Seq<char>>) -> Seq<Seq<char>> {
    keep_lines(ls, |l: Seq<char>| is_drm_file(l))
}

pub open spec fn bgrt_files_of(ls: Seq<Seq<char>>) -> Seq<Seq<char>> {
    keep_lines(ls, |l: Seq<char>| is_bgrt_file(l))
}

/// The files listed by `lsinitramfs`, sorted into those of Plymouth, those of the active
/// theme, those of kernel mode setting and those of the boot graphics record.
pub struct ImageListing {
    pub plymouth: Vec<String>,
    pub theme: Vec<String>,
    pub drm: Vec<String>,
    pub bgrt: Vec<String>,
}

/// Sorts the lines of `listing` (the output of `lsinitramfs`) for the active theme
/// `theme`.
pub fn classify_listing(listing: &str, theme: &str) -> (r: ImageListing)
    ensures
        strs(r.plymouth@) == plymouth_files_of(lines(listing@)),
        strs(r.theme@) == theme_files_of(lines(listing@), theme@),
        strs(r.drm@) == drm_files_of(lines(listing@)),
        strs(r.bgrt@) == bgrt_files_of(lines(listing@)),
{
    let tc = to_chars(theme);
    let ls = lines_of(listing);
    let ghost all = char_vecs(ls@);
    let mut pf: Vec<Vec<char>> = Vec::new();
    let mut tf: Vec<Vec<char>> = Vec::new();
    let mut df: Vec<Vec<char>> = Vec::new();
    let mut bf: Vec<Vec<char>> = Vec::new();
    let mut i: usize = 0;
    while i < ls.len()
        invariant
            i <= ls@.len(),
            all == char_vecs(ls@),
            tc@ == theme@,
            char_vecs(pf@) == plymouth_files_of(all.take(i as int)),
            char_vecs(tf@) == theme_files_of(all.take(i as int), theme@),
            char_vecs(df@) == drm_files_of(all.take(i as int)),
            char_vecs(bf@) == bgrt_files_of(all.take(i as int)),
        decreases ls@.len() - i,
    {
        let ghost prev = all.take(i as int);
        assert(all.take(i + 1).drop_last() =~= prev);
        let line = ls[i].as_slice();
        assert(all[i as int] == line@);
        assert(all.take(i + 1).last() == line@);
        let low = to_lowercase(line);
        let ply = contains_str(low.as_slice(), "plymouth");
        if ply {
            let ghost before = char_vecs(pf@);
            pf.push(copy_chars(line));
            assert(char_vecs(pf@) =~= before.push(line@));
            if tc.len() > 0 && contains_chars(line, tc.as_slice()) {
                let ghost before_t = char_vecs(tf@);
                tf.push(copy_chars(line));
                assert(char_vecs(tf@) =~= before_t.push(line@));
            }
        }
        let drm = contains_str(low.as_slice(), "drm") || contains_str(low.as_slice(), "kms")
            || contains_str(low.as_slice(), "i915") || contains_str(low.as_slice(), "amdgpu")
            || contains_str(low.as_slice(), "nouveau");
        if drm {
            let ghost before_d = char_vecs(df@);
            df.push(copy_chars(line));
            assert(char_vecs(df@) =~= before_d.push(line@));
        }
        if contains_str(low.as_slice(), "bgrt") {
            let ghost before_b = char_vecs(bf@);
            bf.push(copy_chars(line));
            assert(char_vecs(bf@) =~= before_b.push(line@));
        }
        i = i + 1;
    }
    assert(all.take(i as int) =~= all);
    ImageListing {
        plymouth: strings_of(&pf),
        theme: strings_of(&tf),
        drm: strings_of(&df),
        bgrt: strings_of(&bf),
    }
}

/// What was found of the running kernel's image: whether it exists, its size and
/// modification time when they could be read, and its modification instant (in
/// nanoseconds from the Unix epoch, negative before it) when it could be read.
pub struct InitrdProbe {
    pub exists: bool,
    pub size_bytes: Option<u64>,
    pub modified: Option<String>,
    pub mtime: Option<i128>,
}

/// What was found of the active theme's directory: whether it exists, its modification
/// time as text and as an instant (see [`InitrdProbe`]) when they could be read.
pub struct ThemeDirProbe {
    pub exists: bool,
    pub modified: Option<String>,
    pub mtime: Option<i128>,
}

/// Whether the theme's directory changed after the image was built, when both instants
/// are known.
pub open spec fn theme_newer(initrd: Option<i128>, theme: Option<i128>) -> Option<bool> {
    match (initrd, theme) {
        (Some(i), Some(t)) => Some(t > i),
        _ => None,
    }
}

/// The theme counts as newer only when its instant is strictly later: a theme directory as
/// old as the image, or older, is not newer; of two instants at most one is newer than the
/// other; and when both are known an answer is always given.
pub proof fn lemma_theme_newer_is_strictly_later(initrd: i128, theme: i128)
    ensures
        theme_newer(Some(initrd), Some(theme)) is Some,
        theme_newer(Some(initrd), Some(theme)) == Some(true) <==> initrd < theme,
        theme <= initrd ==> theme_newer(Some(initrd), Some(theme)) == Some(false),
        !(theme_newer(Some(initrd), Some(theme)) == Some(true) && theme_newer(
            Some(theme),
            Some(initrd),
        ) == Some(true)),
        theme_newer(Some(initrd), Some(initrd)) == Some(false),
{
}

/// The analysis of the running kernel's image at `path` for the active theme `theme`.
/// The theme's directory counts only when the image exists; the listing (the output of
/// `lsinitramfs` on the image) likewise, and an empty listing is an error.
pub fn analyze_initrd(
    path: String,
    initrd: InitrdProbe,
    theme_dir: ThemeDirProbe,
    listing: &str,
    theme: &str,
) -> (r: InitrdAnalysis)
    ensures
        r.path@ == path@,
        r.exists == initrd.exists,
        r.size_bytes == initrd.size_bytes,
        r.modified == initrd.modified,
        r.active_theme_modified == (if initrd.exists && theme_dir.exists {
            theme_dir.modified
        } else {
            None
        }),
        r.theme_newer_than_initrd == (if initrd.exists && theme_dir.exists {
            theme_newer(initrd.mtime, theme_dir.mtime)
        } else {
            None
        }),
        initrd.exists && theme_dir.exists && initrd.mtime is Some && theme_dir.mtime is Some
            ==> r.theme_newer_than_initrd == Some(theme_dir.mtime->0 > initrd.mtime->0),
        initrd.exists && listing@.len() > 0 ==> {
            &&& strs(r.plymouth_files@) == plymouth_files_of(lines(listing@))
            &&& strs(r.active_theme_files@) == theme_files_of(lines(listing@), theme@)
            &&& strs(r.drm_kms_files@) == drm_files_of(lines(listing@))
            &&& strs(r.bgrt_files@) == bgrt_files_of(lines(listing@))
            &&& r.active_theme_in_initramfs == (theme_files_of(lines(listing@), theme@).len() > 0)
            &&& r.error is None
        },
        !(initrd.exists && listing@.len() > 0) ==> {
            &&& r.plymouth_files@.len() == 0
            &&& r.active_theme_files@.len() == 0
            &&& r.drm_kms_files@.len() == 0
            &&& r.bgrt_files@.len() == 0
            &&& !r.active_theme_in_initramfs
        },
        opt_error(r.error) == (if initrd.exists && listing@.len() == 0 {
            Some("lsinitramfs failed or returned no output"@)
        } else {
            None
        }),
{
    let mut analysis = InitrdAnalysis {
        path,
        exists: initrd.exists,
        size_bytes: initrd.size_bytes,
        modified: initrd.modified,
        active_theme_modified: None,
        theme_newer_than_initrd: None,
        plymouth_files: Vec::new(),
        drm_kms_files: Vec::new(),
        bgrt_files: Vec::new(),
        active_theme_files: Vec::new(),
        active_theme_in_initramfs: false,
        error: None,
    };
    if initrd.exists {
        if theme_dir.exists {
            analysis.active_theme_modified = theme_dir.modified;
            analysis.theme_newer_than_initrd = match (initrd.mtime, theme_dir.mtime) {
                (Some(i), Some(t)) => Some(t > i),
                _ => None,
            };
        }
        if listing.unicode_len() > 0 {
            let c = classify_listing(listing, theme);
            analysis.active_theme_in_initramfs = c.theme.len() > 0;
            analysis.plymouth_files = c.plymouth;
            analysis.active_theme_files = c.theme;
            analysis.drm_kms_files = c.drm;
            analysis.bgrt_files = c.bgrt;
        } else {
            analysis.error = Some(string_of("lsinitramfs failed or returned no output"));
        }
    }
    analysis
}

/// The characters of an optional error text.
pub open spec fn opt_error(e: Option<String>) -> Option<Seq<char>> {
    crate::text::opt_str(e)
}

/// The initramfs section: the three tools (see [`tool_name_list`]), the running
/// kernel's release (`uname -r`), the images found by `/boot/initrd.img-*`, and what
/// was found of the running kernel's image (see [`initrd_path_of`]) and of the active
/// theme's directory, with the output of `lsinitramfs` on that image.
pub fn collect(
    update_initramfs: ToolProbe,
    dracut: ToolProbe,
    mkinitcpio: ToolProbe,
    current_kernel: String,
    images: Vec<ImageFile>,
    initrd: InitrdProbe,
    theme_dir: ThemeDirProbe,
    lsinitramfs: &str,
    active_theme: &str,
) -> (r: Initramfs)
    ensures
        r.tools@ == Map::empty().insert("update-initramfs"@, tool_entry(update_initramfs)).insert(
            "dracut"@,
            tool_entry(dracut),
        ).insert("mkinitcpio"@, tool_entry(mkinitcpio)),
        r.current_kernel@ == current_kernel@,
        sorted_by_key(r.images@),
        r.images@.to_multiset() == images_of(images@, current_kernel@).to_multiset(),
        exists|p: Seq<int>|
            stable_image(r.images@, images_of(images@, current_kernel@), p)
                && forall|i: int, j: int|
                0 <= i < j < r.images@.len() && r.images@[i].key() == r.images@[j].key() ==> #[trigger] p[i]
                    < #[trigger] p[j],
        r.current_initrd_analysis.path@ == initrd_path_of(current_kernel@),
        r.current_initrd_analysis.exists == initrd.exists,
        r.current_initrd_analysis.size_bytes == initrd.size_bytes,
        r.current_initrd_analysis.modified == initrd.modified,
        r.current_initrd_analysis.active_theme_modified == (if initrd.exists && theme_dir.exists {
            theme_dir.modified
        } else {
            None
        }),
        r.current_initrd_analysis.theme_newer_than_initrd == (if initrd.exists && theme_dir.exists {
            theme_newer(initrd.mtime, theme_dir.mtime)
        } else {
            None
        }),
        initrd.exists && theme_dir.exists && initrd.mtime is Some && theme_dir.mtime is Some
            ==> r.current_initrd_analysis.theme_newer_than_initrd == Some(
            theme_dir.mtime->0 > initrd.mtime->0,
        ),
        initrd.exists && lsinitramfs@.len() > 0 ==> {
            let a = r.current_initrd_analysis;
            &&& strs(a.plymouth_files@) == plymouth_files_of(lines(lsinitramfs@))
            &&& strs(a.active_theme_files@) == theme_files_of(lines(lsinitramfs@), active_theme@)
            &&& strs(a.drm_kms_files@) == drm_files_of(lines(lsinitramfs@))
            &&& strs(a.bgrt_files@) == bgrt_files_of(lines(lsinitramfs@))
            &&& a.active_theme_in_initramfs == (theme_files_of(lines(lsinitramfs@), active_theme@).len()
                > 0)
        },
        !(initrd.exists && lsinitramfs@.len() > 0) ==> {
            let a = r.current_initrd_analysis;
            &&& a.plymouth_files@.len() == 0
            &&& a.active_theme_files@.len() == 0
            &&& a.drm_kms_files@.len() == 0
            &&& a.bgrt_files@.len() == 0
            &&& !a.active_theme_in_initramfs
        },
        opt_error(r.current_initrd_analysis.error) == (if initrd.exists && lsinitramfs@.len() == 0 {
            Some("lsinitramfs failed or returned no output"@)
        } else {
            None
        }),
{
    let mut tools: StrMap<ToolInfo> = StrMap::new();
    proof {
        StrMap::<ToolInfo>::lemma_view_empty(tools);
    }
    insert_tool(&mut tools, "update-initramfs", update_initramfs);
    insert_tool(&mut tools, "dracut", dracut);
    insert_tool(&mut tools, "mkinitcpio", mkinitcpio);
    let sorted = initrd_images(images, current_kernel.as_str());
    let path = current_initrd_path(current_kernel.as_str());
    let analysis = analyze_initrd(path, initrd, theme_dir, lsinitramfs, active_theme);
    Initramfs { tools, current_kernel, images: sorted, current_initrd_analysis: analysis }
}

/// The files of the active theme are among the Plymouth files of the image.
proof fn lemma_theme_files_in(ls: Seq<Seq<char>>, theme: Seq<char>)
    ensures
        forall|x: Seq<char>|
            #[trigger] theme_files_of(ls, theme).contains(x) ==> plymouth_files_of(ls).contains(x),
    decreases ls.len(),
{
    if ls.len() > 0 {
        let p = ls.drop_last();
        lemma_theme_files_in(p, theme);
        assert forall|x: Seq<char>| #[trigger] theme_files_of(ls, theme).contains(x) implies plymouth_files_of(
            ls,
        ).contains(x) by {
            let t = theme_files_of(ls, theme);
            let i = choose|i: int| 0 <= i < t.len() && t[i] == x;
            if i < theme_files_of(p, theme).len() {
                assert(theme_files_of(p, theme)[i] == x);
                assert(theme_files_of(p, theme).contains(x));
                let q = plymouth_files_of(p);
                let j = choose|j: int| 0 <= j < q.len() && q[j] == x;
                assert(plymouth_files_of(ls)[j] == x);
            } else {
                assert(x == ls.last());
                assert(plymouth_files_of(ls).last() == x);
                assert(plymouth_files_of(ls)[plymouth_files_of(ls).len() - 1] == x);
            }
        }
    }
}

/// Every file of the active theme found in the image is one of its Plymouth files, so a
/// theme counted as present in the initramfs always shows among them.
pub proof fn lemma_theme_files_are_plymouth_files(listing: Seq<char>, theme: Seq<char>)
    ensures
        forall|x: Seq<char>|
            #[trigger] theme_files_of(lines(listing), theme).contains(x) ==> plymouth_files_of(
                lines(listing),
            ).contains(x),
        theme_files_of(lines(listing), theme).len() > 0 ==> plymouth_files_of(lines(listing)).len() > 0,
{
    lemma_theme_files_in(lines(listing), theme);
    if theme_files_of(lines(listing), theme).len() > 0 {
        assert(theme_files_of(lines(listing), theme).contains(theme_files_of(lines(listing), theme)[0]));
    }
}

} // verus!

//! The graphics stack Plymouth draws on: frame buffers, DRM cards, kernel modules, and
//! the firmware boot graphics.
use vstd::prelude::*;
use crate::model::{BgrtInfo, DrmDevice, FramebufferDevice, Graphics};
use crate::path::{file_name, join, path_file_name, path_join};
use crate::text::{
    char_vecs, chars_eq, contains, contains_str, from_chars, lines, lines_of, opt_str, split_words,
    string_of, strs, to_chars, words,
};

verus! {

/// The directory under `/sys/class/graphics` that describes the frame buffer `device`:
/// named by the device's file name (empty when it has none).
pub open spec fn fb_sys_path_of(device: Seq<char>) -> Seq<char> {
    "/sys/class/graphics/"@ + match file_name(device) {
        Some(n) => n,
        None => seq![],
    }
}

/// The directory under `/sys/class/graphics` that describes the frame buffer `device`.
pub fn fb_sys_path(device: &str) -> (r: String)
    ensures
        r@ == fb_sys_path_of(device@),
{
    let d = to_chars(device);
    let name = match path_file_name(d.as_slice()) {
        Some(n) => n,
        None => Vec::new(),
    };
    let mut v = to_chars("/sys/class/graphics/");
    crate::text::append_chars(&mut v, name.as_slice());
    from_chars(v.as_slice())
}

/// What was found for one frame buffer device: its path, whether its directory under
/// `/sys/class/graphics` exists, and the (trimmed) texts of its `virtual_size`,
/// `bits_per_pixel` and `stride` files there.
pub struct FbProbe {
    pub device: String,
    pub sys_exists: bool,
    pub virtual_size: String,
    pub bits_per_pixel: String,
    pub stride: String,
}

/// The record of one frame buffer: its geometry only when its directory exists.
pub fn framebuffer_device(p: FbProbe) -> (r: FramebufferDevice)
    ensures
        r.device@ == p.device@,
        opt_str(r.virtual_size) == (if p.sys_exists {
            Some(p.virtual_size@)
        } else {
            None
        }),
        opt_str(r.bits_per_pixel) == (if p.sys_exists {
            Some(p.bits_per_pixel@)
        } else {
            None
        }),
        opt_str(r.stride) == (if p.sys_exists {
            Some(p.stride@)
        } else {
            None
        }),
{
    if p.sys_exists {
        FramebufferDevice {
            device: p.device,
            virtual_size: Some(p.virtual_size),
            bits_per_pixel: Some(p.bits_per_pixel),
            stride: Some(p.stride),
        }
    } else {
        FramebufferDevice { device: p.device, virtual_size: None, bits_per_pixel: None, stride: None }
    }
}

/// The file that tells whether the DRM card at `card` is enabled.
pub fn drm_enabled_path(card: &str) -> (r: String)
    ensures
        r@ == join(card@, "enabled"@),
{
    let c = to_chars(card);
    let t = to_chars("enabled");
    let j = path_join(c.as_slice(), t.as_slice());
    from_chars(j.as_slice())
}

/// The link that names the driver of the DRM card at `card`.
pub fn drm_driver_link(card: &str) -> (r: String)
    ensures
        r@ == join(card@, "device/driver"@),
{
    let c = to_chars(card);
    let t = to_chars("device/driver");
    let j = path_join(c.as_slice(), t.as_slice());
    from_chars(j.as_slice())
}

/// What was found for one DRM card: its path, whether its `enabled` file exists and that
/// file's (trimmed) text, and the target of its driver link when it could be read.
pub struct DrmProbe {
    pub card: String,
    pub enabled_exists: bool,
    pub enabled: String,
    pub driver_target: Option<String>,
}

/// The file name of an optional path.
pub open spec fn opt_file_name(p: Option<Seq<char>>) -> Option<Seq<char>> {
    match p {
        Some(t) => file_name(t),
        None => None,
    }
}

/// The record of one DRM card: named by its file name (empty when it has none), its
/// `enabled` text when that file exists, and the file name of its driver link's target.
pub fn drm_device(p: DrmProbe) -> (r: DrmDevice)
    ensures
        r.name@ == (match file_name(p.card@) {
            Some(n) => n,
            None => seq![],
        }),
        opt_str(r.enabled) == (if p.enabled_exists {
            Some(p.enabled@)
        } else {
            None
        }),
        opt_str(r.driver) == opt_file_name(opt_str(p.driver_target)),
{
    let c = to_chars(p.card.as_str());
    let name = match path_file_name(c.as_slice()) {
        Some(n) => from_chars(n.as_slice()),
        None => String::new(),
    };
    let driver = match &p.driver_target {
        Some(t) => {
            let tc = to_chars(t.as_str());
            match path_file_name(tc.as_slice()) {
                Some(n) => Some(from_chars(n.as_slice())),
                None => None,
            }
        },
        None => None,
    };
    DrmDevice {
        name,
        enabled: if p.enabled_exists {
            Some(p.enabled)
        } else {
            None
        },
        driver,
    }
}

/// The kernel modules that drive graphics.
pub open spec fn graphics_module_names() -> Seq<Seq<char>> {
    seq![
        "drm"@,
        "i915"@,
        "amdgpu"@,
        "radeon"@,
        "nouveau"@,
        "nvidia"@,
        "vmwgfx"@,
        "vboxvideo"@,
        "virtio_gpu"@,
        "ast"@,
        "simpledrm"@,
        "efifb"@,
        "vesafb"@,
        "bochs"@,
        "vkms"@,
        "mgag200"@,
    ]
}

/// The kernel modules that drive graphics.
pub fn graphics_modules() -> (r: Vec<String>)
    ensures
        strs(r@) == graphics_module_names(),
{
    let mut r: Vec<String> = Vec::new();
    r.push(string_of("drm"));
    r.push(string_of("i915"));
    r.push(string_of("amdgpu"));
    r.push(string_of("radeon"));
    r.push(string_of("nouveau"));
    r.push(string_of("nvidia"));
    r.push(string_of("vmwgfx"));
    r.push(string_of("vboxvideo"));
    r.push(string_of("virtio_gpu"));
    r.push(string_of("ast"));
    r.push(string_of("simpledrm"));
    r.push(string_of("efifb"));
    r.push(string_of("vesafb"));
    r.push(string_of("bochs"));
    r.push(string_of("vkms"));
    r.push(string_of("mgag200"));
    assert(strs(r@) =~= graphics_module_names());
    r
}

/// The graphics modules among the lines of `lsmod`, in order: the first word of each
/// line that names one.
pub open spec fn loaded_modules(ls: Seq<Seq<char>>) -> Seq<Seq<char>>
    decreases ls.len(),
{
    if ls.len() == 0 {
        seq![]
    } else {
        let w = words(ls.last());
        if w.len() > 0 && graphics_module_names().contains(w[0]) {
            loaded_modules(ls.drop_last()).push(w[0])
        } else {
            loaded_modules(ls.drop_last())
        }
    }
}

/// Whether `x` is one of `v`.
fn holds_string(v: &Vec<String>, x: &[char]) -> (r: bool)
    ensures
        r == strs(v@).contains(x@),
{
    let mut i: usize = 0;
    while i < v.len()
        invariant
            i <= v@.len(),
            forall|k: int| 0 <= k < i ==> strs(v@)[k] != x@,
        decreases v@.len() - i,
    {
        let c = to_chars(v[i].as_str());
        if chars_eq(c.as_slice(), x) {
            assert(strs(v@)[i as int] == x@);
            return true;
        }
        i = i + 1;
    }
    false
}

/// The graphics modules listed in the output of `lsmod`.
pub fn loaded_graphics_modules(lsmod: &str) -> (r: Vec<String>)
    ensures
        strs(r@) == loaded_modules(lines(lsmod@)),
{
    let known = graphics_modules();
    let ls = lines_of(lsmod);
    let ghost all = char_vecs(ls@);
    let mut out: Vec<String> = Vec::new();
    let mut i: usize = 0;
    while i < ls.len()
        invariant
            i <= ls@.len(),
            all == char_vecs(ls@),
            strs(known@) == graphics_module_names(),
            strs(out@) == loaded_modules(all.take(i as int)),
        decreases ls@.len() - i,
    {
        assert(all.take(i + 1).drop_last() =~= all.take(i as int));
        assert(all[i as int] == ls@[i as int]@);
        let w = split_words(ls[i].as_slice());
        if w.len() > 0 {
            assert(char_vecs(w@)[0] == w@[0]@);
            if holds_string(&known, w[0].as_slice()) {
                let ghost before = strs(out@);
                let s = from_chars(w[0].as_slice());
                out.push(s);
                assert(strs(out@) =~= before.push(words(all[i as int])[0]));
            }
        }
        i = i + 1;
    }
    assert(all.take(i as int) =~= all);
    out
}

/// What was found under `/sys/firmware/acpi/bgrt`: whether the directory exists, and for
/// each of its files `xoffset`, `yoffset`, `status` and `type` the (trimmed) text when
/// the file exists.
pub struct BgrtProbe {
    pub present: bool,
    pub xoffset: Option<String>,
    pub yoffset: Option<String>,
    pub status: Option<String>,
    pub bgrt_type: Option<String>,
}

/// The graphics section, from the frame buffers found (`/dev/fb*`), the entries of
/// `/sys/class/graphics`, the DRM cards found (`/sys/class/drm/card*`), the output of
/// `lsmod`, whether `/sys/firmware/efi` exists, and the boot graphics record.
pub fn collect(
    framebuffers: Vec<FbProbe>,
    graphics_sys_entries: Vec<String>,
    cards: Vec<DrmProbe>,
    lsmod: &str,
    uefi: bool,
    bgrt: BgrtProbe,
) -> (r: Graphics)
    ensures
        r.framebuffer_devices@.len() == framebuffers@.len(),
        forall|i: int|
            0 <= i < framebuffers@.len() ==> {
                let d = #[trigger] r.framebuffer_devices@[i];
                let p = framebuffers@[i];
                &&& d.device@ == p.device@
                &&& opt_str(d.virtual_size) == (if p.sys_exists {
                    Some(p.virtual_size@)
                } else {
                    None
                })
                &&& opt_str(d.bits_per_pixel) == (if p.sys_exists {
                    Some(p.bits_per_pixel@)
                } else {
                    None
                })
                &&& opt_str(d.stride) == (if p.sys_exists {
                    Some(p.stride@)
                } else {
                    None
                })
            },
        r.graphics_sys_entries@ == graphics_sys_entries@,
        r.drm_devices@.len() == cards@.len(),
        forall|i: int|
            0 <= i < cards@.len() ==> {
                let d = #[trigger] r.drm_devices@[i];
                let p = cards@[i];
                &&& d.name@ == (match file_name(p.card@) {
                    Some(n) => n,
                    None => seq![],
                })
                &&& opt_str(d.enabled) == (if p.enabled_exists {
                    Some(p.enabled@)
                } else {
                    None
                })
                &&& opt_str(d.driver) == opt_file_name(opt_str(p.driver_target))
            },
        strs(r.loaded_graphics_modules@) == loaded_modules(lines(lsmod@)),
        r.simpledrm_loaded == contains(lsmod@, "simpledrm"@),
        r.efifb_loaded == contains(lsmod@, "efifb"@),
        r.uefi == uefi,
        r.bgrt.present == bgrt.present,
        r.bgrt.xoffset == bgrt.xoffset,
        r.bgrt.yoffset == bgrt.yoffset,
        r.bgrt.status == bgrt.status,
        r.bgrt.bgrt_type == bgrt.bgrt_type,
{
    let mut framebuffer_devices: Vec<FramebufferDevice> = Vec::new();
    let mut fbs = framebuffers;
    let ghost fbs0 = fbs@;
    while fbs.len() > 0
        invariant
            fbs@.len() + framebuffer_devices@.len() == fbs0.len(),
            fbs@ == fbs0.skip(framebuffer_devices@.len() as int),
            forall|i: int|
                0 <= i < framebuffer_devices@.len() ==> {
                    let d = #[trigger] framebuffer_devices@[i];
                    let p = fbs0[i];
                    &&& d.device@ == p.device@
                    &&& opt_str(d.virtual_size) == (if p.sys_exists {
                        Some(p.virtual_size@)
                    } else {
                        None
                    })
                    &&& opt_str(d.bits_per_pixel) == (if p.sys_exists {
                        Some(p.bits_per_pixel@)
                    } else {
                        None
                    })
                    &&& opt_str(d.stride) == (if p.sys_exists {
                        Some(p.stride@)
                    } else {
                        None
                    })
                },
        decreases fbs@.len(),
    {
        let ghost k = framebuffer_devices@.len();
        let p = fbs.remove(0);
        assert(p == fbs0[k as int]);
        let d = framebuffer_device(p);
        framebuffer_devices.push(d);
        assert(fbs@ =~= fbs0.skip(framebuffer_devices@.len() as int));
    }
    let mut drm_devices: Vec<DrmDevice> = Vec::new();
    let mut cs = cards;
    let ghost cs0 = cs@;
    while cs.len() > 0
        invariant
            cs@.len() + drm_devices@.len() == cs0.len(),
            cs@ == cs0.skip(drm_devices@.len() as int),
            forall|i: int|
                0 <= i < drm_devices@.len() ==> {
                    let d = #[trigger] drm_devices@[i];
                    let p = cs0[i];
                    &&& d.name@ == (match file_name(p.card@) {
                        Some(n) => n,
                        None => seq![],
                    })
                    &&& opt_str(d.enabled) == (if p.enabled_exists {
                        Some(p.enabled@)
                    } else {
                        None
                    })
                    &&& opt_str(d.driver) == opt_file_name(opt_str(p.driver_target))
                },
        decreases cs@.len(),
    {
        let ghost k = drm_devices@.len();
        let p = cs.remove(0);
        assert(p == cs0[k as int]);
        let d = drm_device(p);
        drm_devices.push(d);
        assert(cs@ =~= cs0.skip(drm_devices@.len() as int));
    }
    let lc = to_chars(lsmod);
    Graphics {
        framebuffer_devices,
        graphics_sys_entries,
        drm_devices,
        loaded_graphics_modules: loaded_graphics_modules(lsmod),
        simpledrm_loaded: contains_str(lc.as_slice(), "simpledrm"),
        efifb_loaded: contains_str(lc.as_slice(), "efifb"),
        uefi,
        bgrt: BgrtInfo {
            present: bgrt.present,
            xoffset: bgrt.xoffset,
            yoffset: bgrt.yoffset,
            status: bgrt.status,
            bgrt_type: bgrt.bgrt_type,
        },
    }
}

} // verus!

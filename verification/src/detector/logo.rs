//! The distribution logo that themes show through `special://logo`.
use vstd::prelude::*;
use crate::model::{DistributionLogo, LogoInfo, LogoInfoView};
use crate::detector::utils::{resolve_path, resolved_path};
use crate::strmap::StrMap;
use crate::text::{opt_str, string_of, strs};

verus! {

/// What was found at one candidate logo path: whether it exists, whether it is a
/// symbolic link, the target of the link when it could be read, and the file's size when
/// it could be read.
pub struct LogoProbe {
    pub exists: bool,
    pub is_symlink: bool,
    pub link_target: Option<String>,
    pub size_bytes: Option<u64>,
}

/// The record of one candidate logo: the link facts only when something is there (a file
/// or a link), the size only when the path leads to a file.
pub open spec fn logo_entry(path: Seq<char>, description: Seq<char>, p: LogoProbe) -> LogoInfoView {
    let present = p.exists || p.is_symlink;
    LogoInfoView {
        path,
        exists: p.exists,
        is_symlink: if present {
            Some(p.is_symlink)
        } else {
            None
        },
        resolved: if present {
            Some(resolved_path(path, opt_str(p.link_target)))
        } else {
            None
        },
        description,
        size_bytes: if p.exists {
            p.size_bytes
        } else {
            None
        },
    }
}

/// The record of one candidate logo.
pub fn logo_info(path: &str, description: &str, p: &LogoProbe) -> (r: LogoInfo)
    ensures
        r@ == logo_entry(path@, description@, *p),
{
    let present = p.exists || p.is_symlink;
    LogoInfo {
        path: string_of(path),
        exists: p.exists,
        is_symlink: if present {
            Some(p.is_symlink)
        } else {
            None
        },
        resolved: if present {
            Some(resolve_path(path, &p.link_target))
        } else {
            None
        },
        description: string_of(description),
        size_bytes: if p.exists {
            p.size_bytes
        } else {
            None
        },
    }
}

/// The candidate logo paths, in the order in which they are probed.
pub open spec fn logo_path_list() -> Seq<Seq<char>> {
    seq![
        "/usr/share/plymouth/ubuntu-logo.png"@,
        "/usr/share/pixmaps/mint-logo.png"@,
        "/usr/share/pixmaps/distributor-logo.png"@,
        "/etc/alternatives/distributor-logo"@,
    ]
}

/// The candidate logo paths, in the order in which they are probed.
pub fn logo_paths() -> (r: Vec<String>)
    ensures
        strs(r@) == logo_path_list(),
{
    let mut r: Vec<String> = Vec::new();
    r.push(string_of("/usr/share/plymouth/ubuntu-logo.png"));
    r.push(string_of("/usr/share/pixmaps/mint-logo.png"));
    r.push(string_of("/usr/share/pixmaps/distributor-logo.png"));
    r.push(string_of("/etc/alternatives/distributor-logo"));
    assert(strs(r@) =~= logo_path_list());
    r
}

/// The records of the four candidate logos, each under its key.
pub open spec fn logo_map(
    ubuntu: LogoProbe,
    mint: LogoProbe,
    distributor_png: LogoProbe,
    distributor: LogoProbe,
) -> Map<Seq<char>, LogoInfoView> {
    Map::empty().insert(
        "ubuntu_logo_png"@,
        logo_entry(
            "/usr/share/plymouth/ubuntu-logo.png"@,
            "Ubuntu OEM logo (used by 'special://logo')"@,
            ubuntu,
        ),
    ).insert(
        "mint_logo_png"@,
        logo_entry("/usr/share/pixmaps/mint-logo.png"@, "Linux Mint logo"@, mint),
    ).insert(
        "distributor_logo_png"@,
        logo_entry(
            "/usr/share/pixmaps/distributor-logo.png"@,
            "Generic distributor logo (fallback)"@,
            distributor_png,
        ),
    ).insert(
        "distributor_logo"@,
        logo_entry(
            "/etc/alternatives/distributor-logo"@,
            "update-alternatives distributor-logo link"@,
            distributor,
        ),
    )
}

/// Stores under `key` the record of the candidate logo at `path`.
fn insert_logo(map: &mut StrMap<LogoInfo>, key: &str, path: &str, description: &str, p: &LogoProbe)
    ensures
        final(map)@ == old(map)@.insert(key@, logo_entry(path@, description@, *p)),
{
    let info = logo_info(path, description, p);
    let ks = string_of(key);
    let ghost before = *map;
    let ghost kk = ks@;
    let ghost iv = info@;
    map.insert(ks, info);
    proof {
        StrMap::<LogoInfo>::lemma_view_insert(before, *map, kk, iv);
    }
}

/// The distribution-logo section, from what was found at each candidate path (see
/// [`logo_path_list`], in that order).
pub fn collect(ubuntu: LogoProbe, mint: LogoProbe, distributor_png: LogoProbe, distributor: LogoProbe) -> (r:
    DistributionLogo)
    ensures
        r.note@ == "In themes, 'special://logo' resolves to the distribution OEM logo at runtime."@,
        r.logos@ == logo_map(ubuntu, mint, distributor_png, distributor),
{
    let mut logos: StrMap<LogoInfo> = StrMap::new();
    proof {
        StrMap::<LogoInfo>::lemma_view_empty(logos);
    }
    insert_logo(
        &mut logos,
        "ubuntu_logo_png",
        "/usr/share/plymouth/ubuntu-logo.png",
        "Ubuntu OEM logo (used by 'special://logo')",
        &ubuntu,
    );
    insert_logo(&mut logos, "mint_logo_png", "/usr/share/pixmaps/mint-logo.png", "Linux Mint logo", &mint);
    insert_logo(
        &mut logos,
        "distributor_logo_png",
        "/usr/share/pixmaps/distributor-logo.png",
        "Generic distributor logo (fallback)",
        &distributor_png,
    );
    insert_logo(
        &mut logos,
        "distributor_logo",
        "/etc/alternatives/distributor-logo",
        "update-alternatives distributor-logo link",
        &distributor,
    );
    DistributionLogo {
        note: string_of("In themes, 'special://logo' resolves to the distribution OEM logo at runtime."),
        logos,
    }
}

} // verus!

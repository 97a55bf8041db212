//! The release files that an update offers on each platform, and how a
//! downloaded one is started on Linux.
use vstd::prelude::*;
use crate::text::{chars_of, eq_str, push_str};
use crate::path::path_extension;
use crate::cache::{join_path, join};

verus! {

pub const GITHUB_REPO: &'static str = "MakotoArai-CN/Aura";

/// A file of a release that the update dialog offers.
#[derive(Debug, Clone)]
pub struct UpdateAsset {
    pub label: String,
    pub url: String,
    pub filename: String,
}

/// `(label, url, filename)` of an asset.
pub type AssetView = (Seq<char>, Seq<char>, Seq<char>);

pub open spec fn asset_view(a: UpdateAsset) -> AssetView {
    (a.label@, a.url@, a.filename@)
}

/// The download directory of release `version`.
pub open spec fn release_base(version: Seq<char>) -> Seq<char> {
    "https://github.com/"@ + GITHUB_REPO@ + "/releases/download/v"@ + version
}

/// An asset named `filename` of the release at `base`.
pub open spec fn asset_at(base: Seq<char>, label: Seq<char>, filename: Seq<char>) -> AssetView {
    (label, base + "/"@ + filename, filename)
}

/// The Windows architecture tag.
pub open spec fn windows_arch(arch: Seq<char>) -> Seq<char> {
    if arch == "x86"@ {
        "x86"@
    } else if arch == "aarch64"@ {
        "arm64"@
    } else {
        "x64"@
    }
}

/// The macOS architecture tag.
pub open spec fn mac_arch(arch: Seq<char>) -> Seq<char> {
    if arch == "x86_64"@ {
        "x64"@
    } else {
        "aarch64"@
    }
}

/// The Android architecture tag.
pub open spec fn android_arch(arch: Seq<char>) -> Seq<char> {
    if arch == "aarch64"@ {
        "arm64"@
    } else if arch == "arm"@ {
        "arm"@
    } else if arch == "x86_64"@ {
        "x86_64"@
    } else if arch == "x86"@ {
        "x86"@
    } else {
        "universal"@
    }
}

/// The files of release `version` for the operating system `os` and CPU
/// `arch` (the names of `std::env::consts`): two installers on Windows, a
/// disk image on macOS, three packages on Linux, two APKs on Android, none
/// elsewhere.
pub open spec fn assets_spec(version: Seq<char>, os: Seq<char>, arch: Seq<char>) -> Seq<AssetView> {
    let base = release_base(version);
    if os == "windows"@ {
        let t = windows_arch(arch);
        seq![
            asset_at(base, "Windows "@ + t + " 安装包 (exe)"@, "Aura_"@ + version + "_"@ + t + "-setup.exe"@),
            asset_at(base, "Windows "@ + t + " 安装包 (msi)"@, "Aura_"@ + version + "_"@ + t + "_en-US.msi"@),
        ]
    } else if os == "macos"@ {
        let t = mac_arch(arch);
        let label = if t == "aarch64"@ {
            "macOS Apple Silicon"@
        } else {
            "macOS Intel"@
        };
        seq![asset_at(base, label + " (dmg)"@, "Aura_"@ + version + "_"@ + t + ".dmg"@)]
    } else if os == "linux"@ {
        seq![
            asset_at(base, "Linux (AppImage)"@, "Aura_"@ + version + "_amd64.AppImage"@),
            asset_at(base, "Linux (deb)"@, "Aura_"@ + version + "_amd64.deb"@),
            asset_at(base, "Linux (rpm)"@, "Aura_"@ + version + "-1.x86_64.rpm"@),
        ]
    } else if os == "android"@ {
        let t = android_arch(arch);
        seq![
            asset_at(base, "Android "@ + t, "aura-android-"@ + t + ".apk"@),
            asset_at(base, "Android 通用"@, "aura-android-universal.apk"@),
        ]
    } else {
        seq![]
    }
}

/// Every offered file is downloaded from the release of the version asked
/// for, under the name it is saved as.
pub proof fn lemma_assets_come_from_release(version: Seq<char>, os: Seq<char>, arch: Seq<char>)
    ensures
        forall|i: int|
            0 <= i < assets_spec(version, os, arch).len() ==> (#[trigger] assets_spec(version, os, arch)[i]).1
                == release_base(version) + "/"@ + assets_spec(version, os, arch)[i].2,
{
}

/// On Windows each CPU is offered the installers built for it: an `x86_64`
/// machine the x64 ones, an `aarch64` machine the ARM64 ones, an `x86`
/// machine the 32-bit ones; always an `.exe` installer and then an `.msi`.
pub proof fn lemma_windows_installers(version: Seq<char>, arch: Seq<char>)
    ensures
        assets_spec(version, "windows"@, arch).len() == 2,
        arch == "x86_64"@ ==> {
            &&& assets_spec(version, "windows"@, arch)[0].2 == "Aura_"@ + version + "_x64-setup.exe"@
            &&& assets_spec(version, "windows"@, arch)[1].2 == "Aura_"@ + version + "_x64_en-US.msi"@
            &&& assets_spec(version, "windows"@, arch)[0].0 == "Windows x64 安装包 (exe)"@
            &&& assets_spec(version, "windows"@, arch)[1].0 == "Windows x64 安装包 (msi)"@
        },
        arch == "aarch64"@ ==> {
            &&& assets_spec(version, "windows"@, arch)[0].2 == "Aura_"@ + version
                + "_arm64-setup.exe"@
            &&& assets_spec(version, "windows"@, arch)[1].2 == "Aura_"@ + version
                + "_arm64_en-US.msi"@
        },
        arch == "x86"@ ==> {
            &&& assets_spec(version, "windows"@, arch)[0].2 == "Aura_"@ + version + "_x86-setup.exe"@
            &&& assets_spec(version, "windows"@, arch)[1].2 == "Aura_"@ + version + "_x86_en-US.msi"@
        },
{
    reveal_strlit("x86_64");
    reveal_strlit("x86");
    reveal_strlit("aarch64");
    reveal_strlit("x64");
    reveal_strlit("arm64");
    reveal_strlit("_");
    reveal_strlit("-setup.exe");
    reveal_strlit("_en-US.msi");
    reveal_strlit("_x64-setup.exe");
    reveal_strlit("_x64_en-US.msi");
    reveal_strlit("_arm64-setup.exe");
    reveal_strlit("_arm64_en-US.msi");
    reveal_strlit("_x86-setup.exe");
    reveal_strlit("_x86_en-US.msi");
    reveal_strlit("Windows ");
    reveal_strlit(" 安装包 (exe)");
    reveal_strlit(" 安装包 (msi)");
    reveal_strlit("Windows x64 安装包 (exe)");
    reveal_strlit("Windows x64 安装包 (msi)");
    let p = "Aura_"@ + version;
    if arch == "x86_64"@ {
        assert(arch.len() != "x86"@.len() && arch.len() != "aarch64"@.len());
        assert(windows_arch(arch) == "x64"@);
        assert(p + "_"@ + "x64"@ + "-setup.exe"@ =~= p + "_x64-setup.exe"@);
        assert(p + "_"@ + "x64"@ + "_en-US.msi"@ =~= p + "_x64_en-US.msi"@);
        assert("Windows "@ + "x64"@ + " 安装包 (exe)"@ =~= "Windows x64 安装包 (exe)"@);
        assert("Windows "@ + "x64"@ + " 安装包 (msi)"@ =~= "Windows x64 安装包 (msi)"@);
    }
    if arch == "aarch64"@ {
        assert(arch.len() != "x86"@.len());
        assert(p + "_"@ + "arm64"@ + "-setup.exe"@ =~= p + "_arm64-setup.exe"@);
        assert(p + "_"@ + "arm64"@ + "_en-US.msi"@ =~= p + "_arm64_en-US.msi"@);
    }
    if arch == "x86"@ {
        assert(p + "_"@ + "x86"@ + "-setup.exe"@ =~= p + "_x86-setup.exe"@);
        assert(p + "_"@ + "x86"@ + "_en-US.msi"@ =~= p + "_x86_en-US.msi"@);
    }
}

/// On macOS an Intel machine is offered the x64 disk image and an Apple
/// Silicon one the aarch64 image; on Android each CPU first gets the APK
/// built for it, then the universal one.
pub proof fn lemma_mac_and_android_packages(version: Seq<char>, arch: Seq<char>)
    ensures
        assets_spec(version, "macos"@, arch).len() == 1,
        arch == "x86_64"@ ==> {
            &&& assets_spec(version, "macos"@, arch)[0].2 == "Aura_"@ + version + "_x64.dmg"@
            &&& assets_spec(version, "macos"@, arch)[0].0 == "macOS Intel (dmg)"@
        },
        arch == "aarch64"@ ==> {
            &&& assets_spec(version, "macos"@, arch)[0].2 == "Aura_"@ + version + "_aarch64.dmg"@
            &&& assets_spec(version, "macos"@, arch)[0].0 == "macOS Apple Silicon (dmg)"@
        },
        assets_spec(version, "android"@, arch).len() == 2,
        assets_spec(version, "android"@, arch)[1].2 == "aura-android-universal.apk"@,
        arch == "aarch64"@ ==> assets_spec(version, "android"@, arch)[0].2
            == "aura-android-arm64.apk"@,
        arch == "x86_64"@ ==> assets_spec(version, "android"@, arch)[0].2
            == "aura-android-x86_64.apk"@,
{
    reveal_strlit("windows");
    reveal_strlit("macos");
    reveal_strlit("android");
    reveal_strlit("linux");
    reveal_strlit("x86_64");
    reveal_strlit("x86");
    reveal_strlit("arm");
    reveal_strlit("aarch64");
    reveal_strlit("x64");
    reveal_strlit("arm64");
    reveal_strlit("_");
    reveal_strlit(".dmg");
    reveal_strlit("_x64.dmg");
    reveal_strlit("_aarch64.dmg");
    reveal_strlit("macOS Intel");
    reveal_strlit("macOS Apple Silicon");
    reveal_strlit(" (dmg)");
    reveal_strlit("macOS Intel (dmg)");
    reveal_strlit("macOS Apple Silicon (dmg)");
    reveal_strlit("aura-android-");
    reveal_strlit(".apk");
    reveal_strlit("aura-android-arm64.apk");
    reveal_strlit("aura-android-x86_64.apk");
    let p = "Aura_"@ + version;
    assert("macos"@[0] != "windows"@[0]);
    assert("android"@[0] != "windows"@[0] && "android"@[0] != "macos"@[0]);
    assert("android"@.len() != "linux"@.len());
    if arch == "x86_64"@ {
        assert(mac_arch(arch) == "x64"@);
        assert("x64"@[1] != "aarch64"@[1]);
        assert(p + "_"@ + "x64"@ + ".dmg"@ =~= p + "_x64.dmg"@);
        assert("macOS Intel"@ + " (dmg)"@ =~= "macOS Intel (dmg)"@);
        assert(arch.len() != "aarch64"@.len() && arch.len() != "arm"@.len());
        assert("aura-android-"@ + arch + ".apk"@ =~= "aura-android-x86_64.apk"@);
    }
    if arch == "aarch64"@ {
        assert(arch[0] != "x86_64"@[0]);
        assert(mac_arch(arch) == "aarch64"@);
        assert(p + "_"@ + "aarch64"@ + ".dmg"@ =~= p + "_aarch64.dmg"@);
        assert("macOS Apple Silicon"@ + " (dmg)"@ =~= "macOS Apple Silicon (dmg)"@);
        assert("aura-android-"@ + "arm64"@ + ".apk"@ =~= "aura-android-arm64.apk"@);
    }
}

fn make_asset(base: &str, label: String, filename: String) -> (r: UpdateAsset)
    ensures
        asset_view(r) == asset_at(base@, label@, filename@),
{
    let mut url = base.to_owned();
    push_str(&mut url, "/");
    push_str(&mut url, filename.as_str());
    UpdateAsset { label, url, filename }
}

fn text3(a: &str, b: &str, c: &str) -> (r: String)
    ensures
        r@ == a@ + b@ + c@,
{
    let mut s = a.to_owned();
    push_str(&mut s, b);
    push_str(&mut s, c);
    s
}

fn text5(a: &str, b: &str, c: &str, d: &str, e: &str) -> (r: String)
    ensures
        r@ == a@ + b@ + c@ + d@ + e@,
{
    let mut s = a.to_owned();
    push_str(&mut s, b);
    push_str(&mut s, c);
    push_str(&mut s, d);
    push_str(&mut s, e);
    s
}

/// The files that an update to `version` offers on this platform.
pub fn update_assets(version: &str, os: &str, arch: &str) -> (r: Vec<UpdateAsset>)
    ensures
        r@.map_values(|a: UpdateAsset| asset_view(a)) == assets_spec(version@, os@, arch@),
{
    let base = text3("https://github.com/", GITHUB_REPO, "/releases/download/v");
    let mut base_full = base;
    push_str(&mut base_full, version);
    let base = base_full.as_str();
    let o = chars_of(os);
    let o = o.as_slice();
    let a = chars_of(arch);
    let a = a.as_slice();
    let mut out: Vec<UpdateAsset> = Vec::new();
    if eq_str(o, "windows") {
        let t: &str = if eq_str(a, "x86") {
            "x86"
        } else if eq_str(a, "aarch64") {
            "arm64"
        } else {
            "x64"
        };
        proof {
            reveal_strlit("x86_64");
            reveal_strlit("x86");
            reveal_strlit("x64");
            reveal_strlit("aarch64");
            reveal_strlit("arm64");
        }
        out.push(make_asset(base, text3("Windows ", t, " 安装包 (exe)"), text5("Aura_", version, "_", t, "-setup.exe")));
        out.push(make_asset(base, text3("Windows ", t, " 安装包 (msi)"), text5("Aura_", version, "_", t, "_en-US.msi")));
    } else if eq_str(o, "macos") {
        let t: &str = if eq_str(a, "x86_64") {
            "x64"
        } else {
            "aarch64"
        };
        proof {
            reveal_strlit("x64");
            reveal_strlit("aarch64");
        }
        let label: &str = if eq_str(a, "x86_64") {
            "macOS Intel"
        } else {
            "macOS Apple Silicon"
        };
        let mut l = label.to_owned();
        push_str(&mut l, " (dmg)");
        out.push(make_asset(base, l, text5("Aura_", version, "_", t, ".dmg")));
    } else if eq_str(o, "linux") {
        out.push(make_asset(base, "Linux (AppImage)".to_owned(), text3("Aura_", version, "_amd64.AppImage")));
        out.push(make_asset(base, "Linux (deb)".to_owned(), text3("Aura_", version, "_amd64.deb")));
        out.push(make_asset(base, "Linux (rpm)".to_owned(), text3("Aura_", version, "-1.x86_64.rpm")));
    } else if eq_str(o, "android") {
        let t: &str = if eq_str(a, "aarch64") {
            "arm64"
        } else if eq_str(a, "arm") {
            "arm"
        } else if eq_str(a, "x86_64") {
            "x86_64"
        } else if eq_str(a, "x86") {
            "x86"
        } else {
            "universal"
        };
        let mut l = "Android ".to_owned();
        push_str(&mut l, t);
        out.push(make_asset(base, l, text3("aura-android-", t, ".apk")));
        out.push(make_asset(base, "Android 通用".to_owned(), "aura-android-universal.apk".to_owned()));
    }
    assert(out@.map_values(|a: UpdateAsset| asset_view(a)) =~= assets_spec(version@, os@, arch@));
    out
}

/// How a downloaded Linux package is started.
#[derive(Debug, Clone, Copy, PartialEq, Eq)]
pub enum LinuxInstall {
    /// Made executable and run.
    AppImage,
    /// Opened with the desktop, else installed with `pkexec dpkg -i`.
    Deb,
    /// Opened with the desktop, else installed with `pkexec rpm -U`.
    Rpm,
    /// Opened with the desktop.
    Open,
}

/// How the file `filename`, saved in `dir`, is started, by its extension.
pub open spec fn linux_install_spec(dir: Seq<char>, filename: Seq<char>) -> LinuxInstall {
    let ext = match path_extension(join_path(dir, filename)) {
        Some(e) => e,
        None => Seq::<char>::empty(),
    };
    if ext == "AppImage"@ {
        LinuxInstall::AppImage
    } else if ext == "deb"@ {
        LinuxInstall::Deb
    } else if ext == "rpm"@ {
        LinuxInstall::Rpm
    } else {
        LinuxInstall::Open
    }
}

pub fn linux_install(dir: &str, filename: &str) -> (r: LinuxInstall)
    ensures
        r == linux_install_spec(dir@, filename@),
{
    let path = join(dir, filename);
    let v = chars_of(path.as_str());
    let ghost e = match path_extension(join_path(dir@, filename@)) {
        Some(e) => e,
        None => Seq::<char>::empty(),
    };
    let ext: &[char] = match crate::path::extension_range(v.as_slice()) {
        Some((a, b)) => &v.as_slice()[a..b],
        None => {
            let empty = &v.as_slice()[0..0];
            assert(empty@ =~= Seq::<char>::empty());
            empty
        },
    };
    assert(ext@ == e);
    proof {
        reveal_strlit("AppImage");
        reveal_strlit("deb");
        reveal_strlit("rpm");
        assert("deb"@ != "AppImage"@) by {
            assert("deb"@.len() != "AppImage"@.len());
        }
        assert("rpm"@ != "AppImage"@) by {
            assert("rpm"@.len() != "AppImage"@.len());
        }
        assert("rpm"@ != "deb"@) by {
            assert("rpm"@[0] != "deb"@[0]);
        }
    }
    if eq_str(ext, "AppImage") {
        LinuxInstall::AppImage
    } else if eq_str(ext, "deb") {
        LinuxInstall::Deb
    } else if eq_str(ext, "rpm") {
        LinuxInstall::Rpm
    } else {
        LinuxInstall::Open
    }
}

} // verus!

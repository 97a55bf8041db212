use aura::update::{linux_install, update_assets, LinuxInstall};

#[test]
fn windows_offers_two_installers() {
    let assets = update_assets("1.2.3", "windows", "aarch64");
    assert_eq!(assets.len(), 2);
    assert_eq!(assets[0].filename, "Aura_1.2.3_arm64-setup.exe");
    assert_eq!(
        assets[0].url,
        "https://github.com/MakotoArai-CN/Aura/releases/download/v1.2.3/Aura_1.2.3_arm64-setup.exe"
    );
    assert_eq!(assets[1].label, "Windows arm64 安装包 (msi)");
}

#[test]
fn each_platform_gets_its_packages() {
    let mac = update_assets("2.0.0", "macos", "x86_64");
    assert_eq!(mac.len(), 1);
    assert_eq!(mac[0].label, "macOS Intel (dmg)");
    assert_eq!(mac[0].filename, "Aura_2.0.0_x64.dmg");
    let linux = update_assets("2.0.0", "linux", "x86_64");
    assert_eq!(linux.iter().map(|a| a.filename.as_str()).collect::<Vec<_>>(), vec![
        "Aura_2.0.0_amd64.AppImage",
        "Aura_2.0.0_amd64.deb",
        "Aura_2.0.0-1.x86_64.rpm"
    ]);
    let android = update_assets("2.0.0", "android", "riscv64");
    assert_eq!(android[0].filename, "aura-android-universal.apk");
    assert_eq!(android[1].label, "Android 通用");
    assert!(update_assets("2.0.0", "freebsd", "x86_64").is_empty());
}

#[test]
fn linux_packages_start_by_their_extension() {
    assert_eq!(linux_install("/tmp", "Aura_1_amd64.AppImage"), LinuxInstall::AppImage);
    assert_eq!(linux_install("/tmp", "Aura_1_amd64.deb"), LinuxInstall::Deb);
    assert_eq!(linux_install("/tmp", "Aura_1-1.x86_64.rpm"), LinuxInstall::Rpm);
    assert_eq!(linux_install("/tmp", "Aura.appimage"), LinuxInstall::Open);
}

#[test]
fn assets_are_the_release_files_they_are_saved_as() {
    for (os, arch) in [("windows", "x86_64"), ("macos", "aarch64"), ("linux", "x86_64"), ("android", "arm")] {
        let assets = update_assets("2.0.1", os, arch);
        assert!(!assets.is_empty());
        for asset in assets {
            assert_eq!(
                asset.url,
                format!("https://github.com/MakotoArai-CN/Aura/releases/download/v2.0.1/{}", asset.filename)
            );
        }
    }
    assert!(update_assets("2.0.1", "freebsd", "x86_64").is_empty());
}

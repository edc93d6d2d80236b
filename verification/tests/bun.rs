use dshl::config::MirrorMode;
use dshl::install::bun::{bun_download_url, bun_zip_target};
use dshl::mirror::MirrorConfig;
use dshl::platform::{Arch, Os};

fn mirror(bun_download: &str, github: &str, mode: MirrorMode) -> MirrorConfig {
    MirrorConfig {
        mode,
        npm: None,
        cargo: None,
        nodejs_release: None,
        bun_download: if bun_download.is_empty() { None } else { Some(bun_download.into()) },
        github: if github.is_empty() { None } else { Some(github.into()) },
    }
}

fn url(mirror: &MirrorConfig) -> String {
    bun_download_url(Os::Linux, Arch::X86_64, mirror)
}

fn target() -> String {
    bun_zip_target(Os::Linux, Arch::X86_64).to_string()
}

#[test]
fn install_bun_url_prefers_bun_download() {
    let url = url(&mirror("https://mirror.example/bun", "", MirrorMode::On));
    assert!(url.starts_with("https://mirror.example/bun/"));
    assert!(url.ends_with(target().as_str()));
}

#[test]
fn install_bun_url_uses_github_proxy_when_bun_download_empty() {
    let url = url(&mirror("", "https://ghproxy.example/", MirrorMode::On));
    assert!(url.starts_with(
        "https://ghproxy.example/https://github.com/oven-sh/bun/releases/latest/download/"
    ));
}

#[test]
fn install_bun_url_falls_back_to_direct_github() {
    let url = url(&mirror("", "", MirrorMode::On));
    assert_eq!(
        url,
        format!("https://github.com/oven-sh/bun/releases/latest/download/{}", target())
    );
}

#[test]
fn install_bun_url_ignores_mirrors_when_off() {
    let url = url(&mirror(
        "https://mirror.example/bun",
        "https://ghproxy.example/",
        MirrorMode::Off,
    ));
    assert_eq!(
        url,
        format!("https://github.com/oven-sh/bun/releases/latest/download/{}", target())
    );
}

fn mac_url(mirror: &MirrorConfig) -> String {
    bun_download_url(Os::Macos, Arch::Aarch64, mirror)
}

fn mac_target() -> String {
    bun_zip_target(Os::Macos, Arch::Aarch64).to_string()
}

#[test]
fn bun_bun_url_prefers_bun_download() {
    let url = mac_url(&mirror("https://mirror.example/bun", "", MirrorMode::On));
    assert!(url.starts_with("https://mirror.example/bun/"));
    assert!(url.ends_with(mac_target().as_str()));
}

#[test]
fn bun_bun_url_uses_github_proxy_when_bun_download_empty() {
    let url = mac_url(&mirror("", "https://ghproxy.example/", MirrorMode::On));
    assert!(url.starts_with(
        "https://ghproxy.example/https://github.com/oven-sh/bun/releases/latest/download/"
    ));
}

#[test]
fn bun_bun_url_falls_back_to_direct_github() {
    let url = mac_url(&mirror("", "", MirrorMode::On));
    assert_eq!(
        url,
        format!("https://github.com/oven-sh/bun/releases/latest/download/{}", mac_target())
    );
}

#[test]
fn bun_bun_url_ignores_mirrors_when_off() {
    let url = mac_url(&mirror(
        "https://mirror.example/bun",
        "https://ghproxy.example/",
        MirrorMode::Off,
    ));
    assert_eq!(
        url,
        format!("https://github.com/oven-sh/bun/releases/latest/download/{}", mac_target())
    );
}

#[test]
fn every_platform_has_its_archive() {
    assert_eq!(bun_zip_target(Os::Linux, Arch::X86_64), "bun-linux-x64.zip");
    assert_eq!(bun_zip_target(Os::Linux, Arch::Aarch64), "bun-linux-aarch64.zip");
    assert_eq!(bun_zip_target(Os::Linux, Arch::Other), "bun-linux-x64.zip");
}

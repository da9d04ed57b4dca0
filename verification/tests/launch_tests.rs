use mdview::launch::{
    file_url, is_markdown_extension, is_wsl_version, mentions_wsl, temp_file_name,
    FALLBACK_BROWSERS,
};

#[test]
fn wsl_kernel_is_recognised() {
    assert!(is_wsl_version("Linux version 5.15.90.1-microsoft-standard-WSL2 (gcc 11.2.0)"));
    assert!(is_wsl_version("Linux version 4.4.0-19041-Microsoft"));
    assert!(is_wsl_version("WSL"));
}

#[test]
fn other_kernels_are_not_wsl() {
    assert!(!is_wsl_version("Linux version 6.1.0-18-amd64 (debian-kernel@lists.debian.org)"));
    assert!(!is_wsl_version(""));
}

#[test]
fn mentions_wsl_needs_lowercase_text() {
    assert!(mentions_wsl("microsoft"));
    assert!(mentions_wsl("xwslx"));
    assert!(!mentions_wsl("MICROSOFT"));
}

#[test]
fn markdown_extensions() {
    assert!(is_markdown_extension("md"));
    assert!(is_markdown_extension("markdown"));
    assert!(!is_markdown_extension("MD"));
    assert!(!is_markdown_extension("txt"));
    assert!(!is_markdown_extension(""));
}

#[test]
fn temp_file_names() {
    assert_eq!(temp_file_name(0xff), "mdview_000000ff.html");
    assert_eq!(temp_file_name(0xdeadbeef), "mdview_deadbeef.html");
    assert_eq!(temp_file_name(0), "mdview_00000000.html");
    for id in [1u32, 0x1234_5678, u32::MAX, 42] {
        assert_eq!(temp_file_name(id), format!("mdview_{:08x}.html", id));
    }
}

#[test]
fn file_urls() {
    assert_eq!(file_url("/tmp/mdview_000000ff.html"), "file:///tmp/mdview_000000ff.html");
    assert_eq!(file_url(""), "file://");
}

#[test]
fn fallback_browsers_in_order() {
    assert_eq!(FALLBACK_BROWSERS, ["xdg-open", "firefox", "google-chrome", "chromium"]);
}

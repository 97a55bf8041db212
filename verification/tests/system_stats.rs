use aura::system_stats::{is_aura_webview, tally_usage, ProcessSample};

fn sample(pid: u32, parent: Option<u32>, name: &str, command: &str, memory: u64) -> ProcessSample {
    ProcessSample {
        pid,
        parent,
        name: name.to_string(),
        command: command.to_string(),
        memory,
    }
}

#[test]
fn child_webview_of_the_app_counts() {
    assert!(is_aura_webview("WebKitWebView", "", Some(10), 10));
    assert!(is_aura_webview("msedgewebview2.exe", "", Some(10), 10));
    assert!(!is_aura_webview("WebKitWebView", "", Some(11), 10));
    assert!(!is_aura_webview("WebKitWebView", "", None, 10));
    assert!(!is_aura_webview("helper", "", Some(10), 10));
}

#[test]
fn edge_webview_for_aura_counts_by_command_line() {
    assert!(is_aura_webview(
        "MSEdgeWebView2.exe",
        "--type=renderer --WebView-Exe-Name=Aura.exe",
        None,
        10
    ));
    assert!(!is_aura_webview(
        "msedgewebview2.exe",
        "--webview-exe-name=other.exe",
        None,
        10
    ));
}

#[test]
fn tally_counts_app_and_webviews_only() {
    let samples = vec![
        sample(10, None, "aura", "aura", 100),
        sample(11, Some(10), "WebKitWebView", "", 50),
        sample(12, Some(1), "bash", "bash", 7),
        sample(13, None, "msedgewebview2.exe", "--webview-exe-name=aura.exe", 25),
    ];
    assert_eq!(tally_usage(&samples, 10), (175, 3, 2));
    assert_eq!(tally_usage(&[], 10), (0, 0, 0));
}

#[test]
fn tally_memory_saturates() {
    let samples = vec![
        sample(10, None, "aura", "", u64::MAX - 1),
        sample(11, Some(10), "webview", "", 5),
    ];
    assert_eq!(tally_usage(&samples, 10), (u64::MAX, 2, 1));
}

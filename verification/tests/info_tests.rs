use morphic_tui::info::{adapter_from_output, adapters_from_listing, format_uptime, no_adapter_text};

#[test]
fn uptime_text() {
    assert_eq!(format_uptime(0), "0h 0m");
    assert_eq!(format_uptime(59), "0h 0m");
    assert_eq!(format_uptime(3 * 3600 + 25 * 60 + 10), "3h 25m");
    assert_eq!(format_uptime(86400 + 2 * 3600 + 3 * 60), "1d 2h 3m");
    assert_eq!(format_uptime(86400 * 400), "400d 0h 0m");
}

#[test]
fn adapter_listing() {
    let out = b"Name                      \r\nNVIDIA GeForce RTX 3080  \r\nIntel(R) UHD Graphics 630\r\n\r\n";
    assert_eq!(adapters_from_listing(out), Some("NVIDIA GeForce RTX 3080 | Intel(R) UHD Graphics 630".to_string()));
    assert_eq!(adapters_from_listing(b"Name\r\n\r\n"), None);
    assert_eq!(adapters_from_listing(b""), None);
    assert_eq!(adapters_from_listing(b"One"), Some("One".to_string()));
}

#[test]
fn single_adapter_output() {
    assert_eq!(adapter_from_output(b"  NVIDIA A100\n"), Some("NVIDIA A100".to_string()));
    assert_eq!(adapter_from_output(b" \n "), None);
    assert_eq!(adapter_from_output(b"GPU \xff"), Some("GPU \u{fffd}".to_string()));
    assert_eq!(no_adapter_text(), "未检测到独立显卡");
}

#[test]
fn slow_refresh_every_five_seconds() {
    assert!(!morphic_tui::info::slow_refresh_due(0));
    assert!(!morphic_tui::info::slow_refresh_due(4999));
    assert!(morphic_tui::info::slow_refresh_due(5000));
    assert!(morphic_tui::info::slow_refresh_due(u64::MAX));
}

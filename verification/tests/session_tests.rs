use sneaker_core::session::{
    browser_choice, browser_name, file_not_found_message, free_port_or_fallback,
    import_mode, import_temp_file_name, launcher_store_dir, parse_port, port_file_path,
    port_text, requested_port, session_json, shell_store_dir, store_dir_name_text, BrowserChoice,
    ImportModeChoice, LauncherStoreDir, ShellStoreDir,
};
use sneaker_core::text::decimal_string;

#[test]
fn ports_parse_like_std() {
    for t in ["80", "+80", "0", "65535", "0008080", "65536", "", "+", "-1", " 80", "80 ", "8o", "++1"] {
        assert_eq!(parse_port(t), t.parse::<u16>().ok(), "{t:?}");
    }
    assert_eq!(requested_port(Some(3000), Some("9")), Some(3000));
    assert_eq!(requested_port(None, Some("9")), Some(9));
    assert_eq!(requested_port(None, Some("x")), None);
    assert_eq!(requested_port(None, None), None);
    assert_eq!(free_port_or_fallback(None), 8080);
    assert_eq!(free_port_or_fallback(Some(1234)), 1234);
}

#[test]
fn every_port_reads_back() {
    for p in 0..=u16::MAX {
        assert_eq!(parse_port(&port_text(p)), Some(p));
    }
}

#[test]
fn decimal_text() {
    for n in [0u64, 7, 10, 99, 100, 65535, u64::MAX] {
        assert_eq!(decimal_string(n), n.to_string());
    }
}

#[test]
fn session_names() {
    assert_eq!(port_file_path("abc"), "/tmp/walking-viewer.abc.sneakerweb.port");
    assert_eq!(
        session_json("u-1", 4000, 4001),
        r#"{"uuid":"u-1","sneakerwebPort":4000,"apiPort":4001}"#
    );
    assert_eq!(import_temp_file_name("x"), "sneakerweb-import-x.snk");
    assert_eq!(store_dir_name_text(), ".sneakerweb_store");
    assert_eq!(browser_name(), "sneaker-reader");
    assert_eq!(file_not_found_message("/a b"), "File not found: /a b");
}

#[test]
fn import_modes() {
    assert_eq!(import_mode(Some("all")), ImportModeChoice::All);
    assert_eq!(import_mode(Some("familiar")), ImportModeChoice::Familiar);
    assert_eq!(import_mode(Some("ALL")), ImportModeChoice::Default);
    assert_eq!(import_mode(None), ImportModeChoice::Default);
}

#[test]
fn store_directories() {
    assert_eq!(launcher_store_dir(true, true), LauncherStoreDir::FromCommandLine);
    assert_eq!(launcher_store_dir(false, true), LauncherStoreDir::KeepEnvironment);
    assert_eq!(launcher_store_dir(false, false), LauncherStoreDir::InWorkingDirectory);
    assert_eq!(shell_store_dir(true, false), ShellStoreDir::FromEnvironment);
    assert_eq!(shell_store_dir(false, true), ShellStoreDir::InWorkingDirectory);
    assert_eq!(shell_store_dir(false, false), ShellStoreDir::Relative);
}

#[test]
fn browser_search_order() {
    assert_eq!(browser_choice(Some(true), None, false), BrowserChoice::FromCommandLine);
    assert_eq!(browser_choice(Some(false), None, true), BrowserChoice::NotFound);
    assert_eq!(browser_choice(None, Some(true), true), BrowserChoice::NextToExecutable);
    assert_eq!(browser_choice(Some(false), Some(false), true), BrowserChoice::InWorkingDirectory);
    assert_eq!(browser_choice(None, Some(false), false), BrowserChoice::NotFound);
}

use server_probe::launch::{
    contains_str, credential_settings, credentials_from_args, find_credentials, parse_minecraft_args,
};
use server_probe::monitor::Monitor;
use server_probe::settings::{Settings, SettingsError};

fn strings(v: &[&str]) -> Vec<String> {
    v.iter().map(|s| s.to_string()).collect()
}

#[test]
fn parse_reads_records() {
    let bytes = b"a\x1f1\x1eb\x1f2\x1e".to_vec();
    let s = Settings::parse_bytes(&bytes, "f".to_string()).unwrap();
    assert_eq!(s.get("a"), Some(&"1".to_string()));
    assert_eq!(s.get("b"), Some(&"2".to_string()));
    assert_eq!(s.get("c"), None);
    assert_eq!(s.file_path, "f");
}

#[test]
fn parse_skips_malformed_and_unterminated_records() {
    let bytes = b"\x1e\x1enokey\x1ea\x1fb\x1fc\x1ek\x1fv\x1etail\x1fx".to_vec();
    let s = Settings::parse_bytes(&bytes, String::new()).unwrap();
    assert_eq!(s.get("k"), Some(&"v".to_string()));
    assert_eq!(s.get("a"), None);
    assert_eq!(s.get("nokey"), None);
    assert_eq!(s.get("tail"), None);
}

#[test]
fn later_record_wins() {
    let bytes = b"k\x1f1\x1ek\x1f2\x1e".to_vec();
    let s = Settings::parse_bytes(&bytes, String::new()).unwrap();
    assert_eq!(s.get("k"), Some(&"2".to_string()));
}

#[test]
fn invalid_utf8_record_is_a_parse_error() {
    let bytes = vec![b'k', 0x1f, 0xff, 0x1e];
    assert!(matches!(Settings::parse_bytes(&bytes, String::new()), Err(SettingsError::Parse(_))));
}

#[test]
fn set_and_encode_round_trip() {
    let mut s = Settings::new("p".to_string());
    s.set("k".to_string(), "v".to_string());
    s.set("x".to_string(), "é".to_string());
    s.set("k".to_string(), "w".to_string());
    assert_eq!(s.get("k"), Some(&"w".to_string()));
    let bytes = s.to_bytes();
    assert_eq!(bytes, "k\u{1f}w\u{1e}x\u{1f}é\u{1e}".as_bytes().to_vec());
    let back = Settings::parse_bytes(&bytes, "p".to_string()).unwrap();
    assert_eq!(back.get("k"), Some(&"w".to_string()));
    assert_eq!(back.get("x"), Some(&"é".to_string()));
}

#[test]
fn launch_args_are_read() {
    let cmd = strings(&["javaw", "--uuid", "u1", "--accessToken", "t1", "--username", "steve", "--demo", "--gameDir", "/g"]);
    let args = parse_minecraft_args(&cmd).unwrap();
    assert_eq!(args.get("uuid"), Some(&"u1".to_string()));
    assert_eq!(args.get("accessToken"), Some(&"t1".to_string()));
    assert_eq!(args.get("username"), Some(&"steve".to_string()));
    assert_eq!(args.get("demo"), None);
    assert_eq!(args.get("gameDir"), Some(&"/g".to_string()));
    assert!(args.contains_key("uuid"));
}

#[test]
fn launch_args_need_credentials() {
    let cmd = strings(&["--uuid", "u1", "--username", "steve"]);
    assert!(parse_minecraft_args(&cmd).is_none());
}

#[test]
fn credentials_default_to_empty() {
    let cmd = strings(&["--uuid", "u1", "--accessToken", "t1", "--username", "steve", "--xuid", "x9"]);
    let c = credentials_from_args(&parse_minecraft_args(&cmd).unwrap());
    assert_eq!(c.uuid, "u1");
    assert_eq!(c.access_token, "t1");
    assert_eq!(c.username, "steve");
    assert_eq!(c.xuid, "x9");
    assert_eq!(c.game_dir, "");
    assert_eq!(c.client_id, "");
    assert_eq!(c.user_type, "");
    let entries = credential_settings(&c);
    assert_eq!(entries.len(), 7);
    assert_eq!(entries[0], ("minecraft_uuid".to_string(), "u1".to_string()));
    assert_eq!(entries[1], ("minecraft_access_token".to_string(), "t1".to_string()));
    assert_eq!(entries[5], ("minecraft_xuid".to_string(), "x9".to_string()));
    assert_eq!(entries[6], ("minecraft_user_type".to_string(), String::new()));
}

#[test]
fn first_client_process_is_found() {
    let good = strings(&["--uuid", "u", "--accessToken", "t", "--username", "n"]);
    let other = strings(&["--uuid", "v", "--accessToken", "t", "--username", "m"]);
    let procs = vec![
        ("java.exe".to_string(), good.clone()),
        ("javaw.exe".to_string(), strings(&["--uuid", "z"])),
        ("javaw.exe".to_string(), good),
        ("javaw".to_string(), other),
    ];
    assert_eq!(find_credentials(&procs).unwrap().uuid, "u");
    assert!(find_credentials(&procs[..2].to_vec()).is_none());
}

#[test]
fn substring_search() {
    assert!(contains_str("javaw.exe", "javaw"));
    assert!(contains_str("xjavaw", "javaw"));
    assert!(!contains_str("java", "javaw"));
    assert!(contains_str("abc", ""));
}

#[test]
fn monitor_lifecycle() {
    let mut m = Monitor::new();
    assert!(!m.is_running());
    assert!(m.start());
    assert!(!m.start());
    assert!(m.is_running());
    assert!(m.after_poll(false));
    assert!(!m.after_poll(true));
    assert!(!m.is_running());
    assert!(m.start());
    m.stop();
    assert!(!m.after_poll(false));
}

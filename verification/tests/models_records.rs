use llama_launch::config::Config;
use llama_launch::models::{hhmmss_from_secs, local_hhmmss, unique_id_from, LogEntry, ModelConfig};

#[test]
fn clock_text_of_seconds() {
    assert_eq!(hhmmss_from_secs(0), "00:00:00");
    assert_eq!(hhmmss_from_secs(3661), "01:01:01");
    assert_eq!(hhmmss_from_secs(86399), "23:59:59");
    assert_eq!(hhmmss_from_secs(86400 + 45296), "12:34:56");
    assert_eq!(hhmmss_from_secs(u64::MAX), "07:00:15");
}

#[test]
fn current_clock_text_has_its_shape() {
    let t = local_hhmmss();
    let b = t.as_bytes();
    assert_eq!(b.len(), 8);
    assert_eq!(b[2], b':');
    assert_eq!(b[5], b':');
    assert!(b[0] <= b'2' && b[3] <= b'5' && b[6] <= b'5');
    for i in [0, 1, 3, 4, 6, 7] {
        assert!(b[i].is_ascii_digit());
    }
}

#[test]
fn display_line_format() {
    let e = LogEntry { timestamp: "12:00:05".to_string(), message: "hello".to_string() };
    assert_eq!(e.display_line(), "[12:00:05] hello");
}

#[test]
fn new_entry_keeps_the_message() {
    let e = LogEntry::new("model loaded".to_string());
    assert_eq!(e.message, "model loaded");
    assert_eq!(e.timestamp.len(), 8);
    assert_eq!(e.display_line(), format!("[{}] model loaded", e.timestamp));
}

#[test]
fn unique_id_is_two_hex_numbers() {
    assert_eq!(unique_id_from(255, 16), "ff10");
    assert_eq!(unique_id_from(0, 0), "00");
    assert_eq!(unique_id_from(u64::MAX, 0xabc), "ffffffffffffffffabc");
    assert_eq!(unique_id_from(0x1234, 5), format!("{:x}{:x}", 0x1234, 5));
}

#[test]
fn fresh_unique_ids_are_hex() {
    let id = ModelConfig::new_unique_id();
    assert!(id.len() >= 2);
    assert!(id.chars().all(|c| c.is_ascii_hexdigit() && !c.is_ascii_uppercase()));
}

#[test]
fn model_clone_is_equal() {
    let m = ModelConfig {
        id: "i".to_string(),
        name: "n".to_string(),
        description: "d".to_string(),
        args: "a".to_string(),
    };
    let c = m.clone();
    assert_eq!((c.id, c.name, c.description, c.args), (m.id, m.name, m.description, m.args));
}

#[test]
fn default_config() {
    let c = Config::default();
    assert_eq!(c.llama_server_path, "./llama-server.exe");
    assert!(c.models.is_empty());
    let d = c.clone();
    assert_eq!(d.llama_server_path, c.llama_server_path);
}

#[test]
fn stamped_entry_uses_the_given_clock() {
    let e = LogEntry::stamped("ready".to_string(), 13 * 3600 + 5 * 60 + 9);
    assert_eq!(e.display_line(), "[13:05:09] ready");
}

use llama_launch::models::{LogEntry, ModelConfig};
use llama_launch::session::{ProcessStatus, Session, StartError, MAX_LOG_LINES};

fn model(id: &str, name: &str, args: &str) -> ModelConfig {
    ModelConfig { id: id.to_string(), name: name.to_string(), description: "desc".to_string(), args: args.to_string() }
}

fn entry(m: &str) -> LogEntry {
    LogEntry { timestamp: "00:00:00".to_string(), message: m.to_string() }
}

fn lines(n: usize, tag: &str) -> Vec<String> {
    (0..n).map(|i| format!("{}{}", tag, i)).collect()
}

#[test]
fn fresh_session() {
    let s = Session::new();
    assert!(!s.is_running());
    assert!(s.auto_scroll && !s.open_settings && !s.stop_requested && !s.exit_dialog_shown);
    assert!(s.model_logs.is_empty());
}

#[test]
fn start_plan_for_a_known_model() {
    let s = Session::new();
    let models = vec![model("a", "A", "--model a.gguf -c 512"), model("b", "B", "-x")];
    let plan = s.plan_start(&models, "a", true).unwrap();
    assert_eq!(plan.model.name, "A");
    assert_eq!(plan.args, vec!["--model", "a.gguf", "-c", "512"]);
}

#[test]
fn start_takes_the_first_model_with_the_id() {
    let s = Session::new();
    let models = vec![model("a", "First", "-1"), model("a", "Second", "-2")];
    assert_eq!(s.plan_start(&models, "a", true).unwrap().model.name, "First");
}

#[test]
fn start_refusals_in_order() {
    let mut s = Session::new();
    let models = vec![model("a", "A", "   "), model("b", "B", "-x")];
    assert!(matches!(s.plan_start(&models, "zz", false), Err(StartError::ModelNotFound)));
    assert!(matches!(s.plan_start(&models, "a", false), Err(StartError::ServerNotFound)));
    match s.plan_start(&models, "a", true) {
        Err(StartError::NoArgs(n)) => assert_eq!(n, "A"),
        _ => panic!("expected NoArgs"),
    }
    s.model_started("b");
    assert!(matches!(s.plan_start(&models, "zz", false), Err(StartError::AlreadyRunning)));
}

#[test]
fn started_then_stopped() {
    let mut s = Session::new();
    s.model_logs.push(entry("old"));
    s.model_started("b");
    assert_eq!(s.active_model_id.as_deref(), Some("b"));
    assert!(s.model_logs.is_empty());
    s.model_logs.push(entry("x"));
    s.stop_requested = true;
    assert!(s.stop_current_model());
    assert!(s.active_model_id.is_none() && s.model_logs.is_empty() && !s.stop_requested);
    assert!(!s.stop_current_model());
}

#[test]
fn log_lines_are_appended_with_stamps() {
    let mut s = Session::new();
    s.append_log_lines(&lines(3, "l"), 3600 * 25 + 61);
    assert_eq!(s.model_logs.len(), 3);
    assert_eq!(s.model_logs[2].message, "l2");
    assert_eq!(s.model_logs[0].timestamp, "01:01:01");
    s.append_log_lines(&vec![], 0);
    assert_eq!(s.model_logs.len(), 3);
}

#[test]
fn panel_below_the_cap_keeps_all_old_lines() {
    let mut s = Session::new();
    s.model_logs = (0..1990).map(|i| entry(&format!("o{}", i))).collect();
    s.append_log_lines(&lines(100, "n"), 0);
    assert_eq!(s.model_logs.len(), 2090);
    assert_eq!(s.model_logs[0].message, "o0");
    assert_eq!(s.model_logs[1990].message, "n0");
}

#[test]
fn panel_above_the_cap_drops_its_oldest_lines() {
    let mut s = Session::new();
    s.model_logs = (0..2090).map(|i| entry(&format!("o{}", i))).collect();
    s.append_log_lines(&lines(1, "n"), 0);
    assert_eq!(s.model_logs.len(), MAX_LOG_LINES + 1);
    assert_eq!(s.model_logs[0].message, "o90");
    assert_eq!(s.model_logs[MAX_LOG_LINES].message, "n0");
}

#[test]
fn update_releases_an_exited_process() {
    let mut s = Session::new();
    s.model_started("a");
    let u = s.update_logs(&lines(2, "x"), ProcessStatus::Running, 0);
    assert!(u.repaint && !u.release_process);
    assert!(s.is_running());
    let u = s.update_logs(&vec![], ProcessStatus::Exited, 0);
    assert!(u.repaint && u.release_process);
    assert!(!s.is_running());
    assert_eq!(s.model_logs.len(), 2);
    let u = s.update_logs(&vec![], ProcessStatus::Exited, 0);
    assert!(!u.repaint && !u.release_process);
}

#[test]
fn failed_check_releases_the_process() {
    let mut s = Session::new();
    s.model_started("a");
    let u = s.update_logs(&vec![], ProcessStatus::CheckFailed, 0);
    assert!(u.release_process);
    assert!(!s.is_running());
}

#[test]
fn close_while_running_asks_first() {
    let mut s = Session::new();
    s.model_started("a");
    let a = s.on_frame(true);
    assert!(a.cancel_close && !a.stop_process);
    assert!(s.exit_dialog_shown);
    let a = s.on_frame(true);
    assert!(!a.cancel_close);
    s.dismiss_exit();
    assert!(!s.exit_dialog_shown && s.is_running());
    assert!(s.confirm_exit());
    assert!(!s.is_running());
}

#[test]
fn close_while_idle_is_allowed() {
    let mut s = Session::new();
    let a = s.on_frame(true);
    assert!(!a.cancel_close && !s.exit_dialog_shown);
}

#[test]
fn stop_request_is_carried_out_on_the_next_frame() {
    let mut s = Session::new();
    s.model_started("a");
    s.stop_requested = true;
    let a = s.on_frame(false);
    assert!(a.stop_process);
    assert!(!s.is_running() && !s.stop_requested);
}

#[test]
fn panel_shows_at_most_two_hundred_lines() {
    let mut s = Session::new();
    s.model_logs = (0..250).map(|i| entry(&format!("m{}", i))).collect();
    let v = s.visible_log_lines();
    assert_eq!(v.len(), 200);
    assert_eq!(v[0], "[00:00:00] m50");
    assert_eq!(v[199], "[00:00:00] m249");
    s.model_logs.truncate(3);
    assert_eq!(s.visible_log_lines().len(), 3);
}

#[test]
fn cards_mark_the_running_model() {
    let mut s = Session::new();
    let models = vec![model("a", "A", "-x"), model("b", "B", "-y")];
    let cards = s.model_cards(&models);
    assert!(cards.iter().all(|c| !c.is_active));
    s.model_started("b");
    let cards = s.model_cards(&models);
    assert_eq!(cards.len(), 2);
    assert!(!cards[0].is_active && cards[1].is_active);
    assert_eq!((cards[1].name.as_str(), cards[1].description.as_str(), cards[1].model_id.as_str()), ("B", "desc", "b"));
}

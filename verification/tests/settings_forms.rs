use llama_launch::config::Config;
use llama_launch::models::ModelConfig;
use llama_launch::ui::settings::{model_id_from, AddModelForm, EditModelForm, FormError, SettingsClicks, SettingsState};

fn model(id: &str, name: &str, args: &str) -> ModelConfig {
    ModelConfig { id: id.to_string(), name: name.to_string(), description: String::new(), args: args.to_string() }
}

fn state(models: Vec<ModelConfig>) -> SettingsState {
    let config = Config { llama_server_path: "srv".to_string(), models };
    SettingsState::from_config(&config)
}

fn add_form(name: &str, description: &str, args: &str) -> AddModelForm {
    AddModelForm { name: name.to_string(), description: description.to_string(), args: args.to_string() }
}

fn edit_form(name: &str, description: &str, args: &str) -> EditModelForm {
    EditModelForm { name: name.to_string(), description: description.to_string(), args: args.to_string() }
}

fn names(s: &SettingsState) -> Vec<String> {
    s.models.iter().map(|m| m.name.clone()).collect()
}

#[test]
fn new_add_form_is_empty() {
    let f = AddModelForm::new();
    assert!(f.name.is_empty() && f.description.is_empty() && f.args.is_empty());
}

#[test]
fn edit_form_takes_the_model_fields() {
    let m = ModelConfig { id: "x".into(), name: "N".into(), description: "D".into(), args: "-c 1".into() };
    let f = EditModelForm::from_model(&m);
    assert_eq!((f.name, f.description, f.args), ("N".to_string(), "D".to_string(), "-c 1".to_string()));
}

#[test]
fn model_ids_are_decimal() {
    assert_eq!(model_id_from(0), "model_0");
    assert_eq!(model_id_from(42), "model_42");
    assert_eq!(model_id_from(u32::MAX), "model_4294967295");
}

#[test]
fn accepted_add_trims_and_appends() {
    let mut s = state(vec![model("a", "A", "-x")]);
    let r = s.add_model_with_id(&add_form("  Llama 3 ", " fast\n", " --model l3.gguf "), model_id_from(7));
    assert!(r.is_ok());
    assert_eq!(s.models.len(), 2);
    let m = &s.models[1];
    assert_eq!(m.id, "model_7");
    assert_eq!(m.name, "Llama 3");
    assert_eq!(m.description, "fast");
    assert_eq!(m.args, "--model l3.gguf");
    assert_eq!(s.models[0].name, "A");
}

#[test]
fn add_with_random_id() {
    let mut s = state(vec![]);
    assert!(s.add_model(&add_form("M", "", "-c 1")).is_ok());
    assert!(s.models[0].id.starts_with("model_"));
    assert!(s.models[0].id[6..].chars().all(|c| c.is_ascii_digit()));
}

#[test]
fn add_refuses_empty_name_or_blank_args() {
    let mut s = state(vec![]);
    assert!(matches!(s.add_model_with_id(&add_form("", "", "-c 1"), model_id_from(1)), Err(FormError::EmptyFields)));
    assert!(matches!(s.add_model_with_id(&add_form("M", "", "  \t"), model_id_from(1)), Err(FormError::EmptyFields)));
    assert!(matches!(s.add_model_with_id(&add_form("   ", "", "  "), model_id_from(1)), Err(FormError::EmptyFields)));
    assert!(s.models.is_empty());
}

#[test]
fn add_refuses_whitespace_name() {
    let mut s = state(vec![]);
    assert!(matches!(s.add_model_with_id(&add_form("   ", "", "-c 1"), model_id_from(1)), Err(FormError::BlankName)));
    assert!(s.models.is_empty());
}

#[test]
fn add_refuses_duplicate_trimmed_name() {
    let mut s = state(vec![model("a", "Mistral", "-x")]);
    match s.add_model_with_id(&add_form(" Mistral  ", "", "-c 1"), model_id_from(1)) {
        Err(FormError::DuplicateName(n)) => assert_eq!(n, "Mistral"),
        other => panic!("unexpected {:?}", other),
    }
    assert_eq!(s.models.len(), 1);
}

#[test]
fn edit_keeps_the_id_and_trims() {
    let mut s = state(vec![model("a", "A", "-x"), model("b", "B", "-y")]);
    assert!(s.save_edit(1, &edit_form(" B2 ", " d ", " -z ")).is_ok());
    assert_eq!(s.models[1].id, "b");
    assert_eq!(s.models[1].name, "B2");
    assert_eq!(s.models[1].description, "d");
    assert_eq!(s.models[1].args, "-z");
    assert_eq!(s.models[0].name, "A");
}

#[test]
fn edit_may_keep_its_own_name() {
    let mut s = state(vec![model("a", "A", "-x"), model("b", "B", "-y")]);
    assert!(s.save_edit(0, &edit_form("A", "", "-q")).is_ok());
    assert_eq!(s.models[0].args, "-q");
}

#[test]
fn edit_refuses_another_models_name() {
    let mut s = state(vec![model("a", "A", "-x"), model("b", "B", "-y")]);
    match s.save_edit(0, &edit_form("B", "", "-q")) {
        Err(FormError::DuplicateName(n)) => assert_eq!(n, "B"),
        other => panic!("unexpected {:?}", other),
    }
    assert_eq!(s.models[0].args, "-x");
}

#[test]
fn refused_edit_with_stale_position_does_not_panic() {
    let mut s = state(vec![model("a", "A", "-x")]);
    assert!(matches!(s.save_edit(5, &edit_form("", "", "")), Err(FormError::EmptyFields)));
    assert!(matches!(s.save_edit(5, &edit_form("  ", "", "-x")), Err(FormError::BlankName)));
}

#[test]
fn unchanged_edit_keeps_the_library() {
    let mut s = state(vec![model("a", "A", "-x"), model("b", "B", "-y")]);
    let f = EditModelForm::from_model(&s.models[1]);
    assert!(s.save_edit(1, &f).is_ok());
    assert_eq!(names(&s), vec!["A", "B"]);
    assert_eq!(s.models[1].args, "-y");
    assert_eq!(s.models[1].id, "b");
}

#[test]
fn delete_removes_the_listed_positions() {
    let mut s = state(vec![model("a", "A", "1"), model("b", "B", "2"), model("c", "C", "3"), model("d", "D", "4")]);
    s.delete_models(&vec![0, 2]);
    assert_eq!(names(&s), vec!["B", "D"]);
    s.delete_models(&vec![]);
    assert_eq!(names(&s), vec!["B", "D"]);
    s.delete_models(&vec![0, 1]);
    assert!(s.models.is_empty());
}

#[test]
fn names_stay_unique_through_adds_and_edits() {
    let mut s = state(vec![]);
    let _ = s.add_model_with_id(&add_form("A", "", "1"), model_id_from(1));
    let _ = s.add_model_with_id(&add_form("B", "", "1"), model_id_from(2));
    let _ = s.add_model_with_id(&add_form(" A", "", "1"), model_id_from(3));
    let _ = s.save_edit(1, &edit_form("A", "", "1"));
    let n = names(&s);
    assert_eq!(n, vec!["A", "B"]);
}

#[test]
fn one_form_at_a_time() {
    let mut s = state(vec![model("a", "A", "-x")]);
    s.open_edit_form(0);
    assert!(s.edit_model_form.is_some());
    s.open_add_form();
    assert!(s.edit_model_form.is_none());
    assert!(s.add_model_form.is_some());
    s.close_add_form();
    assert!(s.add_model_form.is_none());
}

#[test]
fn open_edit_form_keeps_an_open_one() {
    let mut s = state(vec![model("a", "A", "-x"), model("b", "B", "-y")]);
    s.open_edit_form(1);
    s.open_edit_form(0);
    let (i, f) = s.edit_model_form.clone().unwrap();
    assert_eq!(i, 1);
    assert_eq!(f.name, "B");
    s.close_edit_form();
    assert!(s.edit_model_form.is_none());
}

#[test]
fn config_round_trip() {
    let s = state(vec![model("a", "A", "-x")]);
    let c = s.to_config();
    assert_eq!(c.llama_server_path, "srv");
    assert_eq!(c.models.len(), 1);
    let mut other = Config::default();
    s.store_models(&mut other);
    assert_eq!(other.llama_server_path, "./llama-server.exe");
    assert_eq!(other.models[0].name, "A");
}

#[test]
fn fresh_ids_are_new() {
    let mut s = state(vec![model("model_1", "A", "-x"), model("model_2", "B", "-y")]);
    for k in 0..20 {
        let id = s.fresh_model_id();
        assert!(id.starts_with("model_"));
        assert!(s.models.iter().all(|m| m.id != id));
        let _ = s.add_model(&add_form(&format!("M{}", k), "", "-c 1"));
    }
    let mut ids: Vec<String> = s.models.iter().map(|m| m.id.clone()).collect();
    ids.sort();
    ids.dedup();
    assert_eq!(ids.len(), 22);
}

#[test]
fn check_add_reports_without_changing() {
    let s = state(vec![model("a", "A", "-x")]);
    assert!(matches!(s.check_add(&add_form("A", "", "-c")), llama_launch::ui::settings::FormCheck::DuplicateName));
    assert!(matches!(s.check_add(&add_form("B", "", "-c")), llama_launch::ui::settings::FormCheck::Accepted));
    assert_eq!(s.models.len(), 1);
}

#[test]
fn delete_keeps_names_distinct() {
    let mut s = state(vec![model("a", "A", "1"), model("b", "B", "2"), model("c", "C", "3")]);
    s.delete_models(&vec![1]);
    assert_eq!(names(&s), vec!["A", "C"]);
}

#[test]
fn fresh_id_has_no_suffix_when_free() {
    let s = state(vec![model("x", "A", "-x")]);
    let id = s.fresh_model_id();
    assert!(id[6..].chars().all(|c| c.is_ascii_digit()));
}

fn no_clicks() -> SettingsClicks {
    SettingsClicks {
        delete: Vec::new(),
        edit: None,
        open_add: false,
        add: false,
        cancel_add: false,
        save_edit: false,
        cancel_edit: false,
        save_all: false,
    }
}

#[test]
fn frame_without_clicks_changes_nothing() {
    let mut s = state(vec![model("a", "A", "-x")]);
    let mut config = Config::default();
    let c = no_clicks();
    assert!(s.frame_can_run(&c));
    let r = s.apply_frame(&c, &mut config);
    assert!(!r.save && r.add_error.is_none() && r.edit_error.is_none());
    assert_eq!(names(&s), vec!["A"]);
    assert!(config.models.is_empty());
}

#[test]
fn frame_adds_and_stores() {
    let mut s = state(vec![model("a", "A", "-x")]);
    s.add_model_form = Some(add_form(" B ", "", "-y"));
    let mut config = Config::default();
    let mut c = no_clicks();
    c.add = true;
    let r = s.apply_frame(&c, &mut config);
    assert!(r.save && r.add_error.is_none());
    assert_eq!(names(&s), vec!["A", "B"]);
    assert_eq!(config.models.len(), 2);
    assert_eq!(config.llama_server_path, "./llama-server.exe");
    assert!(s.add_model_form.is_some());
}

#[test]
fn frame_reports_a_refused_add() {
    let mut s = state(vec![model("a", "A", "-x")]);
    s.add_model_form = Some(add_form("A", "", "-y"));
    let mut config = Config::default();
    let mut c = no_clicks();
    c.add = true;
    let r = s.apply_frame(&c, &mut config);
    assert!(!r.save);
    assert!(matches!(r.add_error, Some(FormError::DuplicateName(_))));
    assert_eq!(s.models.len(), 1);
}

#[test]
fn frame_opening_add_closes_edit() {
    let mut s = state(vec![model("a", "A", "-x")]);
    let mut config = Config::default();
    let mut c = no_clicks();
    c.edit = Some(0);
    s.apply_frame(&c, &mut config);
    assert!(s.edit_model_form.is_some());
    let mut c = no_clicks();
    c.open_add = true;
    s.apply_frame(&c, &mut config);
    assert!(s.edit_model_form.is_none() && s.add_model_form.is_some());
    let mut c = no_clicks();
    c.edit = Some(0);
    s.apply_frame(&c, &mut config);
    assert!(s.edit_model_form.is_some() && s.add_model_form.is_none());
}

#[test]
fn frame_edit_save_stores_even_when_refused() {
    let mut s = state(vec![model("a", "A", "-x"), model("b", "B", "-y")]);
    s.edit_model_form = Some((1, edit_form("A", "", "-z")));
    let mut config = Config::default();
    let mut c = no_clicks();
    c.save_edit = true;
    let r = s.apply_frame(&c, &mut config);
    assert!(r.save);
    assert!(matches!(r.edit_error, Some(FormError::DuplicateName(_))));
    assert_eq!(config.models.len(), 2);
    assert!(s.edit_model_form.is_some());
}

#[test]
fn frame_deletes_then_saves_everything() {
    let mut s = state(vec![model("a", "A", "1"), model("b", "B", "2"), model("c", "C", "3")]);
    s.llama_server_path = "/opt/srv".to_string();
    let mut config = Config::default();
    let mut c = no_clicks();
    c.delete = vec![0, 2];
    c.save_all = true;
    let r = s.apply_frame(&c, &mut config);
    assert!(r.save);
    assert_eq!(names(&s), vec!["B"]);
    assert_eq!(config.llama_server_path, "/opt/srv");
    assert_eq!(config.models.len(), 1);
}

#[test]
fn frame_with_a_stale_accepted_edit_cannot_run() {
    let mut s = state(vec![model("a", "A", "1")]);
    s.edit_model_form = Some((3, edit_form("Z", "", "-q")));
    let mut c = no_clicks();
    c.save_edit = true;
    assert!(!s.frame_can_run(&c));
    s.edit_model_form = Some((3, edit_form("", "", "")));
    assert!(s.frame_can_run(&c));
    let mut c = no_clicks();
    c.delete = vec![0];
    c.edit = Some(0);
    s.edit_model_form = None;
    assert!(!s.frame_can_run(&c));
}

use baiban::config::{Settings, Template};
use baiban::create::{CreateError, CreateEvent, CreateFlow, CreateOutcome, CreateStage};

fn tpl(name: &str, repo: &str) -> Template {
    Template {
        name: name.to_string(),
        description: String::new(),
        repository: repo.to_string(),
        branch: "main".to_string(),
        tags: Vec::new(),
    }
}

fn joined(base: &str, component: &str) -> String {
    std::path::Path::new(base).join(component).to_string_lossy().into_owned()
}

fn builtin() -> Vec<Template> {
    vec![tpl("react-admin", "https://github.com/qwepoih2/react-template-admin")]
}

fn builtin_settings() -> Option<Settings> {
    Some(Settings { mirror: Some("https://ghfast.top/".to_string()) })
}

#[test]
fn create_with_all_options_given() {
    let mut flow = CreateFlow::new(
        Some("my-app".to_string()),
        Some("react-admin".to_string()),
        Some("~/projects".to_string()),
        None,
        true,
    );
    assert!(matches!(&flow.stage, CreateStage::LoadingTemplates { project_name } if project_name == "my-app"));
    flow.step(CreateEvent::TemplatesLoaded { builtin: builtin(), user: Vec::new() });
    // --yes skips the confirmation
    assert!(matches!(&flow.stage, CreateStage::LoadingSettings { template, .. } if template.name == "react-admin"));
    flow.step(CreateEvent::SettingsLoaded { user_settings: Some(Settings { mirror: None }), builtin_settings: builtin_settings() });
    match &flow.stage {
        CreateStage::Cloning { project_name, template, target, mirror } => {
            assert_eq!(project_name, "my-app");
            assert_eq!(template.name, "react-admin");
            assert_eq!(target, &joined("~/projects", "my-app"));
            assert_eq!(mirror.as_deref(), Some("https://ghfast.top/"));
        }
        other => panic!("unexpected {:?}", other),
    }
    flow.step(CreateEvent::Cloned);
    assert!(matches!(&flow.stage, CreateStage::PostProcessing { target, .. } if *target == joined("~/projects", "my-app")));
    flow.step(CreateEvent::PostProcessed);
    assert!(matches!(&flow.stage, CreateStage::Locating { .. }));
    flow.step(CreateEvent::Located("/home/u/projects/my-app".to_string()));
    match &flow.stage {
        CreateStage::Finished(Ok(CreateOutcome::Created { project_name, path })) => {
            assert_eq!(project_name, "my-app");
            assert_eq!(path, "/home/u/projects/my-app");
        }
        other => panic!("unexpected {:?}", other),
    }
}

#[test]
fn create_interactively_and_cancel() {
    let mut flow = CreateFlow::new(None, None, None, None, false);
    assert!(matches!(flow.stage, CreateStage::AskingName));
    flow.step(CreateEvent::NameEntered("  demo  ".to_string()));
    assert!(matches!(&flow.stage, CreateStage::LoadingTemplates { project_name } if project_name == "demo"));
    flow.step(CreateEvent::TemplatesLoaded { builtin: builtin(), user: vec![tpl("a-user", "r")] });
    match &flow.stage {
        CreateStage::ChoosingTemplate { choices, .. } => {
            let names: Vec<&str> = choices.iter().map(|t| t.name.as_str()).collect();
            assert_eq!(names, vec!["a-user", "react-admin"]);
        }
        other => panic!("unexpected {:?}", other),
    }
    // an index out of range is asked again
    flow.step(CreateEvent::TemplatePicked(5));
    assert!(matches!(flow.stage, CreateStage::ChoosingTemplate { .. }));
    flow.step(CreateEvent::TemplatePicked(1));
    assert!(matches!(&flow.stage, CreateStage::Confirming { template, .. } if template.name == "react-admin"));
    flow.step(CreateEvent::Confirmed(false));
    assert!(matches!(flow.stage, CreateStage::Finished(Ok(CreateOutcome::Cancelled))));
}

#[test]
fn create_confirmed_uses_command_line_mirror() {
    let mut flow = CreateFlow::new(
        Some("x".to_string()),
        Some("react-admin".to_string()),
        None,
        Some("https://cli-mirror/".to_string()),
        false,
    );
    flow.step(CreateEvent::TemplatesLoaded { builtin: builtin(), user: Vec::new() });
    flow.step(CreateEvent::Confirmed(true));
    flow.step(CreateEvent::SettingsLoaded { user_settings: None, builtin_settings: builtin_settings() });
    match &flow.stage {
        CreateStage::Cloning { target, mirror, .. } => {
            assert_eq!(target, "x");
            assert_eq!(mirror.as_deref(), Some("https://cli-mirror/"));
        }
        other => panic!("unexpected {:?}", other),
    }
}

#[test]
fn create_rejects_blank_name() {
    let mut flow = CreateFlow::new(None, None, None, None, false);
    flow.step(CreateEvent::NameEntered(" \t".to_string()));
    assert!(matches!(flow.stage, CreateStage::Finished(Err(CreateError::BlankProjectName))));
}

#[test]
fn create_reports_unknown_template() {
    let mut flow = CreateFlow::new(Some("x".to_string()), Some("vue".to_string()), None, None, true);
    flow.step(CreateEvent::TemplatesLoaded { builtin: builtin(), user: Vec::new() });
    assert!(matches!(&flow.stage, CreateStage::Finished(Err(CreateError::TemplateNotFound(n))) if n == "vue"));
}

#[test]
fn create_needs_some_template() {
    let mut flow = CreateFlow::new(Some("x".to_string()), None, None, None, true);
    flow.step(CreateEvent::TemplatesLoaded { builtin: Vec::new(), user: Vec::new() });
    assert!(matches!(flow.stage, CreateStage::Finished(Err(CreateError::NoTemplates))));
}

#[test]
fn create_ignores_unexpected_event() {
    let mut flow = CreateFlow::new(None, None, None, None, false);
    flow.step(CreateEvent::Cloned);
    assert!(matches!(flow.stage, CreateStage::AskingName));
}

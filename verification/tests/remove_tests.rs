use baiban::config::Template;
use baiban::remove::{RemoveError, RemoveEvent, RemoveFlow, RemoveStage};

fn tpl(name: &str) -> Template {
    Template {
        name: name.to_string(),
        description: String::new(),
        repository: "r".to_string(),
        branch: "main".to_string(),
        tags: Vec::new(),
    }
}

#[test]
fn remove_named_template() {
    let mut flow = RemoveFlow::new(Some("vue3-admin".to_string()));
    assert!(matches!(&flow.stage, RemoveStage::Removing { name } if name == "vue3-admin"));
    flow.step(RemoveEvent::Removed(true));
    assert!(matches!(&flow.stage, RemoveStage::Finished(Ok(n)) if n == "vue3-admin"));
}

#[test]
fn remove_reports_builtin_or_unknown_name() {
    let mut flow = RemoveFlow::new(Some("react-admin".to_string()));
    flow.step(RemoveEvent::Removed(false));
    assert!(matches!(&flow.stage, RemoveStage::Finished(Err(RemoveError::NotUserTemplate(n))) if n == "react-admin"));
}

#[test]
fn remove_picked_template() {
    let mut flow = RemoveFlow::new(None);
    assert!(matches!(flow.stage, RemoveStage::LoadingUserTemplates));
    flow.step(RemoveEvent::UserTemplatesLoaded(vec![tpl("a"), tpl("b")]));
    assert!(matches!(&flow.stage, RemoveStage::ChoosingTemplate { choices } if choices.len() == 2));
    flow.step(RemoveEvent::TemplatePicked(7));
    assert!(matches!(flow.stage, RemoveStage::ChoosingTemplate { .. }));
    flow.step(RemoveEvent::TemplatePicked(1));
    assert!(matches!(&flow.stage, RemoveStage::Removing { name } if name == "b"));
    flow.step(RemoveEvent::Removed(true));
    assert!(matches!(&flow.stage, RemoveStage::Finished(Ok(n)) if n == "b"));
}

#[test]
fn remove_without_user_templates() {
    let mut flow = RemoveFlow::new(None);
    flow.step(RemoveEvent::UserTemplatesLoaded(Vec::new()));
    assert!(matches!(flow.stage, RemoveStage::Finished(Err(RemoveError::NoUserTemplates))));
}

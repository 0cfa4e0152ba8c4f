use baiban::config::{
    add_user_template, apply_mirror, default_branch, find_template, get_mirror,
    load_all_templates, remove_user_template, resolve_template, target_dir, user_config_dir,
    user_config_path, user_settings_path, Settings, Template, TemplateChoice, TemplateConfig,
};

fn tpl(name: &str, repo: &str) -> Template {
    Template {
        name: name.to_string(),
        description: format!("{} template", name),
        repository: repo.to_string(),
        branch: "main".to_string(),
        tags: Vec::new(),
    }
}

fn names(ts: &[Template]) -> Vec<String> {
    ts.iter().map(|t| t.name.clone()).collect()
}

fn joined(base: &str, component: &str) -> String {
    std::path::Path::new(base).join(component).to_string_lossy().into_owned()
}

#[test]
fn default_branch_is_main() {
    assert_eq!(default_branch(), "main");
}

#[test]
fn settings_default_has_no_mirror() {
    assert!(Settings::default().mirror.is_none());
    let c = TemplateConfig { settings: Settings::default(), templates: Vec::new() };
    assert!(c.settings.mirror.is_none() && c.templates.is_empty());
}

#[test]
fn config_paths_live_under_home() {
    let dir = user_config_dir(Some("/home/u".to_string()));
    assert_eq!(dir, joined("/home/u", ".baiban"));
    assert_eq!(user_config_dir(None), joined(".", ".baiban"));
    assert_eq!(user_config_path(&dir), joined(&dir, "templates.toml"));
    assert_eq!(user_settings_path(&dir), joined(&dir, "settings.toml"));
    if std::path::MAIN_SEPARATOR == '/' {
        assert_eq!(dir, "/home/u/.baiban");
        assert_eq!(user_config_path(&dir), "/home/u/.baiban/templates.toml");
    }
}

#[test]
fn apply_mirror_readme_example() {
    let m = Some("https://ghfast.top/".to_string());
    assert_eq!(
        apply_mirror("https://github.com/user/repo", &m),
        "https://ghfast.top/https://github.com/user/repo"
    );
}

#[test]
fn apply_mirror_ignores_trailing_slashes_of_mirror() {
    let with = apply_mirror("https://github.com/a/b", &Some("https://m.example///".to_string()));
    let without = apply_mirror("https://github.com/a/b", &Some("https://m.example".to_string()));
    assert_eq!(with, "https://m.example/https://github.com/a/b");
    assert_eq!(with, without);
}

#[test]
fn apply_mirror_leaves_other_urls() {
    let m = Some("https://ghfast.top/".to_string());
    assert_eq!(apply_mirror("https://gitee.com/a/b", &m), "https://gitee.com/a/b");
    assert_eq!(apply_mirror("git@github.com:a/b.git", &m), "git@github.com:a/b.git");
    assert_eq!(apply_mirror("https://github.com/a/b", &None), "https://github.com/a/b");
}

#[test]
fn get_mirror_prefers_command_line() {
    let user = Some(Settings { mirror: Some("https://user/".to_string()) });
    let builtin = Some(Settings { mirror: Some("https://builtin/".to_string()) });
    let cli = Some("https://cli/".to_string());
    assert_eq!(get_mirror(&cli, user, builtin), Some("https://cli/".to_string()));
}

#[test]
fn get_mirror_then_user_then_builtin() {
    let builtin = || Some(Settings { mirror: Some("https://builtin/".to_string()) });
    let user = Some(Settings { mirror: Some("https://user/".to_string()) });
    assert_eq!(get_mirror(&None, user, builtin()), Some("https://user/".to_string()));
    // cleared user mirror falls back to the built-in one
    let cleared = Some(Settings { mirror: None });
    assert_eq!(get_mirror(&None, cleared, builtin()), Some("https://builtin/".to_string()));
    // unreadable user settings fall back too
    assert_eq!(get_mirror(&None, None, builtin()), Some("https://builtin/".to_string()));
    assert_eq!(get_mirror(&None, None, None), None);
    assert_eq!(get_mirror(&None, Some(Settings { mirror: None }), Some(Settings { mirror: None })), None);
}

#[test]
fn load_all_templates_merges_and_sorts() {
    let builtin = vec![tpl("react-admin", "https://github.com/x/builtin"), tpl("b-tpl", "r1")];
    let user = vec![tpl("react-admin", "https://github.com/x/user"), tpl("a-tpl", "r2")];
    let all = load_all_templates(builtin, user);
    assert_eq!(names(&all), vec!["a-tpl", "b-tpl", "react-admin"]);
    assert_eq!(all[2].repository, "https://github.com/x/user");
}

#[test]
fn load_all_templates_last_of_a_name_wins() {
    let builtin = vec![tpl("t", "one"), tpl("t", "two")];
    let all = load_all_templates(builtin, Vec::new());
    assert_eq!(all.len(), 1);
    assert_eq!(all[0].repository, "two");
    let user = vec![tpl("t", "three"), tpl("t", "four")];
    let all = load_all_templates(vec![tpl("t", "one")], user);
    assert_eq!(all.len(), 1);
    assert_eq!(all[0].repository, "four");
}

#[test]
fn load_all_templates_of_nothing_is_empty() {
    assert!(load_all_templates(Vec::new(), Vec::new()).is_empty());
}

#[test]
fn find_template_prefers_user_template() {
    let builtin = vec![tpl("react-admin", "builtin"), tpl("vue", "vue-repo")];
    let user = vec![tpl("react-admin", "user")];
    let found = find_template(builtin.clone(), user.clone(), "react-admin").unwrap();
    assert_eq!(found.repository, "user");
    let vue = find_template(builtin.clone(), user.clone(), "vue").unwrap();
    assert_eq!(vue.repository, "vue-repo");
    assert!(find_template(builtin, user, "missing").is_none());
}

#[test]
fn add_user_template_replaces_first_of_same_name() {
    let mut ts = vec![tpl("a", "1"), tpl("b", "2"), tpl("a", "3")];
    add_user_template(&mut ts, tpl("a", "new"));
    assert_eq!(names(&ts), vec!["a", "b", "a"]);
    assert_eq!(ts[0].repository, "new");
    assert_eq!(ts[2].repository, "3");
}

#[test]
fn add_user_template_appends_new_name() {
    let mut ts = vec![tpl("a", "1")];
    add_user_template(&mut ts, tpl("vue3-admin", "https://github.com/your-org/vue3-template"));
    assert_eq!(names(&ts), vec!["a", "vue3-admin"]);
}

#[test]
fn remove_user_template_removes_every_match() {
    let mut ts = vec![tpl("a", "1"), tpl("b", "2"), tpl("a", "3")];
    assert!(remove_user_template(&mut ts, "a"));
    assert_eq!(names(&ts), vec!["b"]);
    assert!(!remove_user_template(&mut ts, "a"));
    assert_eq!(names(&ts), vec!["b"]);
}

#[test]
fn remove_after_add_leaves_none_of_that_name() {
    let mut ts = vec![tpl("b", "2")];
    add_user_template(&mut ts, tpl("a", "1"));
    assert!(remove_user_template(&mut ts, "a"));
    assert_eq!(names(&ts), vec!["b"]);
}

#[test]
fn resolve_template_by_name() {
    let builtin = vec![tpl("react-admin", "r")];
    match resolve_template(builtin.clone(), Vec::new(), Some("react-admin".to_string())) {
        TemplateChoice::Chosen(t) => assert_eq!(t.repository, "r"),
        other => panic!("unexpected {:?}", other),
    }
    match resolve_template(builtin, Vec::new(), Some("nope".to_string())) {
        TemplateChoice::NotFound(n) => assert_eq!(n, "nope"),
        other => panic!("unexpected {:?}", other),
    }
}

#[test]
fn resolve_template_without_name() {
    let builtin = vec![tpl("z", "1"), tpl("m", "2")];
    match resolve_template(builtin, vec![tpl("a", "3")], None) {
        TemplateChoice::Ask(list) => assert_eq!(names(&list), vec!["a", "m", "z"]),
        other => panic!("unexpected {:?}", other),
    }
    assert!(matches!(resolve_template(Vec::new(), Vec::new(), None), TemplateChoice::NoTemplates));
    assert!(matches!(
        resolve_template(Vec::new(), Vec::new(), Some("x".to_string())),
        TemplateChoice::NotFound(_)
    ));
}

#[test]
fn target_dir_puts_project_under_dir() {
    assert_eq!(target_dir(&Some("~/projects".to_string()), "my-app"), joined("~/projects", "my-app"));
    assert_eq!(target_dir(&Some("out/".to_string()), "my-app"), joined("out/", "my-app"));
    assert_eq!(target_dir(&Some("out".to_string()), "/abs/app"), joined("out", "/abs/app"));
    assert_eq!(target_dir(&None, "my-app"), "my-app");
    if std::path::MAIN_SEPARATOR == '/' {
        assert_eq!(target_dir(&Some("~/projects".to_string()), "my-app"), "~/projects/my-app");
        assert_eq!(target_dir(&Some("out/".to_string()), "my-app"), "out/my-app");
    }
}

#[test]
fn add_new_name_then_remove_gives_list_back() {
    let original = vec![tpl("b", "https://github.com/x/b"), tpl("a", "https://github.com/x/a")];
    let mut ts = original.clone();
    add_user_template(&mut ts, tpl("c", "https://github.com/x/c"));
    assert!(remove_user_template(&mut ts, "c"));
    assert_eq!(names(&ts), names(&original));
    assert_eq!(ts.iter().map(|t| t.repository.clone()).collect::<Vec<_>>(), vec!["https://github.com/x/b", "https://github.com/x/a"]);
}

#[test]
fn mirroring_twice_is_mirroring_once() {
    let m = Some("https://ghfast.top//".to_string());
    let once = apply_mirror("https://github.com/u/r", &m);
    assert_eq!(once, "https://ghfast.top/https://github.com/u/r");
    assert_eq!(apply_mirror(&once, &m), once);
    let gh = Some("https://github.com/proxy".to_string());
    let once = apply_mirror("https://github.com/u/r", &gh);
    assert_ne!(apply_mirror(&once, &gh), once);
}

#[test]
fn removing_an_absent_name_changes_nothing() {
    let mut ts = vec![tpl("b", "https://github.com/x/b"), tpl("a", "https://github.com/x/a")];
    assert!(!remove_user_template(&mut ts, "react-admin"));
    assert_eq!(names(&ts), vec!["b", "a"]);
}

use baiban::config::Template;
use baiban::manifest::PackageJsonError;
use baiban::template::{
    CloneAction, CloneError, CloneEvent, CloneFlow, CloneStage, PostAction, PostEvent, PostFlow,
};
use baiban::ui::{required_answer, BlankAnswer};

fn react_admin() -> Template {
    Template {
        name: "react-admin".to_string(),
        description: "React Admin 后台管理模板".to_string(),
        repository: "https://github.com/qwepoih2/react-template-admin".to_string(),
        branch: "main".to_string(),
        tags: vec!["react".to_string(), "admin".to_string(), "typescript".to_string()],
    }
}

#[test]
fn clone_happy_path_with_mirror() {
    let mirror = Some("https://ghfast.top/".to_string());
    let (mut flow, a) = CloneFlow::new(&react_admin(), &mirror);
    assert!(matches!(a, CloneAction::InspectTarget));
    assert!(matches!(flow.step(CloneEvent::TargetInspected { nonempty: false }), CloneAction::CheckGit));
    match flow.step(CloneEvent::GitChecked { found: true }) {
        CloneAction::Clone { url, branch, announce } => {
            assert_eq!(url, "https://ghfast.top/https://github.com/qwepoih2/react-template-admin");
            assert_eq!(branch, Some("main".to_string()));
            assert!(announce);
        }
        other => panic!("unexpected {:?}", other),
    }
    assert!(matches!(flow.step(CloneEvent::CloneExited { success: true }), CloneAction::Finish(Ok(()))));
    assert_eq!(flow.stage, CloneStage::Finished { failure: None });
}

#[test]
fn clone_refuses_non_empty_target() {
    let (mut flow, _) = CloneFlow::new(&react_admin(), &None);
    assert!(matches!(
        flow.step(CloneEvent::TargetInspected { nonempty: true }),
        CloneAction::Finish(Err(CloneError::TargetNotEmpty))
    ));
}

#[test]
fn clone_needs_git() {
    let (mut flow, _) = CloneFlow::new(&react_admin(), &None);
    flow.step(CloneEvent::TargetInspected { nonempty: false });
    assert!(matches!(
        flow.step(CloneEvent::GitChecked { found: false }),
        CloneAction::Finish(Err(CloneError::GitMissing))
    ));
}

#[test]
fn clone_falls_back_to_default_branch() {
    let (mut flow, _) = CloneFlow::new(&react_admin(), &None);
    flow.step(CloneEvent::TargetInspected { nonempty: false });
    match flow.step(CloneEvent::GitChecked { found: true }) {
        CloneAction::Clone { url, branch, announce } => {
            assert_eq!(url, "https://github.com/qwepoih2/react-template-admin");
            assert_eq!(branch, Some("main".to_string()));
            assert!(!announce);
        }
        other => panic!("unexpected {:?}", other),
    }
    assert!(matches!(flow.step(CloneEvent::CloneExited { success: false }), CloneAction::RemoveTarget));
    match flow.step(CloneEvent::TargetRemoved) {
        CloneAction::Clone { url, branch, announce } => {
            assert_eq!(url, "https://github.com/qwepoih2/react-template-admin");
            assert_eq!(branch, None);
            assert!(!announce);
        }
        other => panic!("unexpected {:?}", other),
    }
    assert!(matches!(flow.step(CloneEvent::CloneExited { success: true }), CloneAction::Finish(Ok(()))));
}

#[test]
fn clone_fails_when_both_attempts_fail() {
    let (mut flow, _) = CloneFlow::new(&react_admin(), &None);
    flow.step(CloneEvent::TargetInspected { nonempty: false });
    flow.step(CloneEvent::GitChecked { found: true });
    flow.step(CloneEvent::CloneExited { success: false });
    flow.step(CloneEvent::TargetRemoved);
    assert!(matches!(
        flow.step(CloneEvent::CloneExited { success: false }),
        CloneAction::Finish(Err(CloneError::CloneFailed))
    ));
}

#[test]
fn clone_repeats_action_on_unexpected_event() {
    let (mut flow, _) = CloneFlow::new(&react_admin(), &None);
    assert!(matches!(flow.step(CloneEvent::TargetRemoved), CloneAction::InspectTarget));
    assert_eq!(flow.stage, CloneStage::InspectingTarget);
}

#[test]
fn post_process_with_package_json() {
    let (mut flow, a) = PostFlow::new("my-app");
    assert!(matches!(a, PostAction::RemoveGitDir));
    assert!(matches!(flow.step(PostEvent::GitDirRemoved), PostAction::ReadPackageJson));
    match flow.step(PostEvent::PackageJsonRead(Some("{\"name\":\"t\"}".to_string()))) {
        PostAction::WritePackageJson(text) => {
            let v: serde_json::Value = serde_json::from_str(&text).unwrap();
            assert_eq!(v["name"], "my-app");
        }
        other => panic!("unexpected {:?}", other),
    }
    assert!(matches!(flow.step(PostEvent::PackageJsonWritten), PostAction::RunGitInit));
    assert!(matches!(
        flow.step(PostEvent::GitInitExited { success: true }),
        PostAction::RunGitAdd { warn_init_failed: false }
    ));
    assert!(matches!(flow.step(PostEvent::GitAddExited { success: true }), PostAction::RunGitCommit));
    assert!(matches!(flow.step(PostEvent::GitCommitExited), PostAction::Finish(Ok(()))));
}

#[test]
fn post_process_without_package_json() {
    let (mut flow, _) = PostFlow::new("my-app");
    flow.step(PostEvent::GitDirRemoved);
    assert!(matches!(flow.step(PostEvent::PackageJsonRead(None)), PostAction::RunGitInit));
    assert!(matches!(
        flow.step(PostEvent::GitInitExited { success: false }),
        PostAction::RunGitAdd { warn_init_failed: true }
    ));
    assert!(matches!(flow.step(PostEvent::GitAddExited { success: false }), PostAction::Finish(Ok(()))));
}

#[test]
fn post_process_stops_on_invalid_package_json() {
    let (mut flow, _) = PostFlow::new("my-app");
    flow.step(PostEvent::GitDirRemoved);
    assert!(matches!(
        flow.step(PostEvent::PackageJsonRead(Some("nope".to_string()))),
        PostAction::Finish(Err(PackageJsonError::Parse))
    ));
}

#[test]
fn required_answer_trims_and_rejects_blank() {
    assert_eq!(required_answer("  my-app \n"), Ok("my-app".to_string()));
    assert_eq!(required_answer(" \t "), Err(BlankAnswer));
    assert_eq!(required_answer(""), Err(BlankAnswer));
}

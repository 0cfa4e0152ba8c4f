//! Creating a project, as decisions between the outside steps: asking for
//! the name, loading the templates, choosing and confirming, loading the
//! settings, cloning, post-processing and locating the result.
//!
//! The flow's stage says what the caller is to do next; the caller does it
//! and reports back with an event.
use vstd::prelude::*;

use crate::config::{
    get_mirror, mirror_by_priority, option_text, resolve_template, sorted_by_name, target_dir,
    target_path, templates_by_name, has_name, Settings, Template, TemplateChoice,
};
use crate::text::trim;
use crate::ui::required_answer;

verus! {

/// Why a project could not be created.
#[derive(Debug, Clone, PartialEq, Eq)]
pub enum CreateError {
    /// The name typed for the project was blank.
    BlankProjectName,
    /// No template has the name given on the command line.
    TemplateNotFound(String),
    /// There is no template to choose from.
    NoTemplates,
}

/// How a creation ended.
#[derive(Debug, Clone, PartialEq, Eq)]
pub enum CreateOutcome {
    /// The user declined at the confirmation.
    Cancelled,
    /// The project was created at `path`.
    Created { project_name: String, path: String },
}

/// Where a creation stands; each stage but the last names what the caller
/// is to do next.
#[derive(Debug)]
pub enum CreateStage {
    /// Ask for the project's name.
    AskingName,
    /// Load the built-in and the user's templates.
    LoadingTemplates { project_name: String },
    /// Let the user pick one of `choices` (by index).
    ChoosingTemplate { project_name: String, choices: Vec<Template> },
    /// Ask the user to confirm the creation.
    Confirming { project_name: String, template: Template },
    /// Load the user's and the built-in settings.
    LoadingSettings { project_name: String, template: Template },
    /// Clone `template` into `target` through `mirror`.
    Cloning { project_name: String, template: Template, target: String, mirror: Option<String> },
    /// Prepare the cloned project in `target`.
    PostProcessing { project_name: String, target: String },
    /// Find the absolute path of `target`.
    Locating { project_name: String, target: String },
    /// The creation is over.
    Finished(Result<CreateOutcome, CreateError>),
}

/// What the caller reports back after doing what a stage asks.
#[derive(Debug)]
pub enum CreateEvent {
    /// The answer typed for the project's name.
    NameEntered(String),
    TemplatesLoaded { builtin: Vec<Template>, user: Vec<Template> },
    /// The index of the template picked among the choices.
    TemplatePicked(usize),
    Confirmed(bool),
    /// The settings, each `None` when it failed to load.
    SettingsLoaded { user_settings: Option<Settings>, builtin_settings: Option<Settings> },
    Cloned,
    PostProcessed,
    /// The absolute path of the project.
    Located(String),
}

/// The creation of one project, with the options of the command line.
#[derive(Debug)]
pub struct CreateFlow {
    pub stage: CreateStage,
    /// The template's name, when given.
    pub template_name: Option<String>,
    /// The directory to create the project in, when given.
    pub dir: Option<String>,
    /// The mirror given on the command line.
    pub mirror: Option<String>,
    /// Whether to skip the confirmation.
    pub skip_confirm: bool,
}

/// The stage once the template is settled: confirming, unless that is skipped.
pub open spec fn after_choice(skip_confirm: bool, project_name: String, template: Template) -> CreateStage {
    if skip_confirm {
        CreateStage::LoadingSettings { project_name, template }
    } else {
        CreateStage::Confirming { project_name, template }
    }
}

/// `stage` is the one after choosing a template whose content is `template`
/// (see [`after_choice`]).
pub open spec fn chosen(
    skip_confirm: bool,
    project_name: String,
    template: crate::config::TemplateView,
    stage: CreateStage,
) -> bool {
    if skip_confirm {
        stage matches CreateStage::LoadingSettings { project_name: p, template: t } && p
            == project_name && t@ == template
    } else {
        stage matches CreateStage::Confirming { project_name: p, template: t } && p == project_name
            && t@ == template
    }
}

/// How the stage of `flow` moves on `event` to `stage`. An event that does
/// not answer the stage leaves the stage as it is.
pub open spec fn create_transition(flow: CreateFlow, event: CreateEvent, stage: CreateStage) -> bool {
    match (flow.stage, event) {
        (CreateStage::AskingName, CreateEvent::NameEntered(raw)) => if trim(raw@).len() == 0 {
            stage == CreateStage::Finished(Err(CreateError::BlankProjectName))
        } else {
            stage matches CreateStage::LoadingTemplates { project_name } && project_name@ == trim(
                raw@,
            )
        },
        (
            CreateStage::LoadingTemplates { project_name },
            CreateEvent::TemplatesLoaded { builtin, user },
        ) => {
            let all = templates_by_name(builtin@ + user@);
            match flow.template_name {
                Some(n) => if all.contains_key(n@) {
                    chosen(flow.skip_confirm, project_name, all[n@], stage)
                } else {
                    stage == CreateStage::Finished(Err(CreateError::TemplateNotFound(n)))
                },
                None => if builtin@.len() == 0 && user@.len() == 0 {
                    stage == CreateStage::Finished(Err(CreateError::NoTemplates))
                } else {
                    stage matches CreateStage::ChoosingTemplate { project_name: p, choices } && p
                        == project_name && sorted_by_name(choices@) && templates_by_name(choices@)
                        == all
                },
            }
        },
        (
            CreateStage::ChoosingTemplate { project_name, choices },
            CreateEvent::TemplatePicked(i),
        ) => if i < choices@.len() {
            stage == after_choice(flow.skip_confirm, project_name, choices@[i as int])
        } else {
            stage == flow.stage
        },
        (CreateStage::Confirming { project_name, template }, CreateEvent::Confirmed(yes)) => if yes {
            stage == CreateStage::LoadingSettings { project_name, template }
        } else {
            stage == CreateStage::Finished(Ok(CreateOutcome::Cancelled))
        },
        (
            CreateStage::LoadingSettings { project_name, template },
            CreateEvent::SettingsLoaded { user_settings, builtin_settings },
        ) => {
            stage matches CreateStage::Cloning { project_name: p, template: t, target, mirror } && p
                == project_name && t == template && target@ == target_path(option_text(flow.dir), project_name@)
                && mirror == mirror_by_priority(flow.mirror, user_settings, builtin_settings)
        },
        (CreateStage::Cloning { project_name, target, .. }, CreateEvent::Cloned) => stage
            == CreateStage::PostProcessing { project_name, target },
        (CreateStage::PostProcessing { project_name, target }, CreateEvent::PostProcessed) => stage
            == CreateStage::Locating { project_name, target },
        (CreateStage::Locating { project_name, .. }, CreateEvent::Located(path)) => stage
            == CreateStage::Finished(Ok(CreateOutcome::Created { project_name, path })),
        _ => stage == flow.stage,
    }
}

/// A copy of an optional text.
fn copy_text(o: &Option<String>) -> (r: Option<String>)
    ensures
        r == *o,
{
    match o {
        Some(s) => Some(s.clone()),
        None => None,
    }
}

impl CreateFlow {
    /// Starts creating a project with the options of the command line: the
    /// name is asked for unless it was given.
    pub fn new(
        name: Option<String>,
        template_name: Option<String>,
        dir: Option<String>,
        mirror: Option<String>,
        skip_confirm: bool,
    ) -> (r: CreateFlow)
        ensures
            r.stage == match name {
                Some(n) => CreateStage::LoadingTemplates { project_name: n },
                None => CreateStage::AskingName,
            },
            r.template_name == template_name,
            r.dir == dir,
            r.mirror == mirror,
            r.skip_confirm == skip_confirm,
    {
        let stage = match name {
            Some(n) => CreateStage::LoadingTemplates { project_name: n },
            None => CreateStage::AskingName,
        };
        CreateFlow { stage, template_name, dir, mirror, skip_confirm }
    }

    fn after_choice(&self, project_name: String, template: Template) -> (s: CreateStage)
        ensures
            s == after_choice(self.skip_confirm, project_name, template),
    {
        if self.skip_confirm {
            CreateStage::LoadingSettings { project_name, template }
        } else {
            CreateStage::Confirming { project_name, template }
        }
    }

    /// Takes in what the caller did for the current stage and moves on.
    pub fn step(&mut self, event: CreateEvent)
        ensures
            final(self).template_name == old(self).template_name,
            final(self).dir == old(self).dir,
            final(self).mirror == old(self).mirror,
            final(self).skip_confirm == old(self).skip_confirm,
            create_transition(*old(self), event, final(self).stage),
    {
        let mut stage = CreateStage::AskingName;
        std::mem::swap(&mut stage, &mut self.stage);
        let next = match (stage, event) {
            (CreateStage::AskingName, CreateEvent::NameEntered(raw)) => {
                match required_answer(raw.as_str()) {
                    Ok(project_name) => CreateStage::LoadingTemplates { project_name },
                    Err(_) => CreateStage::Finished(Err(CreateError::BlankProjectName)),
                }
            },
            (
                CreateStage::LoadingTemplates { project_name },
                CreateEvent::TemplatesLoaded { builtin, user },
            ) => {
                let ghost all = templates_by_name(builtin@ + user@);
                match resolve_template(builtin, user, copy_text(&self.template_name)) {
                    TemplateChoice::Chosen(t) => self.after_choice(project_name, t),
                    TemplateChoice::NotFound(n) => CreateStage::Finished(
                        Err(CreateError::TemplateNotFound(n)),
                    ),
                    TemplateChoice::Ask(choices) => CreateStage::ChoosingTemplate {
                        project_name,
                        choices,
                    },
                    TemplateChoice::NoTemplates => CreateStage::Finished(
                        Err(CreateError::NoTemplates),
                    ),
                }
            },
            (
                CreateStage::ChoosingTemplate { project_name, mut choices },
                CreateEvent::TemplatePicked(i),
            ) => {
                if i < choices.len() {
                    let t = choices.swap_remove(i);
                    self.after_choice(project_name, t)
                } else {
                    CreateStage::ChoosingTemplate { project_name, choices }
                }
            },
            (CreateStage::Confirming { project_name, template }, CreateEvent::Confirmed(yes)) => {
                if yes {
                    CreateStage::LoadingSettings { project_name, template }
                } else {
                    CreateStage::Finished(Ok(CreateOutcome::Cancelled))
                }
            },
            (
                CreateStage::LoadingSettings { project_name, template },
                CreateEvent::SettingsLoaded { user_settings, builtin_settings },
            ) => {
                let target = target_dir(&self.dir, project_name.as_str());
                let mirror = get_mirror(&self.mirror, user_settings, builtin_settings);
                CreateStage::Cloning { project_name, template, target, mirror }
            },
            (CreateStage::Cloning { project_name, target, .. }, CreateEvent::Cloned) => {
                CreateStage::PostProcessing { project_name, target }
            },
            (CreateStage::PostProcessing { project_name, target }, CreateEvent::PostProcessed) => {
                CreateStage::Locating { project_name, target }
            },
            (CreateStage::Locating { project_name, .. }, CreateEvent::Located(path)) => {
                CreateStage::Finished(Ok(CreateOutcome::Created { project_name, path }))
            },
            (stage, _) => stage,
        };
        self.stage = next;
    }
}

/// The creation is confirmed by the user unless `--yes` was given: the
/// settings are loaded (and the clone comes) only after a confirmation or when
/// the confirmation is skipped; the user is asked only when it is not skipped;
/// and once a template is settled, by name or by picking, the next stage asks
/// for the confirmation exactly when it is not skipped.
pub proof fn lemma_create_confirms_unless_skipped(flow: CreateFlow, event: CreateEvent, stage: CreateStage)
    requires
        create_transition(flow, event, stage),
    ensures
        stage is LoadingSettings && !(flow.stage is LoadingSettings) ==> flow.skip_confirm
            || flow.stage is Confirming,
        stage is Confirming && !(flow.stage is Confirming) ==> !flow.skip_confirm,
        (flow.stage is LoadingTemplates || flow.stage is ChoosingTemplate) && (stage is Confirming
            || stage is LoadingSettings) ==> (stage is Confirming <==> !flow.skip_confirm),
{
}

/// The template a stage holds once the template is settled.
pub open spec fn settled_template(stage: CreateStage) -> Option<Template> {
    match stage {
        CreateStage::Confirming { template, .. } => Some(template),
        CreateStage::LoadingSettings { template, .. } => Some(template),
        _ => None,
    }
}

/// The template settled on is the one asked for: a template named on the
/// command line settles to a template of that name (none when no template
/// has it), and a pick settles to the template at the index picked.
pub proof fn lemma_create_settles_template(flow: CreateFlow, event: CreateEvent, stage: CreateStage)
    requires
        create_transition(flow, event, stage),
    ensures
        flow.stage is LoadingTemplates && flow.template_name is Some && settled_template(stage) is Some
            ==> settled_template(stage)->0.name@ == flow.template_name->0@,
        flow.stage is LoadingTemplates && flow.template_name is Some && event is TemplatesLoaded && !(
        has_name(event->builtin@, flow.template_name->0@) || has_name(
            event->user@,
            flow.template_name->0@,
        )) ==> stage == CreateStage::Finished(Err(CreateError::TemplateNotFound(flow.template_name->0))),
        flow.stage is ChoosingTemplate && event is TemplatePicked && event->TemplatePicked_0
            < flow.stage->choices@.len() ==> settled_template(stage) == Some(
            flow.stage->choices@[event->TemplatePicked_0 as int],
        ),
{
    if let (CreateStage::LoadingTemplates { .. }, CreateEvent::TemplatesLoaded { builtin, user }) = (flow.stage, event) {
        crate::config::lemma_by_name_names(builtin@ + user@);
        crate::config::lemma_merged_templates(builtin@, user@, flow.template_name->0@);
    }
}

} // verus!

//! Removing a user template, as decisions between the outside steps: which
//! template to remove (given, or picked among the user's templates), and how
//! the removal is reported.
use vstd::prelude::*;

use crate::config::Template;

verus! {

/// Why a removal failed.
#[derive(Debug, Clone, PartialEq, Eq)]
pub enum RemoveError {
    /// No name was given and the user has no templates to pick from.
    NoUserTemplates,
    /// No user template has this name (built-in templates cannot be removed).
    NotUserTemplate(String),
}

/// Where a removal stands; each stage but the last names what the caller is
/// to do next.
#[derive(Debug)]
pub enum RemoveStage {
    /// Load the user's templates.
    LoadingUserTemplates,
    /// Let the user pick one of `choices` (by index).
    ChoosingTemplate { choices: Vec<Template> },
    /// Remove the user templates called `name` and tell whether there was one.
    Removing { name: String },
    /// The removal is over; on success, with the name removed.
    Finished(Result<String, RemoveError>),
}

/// What the caller reports back after doing what a stage asks.
#[derive(Debug)]
pub enum RemoveEvent {
    UserTemplatesLoaded(Vec<Template>),
    /// The index of the template picked among the choices.
    TemplatePicked(usize),
    /// Whether a template was removed.
    Removed(bool),
}

/// The removal of one user template.
#[derive(Debug)]
pub struct RemoveFlow {
    pub stage: RemoveStage,
}

/// The stage that follows `stage` on `event`; an event that does not answer
/// the stage leaves it as it is.
pub open spec fn remove_transition(stage: RemoveStage, event: RemoveEvent) -> RemoveStage {
    match (stage, event) {
        (RemoveStage::LoadingUserTemplates, RemoveEvent::UserTemplatesLoaded(list)) => if list@.len()
            == 0 {
            RemoveStage::Finished(Err(RemoveError::NoUserTemplates))
        } else {
            RemoveStage::ChoosingTemplate { choices: list }
        },
        (RemoveStage::ChoosingTemplate { choices }, RemoveEvent::TemplatePicked(i)) => if i
            < choices@.len() {
            RemoveStage::Removing { name: choices@[i as int].name }
        } else {
            stage
        },
        (RemoveStage::Removing { name }, RemoveEvent::Removed(removed)) => if removed {
            RemoveStage::Finished(Ok(name))
        } else {
            RemoveStage::Finished(Err(RemoveError::NotUserTemplate(name)))
        },
        _ => stage,
    }
}

impl RemoveFlow {
    /// Starts a removal: of the template `name` if given, else of one the
    /// user picks among their templates.
    pub fn new(name: Option<String>) -> (r: RemoveFlow)
        ensures
            r.stage == match name {
                Some(n) => RemoveStage::Removing { name: n },
                None => RemoveStage::LoadingUserTemplates,
            },
    {
        match name {
            Some(n) => RemoveFlow { stage: RemoveStage::Removing { name: n } },
            None => RemoveFlow { stage: RemoveStage::LoadingUserTemplates },
        }
    }

    /// Takes in what the caller did for the current stage and moves on.
    pub fn step(&mut self, event: RemoveEvent)
        ensures
            final(self).stage == remove_transition(old(self).stage, event),
    {
        let mut stage = RemoveStage::LoadingUserTemplates;
        std::mem::swap(&mut stage, &mut self.stage);
        let next = match (stage, event) {
            (RemoveStage::LoadingUserTemplates, RemoveEvent::UserTemplatesLoaded(list)) => {
                if list.len() == 0 {
                    RemoveStage::Finished(Err(RemoveError::NoUserTemplates))
                } else {
                    RemoveStage::ChoosingTemplate { choices: list }
                }
            },
            (RemoveStage::ChoosingTemplate { choices }, RemoveEvent::TemplatePicked(i)) => {
                if i < choices.len() {
                    RemoveStage::Removing { name: choices[i].name.clone() }
                } else {
                    RemoveStage::ChoosingTemplate { choices }
                }
            },
            (RemoveStage::Removing { name }, RemoveEvent::Removed(removed)) => {
                if removed {
                    RemoveStage::Finished(Ok(name))
                } else {
                    RemoveStage::Finished(Err(RemoveError::NotUserTemplate(name)))
                }
            },
            (stage, _) => stage,
        };
        self.stage = next;
    }
}

/// Without a name, the removal is refused exactly when the user has no
/// templates; any templates at all are offered, all of them, to pick from.
pub proof fn lemma_remove_offers_every_list(list: Vec<Template>)
    ensures
        remove_transition(RemoveStage::LoadingUserTemplates, RemoveEvent::UserTemplatesLoaded(list))
            == RemoveStage::Finished(Err(RemoveError::NoUserTemplates)) <==> list@.len() == 0,
        list@.len() > 0 ==> remove_transition(
            RemoveStage::LoadingUserTemplates,
            RemoveEvent::UserTemplatesLoaded(list),
        ) == (RemoveStage::ChoosingTemplate { choices: list }),
{
}

} // verus!

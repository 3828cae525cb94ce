//! The setup wizard: a three-step flow that captures database
//! credentials, provisions the database, and provisions its schema.
//!
//! The steps and their outcomes form a small state machine; the
//! application performs the database work and reports each outcome back
//! as an event.
use vstd::prelude::*;

verus! {

/// Where the wizard stands.
#[derive(Clone, Copy, Debug, PartialEq, Eq, Structural)]
pub enum WizardStep {
    /// The credentials form: the first step.
    DatabaseConfig,
    /// The schema button: the second step.
    DatabaseStructure,
    /// Everything provisioned: the final step.
    Complete,
}

/// What happened since the wizard was last drawn.
#[derive(Clone, Copy, Debug, PartialEq, Eq, Structural)]
pub enum WizardEvent {
    /// The database was created (or found to exist already).
    DatabaseCreated,
    /// Creating the database failed.
    DatabaseCreationFailed,
    /// The schema was created.
    StructureCreated,
    /// Creating the schema failed.
    StructureCreationFailed,
    /// The finished wizard was closed.
    Closed,
}

/// The step the wizard moves to on an event: each step advances only on
/// its own success, a failure holds the wizard in place, and closing the
/// finished wizard starts it over.
pub open spec fn spec_wizard_next(step: WizardStep, event: WizardEvent) -> WizardStep {
    match (step, event) {
        (WizardStep::DatabaseConfig, WizardEvent::DatabaseCreated) => WizardStep::DatabaseStructure,
        (WizardStep::DatabaseStructure, WizardEvent::StructureCreated) => WizardStep::Complete,
        (WizardStep::Complete, WizardEvent::Closed) => WizardStep::DatabaseConfig,
        _ => step,
    }
}

/// Advances the wizard by one event.
pub fn wizard_next(step: WizardStep, event: WizardEvent) -> (r: WizardStep)
    ensures
        r == spec_wizard_next(step, event),
{
    match (step, event) {
        (WizardStep::DatabaseConfig, WizardEvent::DatabaseCreated) => WizardStep::DatabaseStructure,
        (WizardStep::DatabaseStructure, WizardEvent::StructureCreated) => WizardStep::Complete,
        (WizardStep::Complete, WizardEvent::Closed) => WizardStep::DatabaseConfig,
        (s, _) => s,
    }
}

/// Closing always lands the wizard back on the credentials form or leaves
/// it where it was: no event can skip a step forward.
pub proof fn lemma_wizard_no_skip(step: WizardStep, event: WizardEvent)
    ensures
        spec_wizard_next(WizardStep::DatabaseConfig, event) != WizardStep::Complete,
        step == spec_wizard_next(step, event) || (step == WizardStep::DatabaseConfig
            && spec_wizard_next(step, event) == WizardStep::DatabaseStructure) || (step
            == WizardStep::DatabaseStructure && spec_wizard_next(step, event)
            == WizardStep::Complete) || (step == WizardStep::Complete && spec_wizard_next(
            step,
            event,
        ) == WizardStep::DatabaseConfig),
{
}

} // verus!

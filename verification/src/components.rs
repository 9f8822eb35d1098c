//! System modes, the supervisor transition table, and status-light patterns.

use vstd::prelude::*;

verus! {

/// Panic message raised by the shell if the status-LED cell is empty.
pub const NO_LED_PANIC_MSG: &'static str =
    "Unable to display state due to non-configured LEDs, or not available in mutex";

/// Trailer logged when the system enters the error state.
pub const RESET_MSG: &'static str =
    "\nSystem must be power cycled to restore normal operation.";

/// Trailer logged when the system is disabled.
pub const DISABLE_MSG: &'static str =
    "\nToggle the disable switch to resume normal operation.";

/// System states, expressed to the operator through LED colours.
#[derive(Copy, Clone, Debug, PartialEq, Eq, Structural)]
pub enum StatusLedStates {
    /// Detection armed, no contact: green.
    Normal,
    /// Confirmed contact: yellow.
    Alert,
    /// Hard fault, pipeline paused until power cycle: red.
    Error,
    /// Disabled by the operator's switch: no light.
    Disabled,
}

/// What a supervisor transition demands of the acquisition pipeline.
#[derive(Copy, Clone, Debug, PartialEq, Eq, Structural)]
pub enum PipelineAction {
    /// The pipeline keeps running (or stays paused) as it was.
    Unchanged,
    /// Disable the excitation signal and park the DMA configuration.
    Pause,
    /// Re-enable the excitation signal and restart the DMA transfer.
    Resume,
}

/// The pipeline side effect of a supervisor transition: entering an active
/// mode from a halted one resumes acquisition, entering a halted mode from
/// an active one pauses it, and every other transition leaves it alone.
pub open spec fn pipeline_action_spec(
    from: StatusLedStates,
    to: StatusLedStates,
) -> PipelineAction {
    match to {
        StatusLedStates::Normal | StatusLedStates::Alert => {
            if from is Error || from is Disabled {
                PipelineAction::Resume
            } else {
                PipelineAction::Unchanged
            }
        },
        StatusLedStates::Error | StatusLedStates::Disabled => {
            if from is Normal || from is Alert {
                PipelineAction::Pause
            } else {
                PipelineAction::Unchanged
            }
        },
    }
}

/// Decide the pipeline side effect of a transition, as executable code, so
/// the shell can pause or resume the hardware in the documented order.
pub fn pipeline_action(from: StatusLedStates, to: StatusLedStates) -> (r: PipelineAction)
    ensures
        r == pipeline_action_spec(from, to),
{
    match to {
        StatusLedStates::Normal | StatusLedStates::Alert => match from {
            StatusLedStates::Error | StatusLedStates::Disabled => PipelineAction::Resume,
            StatusLedStates::Normal | StatusLedStates::Alert => PipelineAction::Unchanged,
        },
        StatusLedStates::Error | StatusLedStates::Disabled => match from {
            StatusLedStates::Normal | StatusLedStates::Alert => PipelineAction::Pause,
            StatusLedStates::Error | StatusLedStates::Disabled => PipelineAction::Unchanged,
        },
    }
}

/// Directly controls the LEDs: translates a mode into physical levels.
pub trait LedControl: Sized {
    /// Whether the current output levels show exactly `mode`'s pattern.
    spec fn shows(&self, mode: StatusLedStates) -> bool;

    /// Initialize the controller; its first drive shows the alert pattern,
    /// which stands until initialization completes.
    fn init() -> (r: Self)
        ensures
            r.shows(StatusLedStates::Alert),
    ;

    /// Drive the outputs so that only `new_state`'s pattern is visible.
    /// Returns `new_state` for convenience.
    fn set_led(&mut self, old_state: &StatusLedStates, new_state: StatusLedStates) -> (r:
        StatusLedStates)
        requires
            old(self).shows(*old_state),
        ensures
            r == new_state,
            final(self).shows(new_state),
    ;
}

/// Triple LED status: one discrete LED per lit mode, driven high to light.
pub struct Triple {
    /// Green, lit in the normal state.
    pub normal_led: bool,
    /// Yellow, lit in the alert state.
    pub alert_led: bool,
    /// Red, lit in the error state.
    pub error_led: bool,
}

impl LedControl for Triple {
    /// Exactly one LED is high per lit mode; all are low when disabled.
    open spec fn shows(&self, mode: StatusLedStates) -> bool {
        &&& self.normal_led == (mode is Normal)
        &&& self.alert_led == (mode is Alert)
        &&& self.error_led == (mode is Error)
    }

    fn init() -> (r: Self) {
        Triple { normal_led: false, alert_led: true, error_led: false }
    }

    fn set_led(&mut self, old_state: &StatusLedStates, new_state: StatusLedStates) -> (r:
        StatusLedStates) {
        match old_state {
            StatusLedStates::Normal => self.normal_led = false,
            StatusLedStates::Alert => self.alert_led = false,
            StatusLedStates::Error => self.error_led = false,
            StatusLedStates::Disabled => {},
        }
        match new_state {
            StatusLedStates::Normal => self.normal_led = true,
            StatusLedStates::Alert => self.alert_led = true,
            StatusLedStates::Error => self.error_led = true,
            StatusLedStates::Disabled => {},
        }
        new_state
    }
}

/// Common-anode RGB status LED: the red and green controls are active-low,
/// and the blue control is initialized high and left idle.
pub struct Rgba {
    /// Low in the alert and error states.
    pub red_led: bool,
    /// Low in the normal and alert states.
    pub green_led: bool,
    /// Initialized high but otherwise unused.
    pub blue_led: bool,
}

impl LedControl for Rgba {
    /// Normal shows green (green low), alert shows yellow (red and green
    /// low), error shows red (only red low), disabled shows nothing.
    open spec fn shows(&self, mode: StatusLedStates) -> bool {
        &&& self.red_led == (mode is Normal || mode is Disabled)
        &&& self.green_led == (mode is Error || mode is Disabled)
        &&& self.blue_led
    }

    fn init() -> (r: Self) {
        Rgba { red_led: false, green_led: false, blue_led: true }
    }

    fn set_led(&mut self, old_state: &StatusLedStates, new_state: StatusLedStates) -> (r:
        StatusLedStates) {
        match old_state {
            StatusLedStates::Normal => self.green_led = true,
            StatusLedStates::Alert => {
                self.red_led = true;
                self.green_led = true;
            },
            StatusLedStates::Error => self.red_led = true,
            StatusLedStates::Disabled => {},
        }
        match new_state {
            StatusLedStates::Normal => self.green_led = false,
            StatusLedStates::Alert => {
                self.red_led = false;
                self.green_led = false;
            },
            StatusLedStates::Error => self.red_led = false,
            StatusLedStates::Disabled => {},
        }
        new_state
    }
}

/// The supervisor: holds the one current mode and the light controller, and
/// applies the transition table. The shell wraps each call in a critical
/// section and performs the returned pipeline action on the hardware.
pub struct StatusLedBase<C: LedControl> {
    /// Current LED state.
    pub state: StatusLedStates,
    /// Controller for lights.
    pub ctrl: C,
}

impl<C: LedControl> StatusLedBase<C> {
    /// The lights always show exactly the current mode's pattern.
    pub open spec fn wf(&self) -> bool {
        self.ctrl.shows(self.state)
    }

    /// A supervisor in the initial transient: alert until initialization
    /// completes and the shell requests the normal state.
    pub fn init() -> (r: Self)
        ensures
            r.wf(),
            r.state is Alert,
    {
        StatusLedBase { state: StatusLedStates::Alert, ctrl: C::init() }
    }

    /// Enter the normal state; resuming detection is demanded when leaving
    /// a halted mode.
    pub fn set_normal(&mut self) -> (action: PipelineAction)
        requires
            old(self).wf(),
        ensures
            final(self).wf(),
            final(self).state is Normal,
            action == pipeline_action_spec(old(self).state, StatusLedStates::Normal),
    {
        let action = pipeline_action(self.state, StatusLedStates::Normal);
        self.state = self.ctrl.set_led(&self.state, StatusLedStates::Normal);
        action
    }

    /// Enter the alert state after a confirmed contact; resuming detection
    /// is demanded when leaving a halted mode.
    pub fn set_alert(&mut self) -> (action: PipelineAction)
        requires
            old(self).wf(),
        ensures
            final(self).wf(),
            final(self).state is Alert,
            action == pipeline_action_spec(old(self).state, StatusLedStates::Alert),
    {
        let action = pipeline_action(self.state, StatusLedStates::Alert);
        self.state = self.ctrl.set_led(&self.state, StatusLedStates::Alert);
        action
    }

    /// Enter the error state; pausing detection is demanded when leaving an
    /// active mode. Operationally terminal: only a power cycle recovers.
    pub fn set_error(&mut self) -> (action: PipelineAction)
        requires
            old(self).wf(),
        ensures
            final(self).wf(),
            final(self).state is Error,
            action == pipeline_action_spec(old(self).state, StatusLedStates::Error),
    {
        let action = pipeline_action(self.state, StatusLedStates::Error);
        self.state = self.ctrl.set_led(&self.state, StatusLedStates::Error);
        action
    }

    /// Enter the disabled state; pausing detection is demanded when leaving
    /// an active mode.
    pub fn set_disabled(&mut self) -> (action: PipelineAction)
        requires
            old(self).wf(),
        ensures
            final(self).wf(),
            final(self).state is Disabled,
            action == pipeline_action_spec(old(self).state, StatusLedStates::Disabled),
    {
        let action = pipeline_action(self.state, StatusLedStates::Disabled);
        self.state = self.ctrl.set_led(&self.state, StatusLedStates::Disabled);
        action
    }
}

} // verus!

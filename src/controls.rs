use vstd::prelude::*;

use crate::direction::{calculate_direction, direction_for, sector_of, Direction};

verus! {

/// How long a glyph stays on the display, in milliseconds.
pub const SHOW_MS: u32 = 100;

/// The period of the North tone, in milliseconds: a 220 Hz tone, rounded down
/// to whole milliseconds.
pub const TONE_PERIOD_MS: u32 = 1000 / 220;

/// Half of `TONE_PERIOD_MS`: how long the tone pin stays high, then low.
pub const TONE_HALF_PERIOD_MS: u32 = TONE_PERIOD_MS / 2;

/// How many high/low cycles the tone pin makes for one North reading, about
/// 50 ms of tone.
pub const TONE_CYCLES: u32 = 50 / TONE_PERIOD_MS;

/// The two flags that the button interrupt writes and the render loop reads.
/// Each flag has one writer, its button's channel, which only ever negates it.
#[derive(Clone, Copy, Debug, PartialEq, Eq)]
pub struct ToggleState {
    /// Whether the compass senses and renders (button A, channel 0).
    pub compass_active: bool,
    /// Whether a North reading sounds the tone (button B, channel 1).
    pub beep_enabled: bool,
}

/// One of the two edge-detecting input channels.
#[derive(Clone, Copy, Debug, PartialEq, Eq)]
pub enum Channel {
    /// Channel 0, wired to button A: toggles `compass_active`.
    Compass,
    /// Channel 1, wired to button B: toggles `beep_enabled`.
    Beep,
}

/// The latched falling-edge events of the two channels, as the interrupt
/// source holds them until they are cleared.
#[derive(Clone, Copy, Debug, PartialEq, Eq)]
pub struct PendingEvents {
    pub channel0: bool,
    pub channel1: bool,
}

impl ToggleState {
    /// Both flags off, as at startup.
    pub fn new() -> (r: ToggleState)
        ensures
            !r.compass_active,
            !r.beep_enabled,
    {
        ToggleState { compass_active: false, beep_enabled: false }
    }

    /// The flags after the interrupt handler has served `events`: each flag
    /// whose channel has an event pending is negated, the other kept.
    pub open spec fn after_interrupt(self, events: PendingEvents) -> ToggleState {
        ToggleState {
            compass_active: self.compass_active != events.channel0,
            beep_enabled: self.beep_enabled != events.channel1,
        }
    }
}

impl PendingEvents {
    /// No event pending.
    pub fn new() -> (r: PendingEvents)
        ensures
            !r.channel0,
            !r.channel1,
    {
        PendingEvents { channel0: false, channel1: false }
    }

    /// The events after a falling edge on `channel`.
    pub open spec fn with_edge(self, channel: Channel) -> PendingEvents {
        match channel {
            Channel::Compass => PendingEvents { channel0: true, ..self },
            Channel::Beep => PendingEvents { channel1: true, ..self },
        }
    }

    /// Latches a falling edge on `channel`; an event already pending stays
    /// pending, once.
    pub fn falling_edge(&mut self, channel: Channel)
        ensures
            *final(self) == old(self).with_edge(channel),
    {
        match channel {
            Channel::Compass => self.channel0 = true,
            Channel::Beep => self.channel1 = true,
        }
    }

    /// Whether an event is pending on `channel`.
    pub fn is_event_triggered(&self, channel: Channel) -> (r: bool)
        ensures
            r == match channel {
                Channel::Compass => self.channel0,
                Channel::Beep => self.channel1,
            },
    {
        match channel {
            Channel::Compass => self.channel0,
            Channel::Beep => self.channel1,
        }
    }

    /// Clears the events of both channels.
    pub fn reset_events(&mut self)
        ensures
            !final(self).channel0,
            !final(self).channel1,
    {
        self.channel0 = false;
        self.channel1 = false;
    }
}

/// The button interrupt: negates the flag of each channel that has an event
/// pending, then clears the events of both channels, whichever fired.
pub fn handle_button_interrupt(flags: &mut ToggleState, events: &mut PendingEvents)
    ensures
        *final(flags) == old(flags).after_interrupt(*old(events)),
        !final(events).channel0,
        !final(events).channel1,
{
    let compass_active = flags.compass_active;
    let beep_enabled = flags.beep_enabled;
    if events.is_event_triggered(Channel::Compass) {
        flags.compass_active = !compass_active;
    }
    if events.is_event_triggered(Channel::Beep) {
        flags.beep_enabled = !beep_enabled;
    }
    events.reset_events();
}

/// A falling edge on channel 0, while channel 1 is idle, leaves only
/// channel 0 pending; the interrupt that serves it negates `compass_active`
/// exactly once and keeps `beep_enabled` (and `handle_button_interrupt` then
/// clears both channels).
pub proof fn lemma_compass_edge_toggles_once(flags: ToggleState, events: PendingEvents)
    requires
        !events.channel1,
    ensures
        ({
            let pending = events.with_edge(Channel::Compass);
            let served = flags.after_interrupt(pending);
            &&& pending.channel0
            &&& !pending.channel1
            &&& served.compass_active == !flags.compass_active
            &&& served.beep_enabled == flags.beep_enabled
        }),
{
}

/// What the render loop does at the start of an iteration.
#[derive(Clone, Copy, Debug, PartialEq, Eq)]
pub enum LoopAction {
    /// Park the processor until the next interrupt; nothing else is touched.
    WaitForInterrupt,
    /// Clear the display and poll the sensor for new data.
    ClearAndPoll,
}

/// What the render loop puts out for one new sample.
#[derive(Clone, Copy, Debug, PartialEq, Eq)]
pub struct Frame {
    /// The direction whose glyph is shown.
    pub direction: Direction,
    /// How long the glyph is shown, in milliseconds.
    pub show_ms: u32,
    /// How many times the tone pin goes high and then low.
    pub tone_cycles: u32,
}

/// The loop's choice at the start of an iteration: only an active compass
/// touches the sensor or the display; an inactive one waits for an interrupt.
pub fn next_action(flags: &ToggleState) -> (r: LoopAction)
    ensures
        r == (if flags.compass_active {
            LoopAction::ClearAndPoll
        } else {
            LoopAction::WaitForInterrupt
        }),
        !flags.compass_active ==> r == LoopAction::WaitForInterrupt,
{
    if flags.compass_active {
        LoopAction::ClearAndPoll
    } else {
        LoopAction::WaitForInterrupt
    }
}

/// The frame for the new field sample (x, y): the glyph of its direction for
/// `SHOW_MS`, and `TONE_CYCLES` tone cycles when the direction is North and
/// the tone is enabled, none otherwise.
pub fn render_sample(flags: &ToggleState, x: i32, y: i32) -> (r: Frame)
    ensures
        r.direction == direction_for(sector_of(x as int, y as int)),
        r.show_ms == SHOW_MS,
        r.tone_cycles == (if sector_of(x as int, y as int) == 0 && flags.beep_enabled {
            TONE_CYCLES
        } else {
            0
        }),
{
    let direction = calculate_direction(x, y);
    let tone_cycles = if direction.is_north() && flags.beep_enabled {
        TONE_CYCLES
    } else {
        0
    };
    Frame { direction, show_ms: SHOW_MS, tone_cycles }
}

} // verus!

//! The application state and the control loop's transition rules.
//!
//! `App` owns the canonical light state. Every mutation clamps its
//! target field back into its domain, so the state the renderer and the
//! device ever see is always in range.

use vstd::prelude::*;

verus! {

/// Clamp `x` into the closed interval `[lo, hi]`.
pub open spec fn spec_clamp(x: int, lo: int, hi: int) -> int {
    if x < lo {
        lo
    } else if x > hi {
        hi
    } else {
        x
    }
}

/// The ghost image of an `App`: what the contracts speak about.
pub ghost struct AppV {
    pub ip: Seq<char>,
    pub running: bool,
    pub on: bool,
    pub brightness: int,
    pub temperature: int,
}

/// The application state: the light's network address, whether the
/// control loop is running, and the canonical light state.
#[derive(Debug)]
pub struct App {
    ip: String,
    running: bool,
    on: bool,
    brightness: i32,
    temperature: i32,
}

impl View for App {
    type V = AppV;

    closed spec fn view(&self) -> AppV {
        AppV {
            ip: self.ip@,
            running: self.running,
            on: self.on,
            brightness: self.brightness as int,
            temperature: self.temperature as int,
        }
    }
}

/// Range invariant of the model: brightness and temperature sit inside
/// their domains.
pub open spec fn state_wf(s: AppV) -> bool {
    &&& 0 <= s.brightness <= 100
    &&& 143 <= s.temperature <= 344
}

impl App {
    /// Build the initial application state from the light the startup
    /// fetch reported. Power is on exactly when the wire value is 1;
    /// brightness and temperature are clamped into their domains so the
    /// model invariant holds from the first moment on.
    pub fn new(ip: String, light: crate::keylight::Light) -> (r: App)
        ensures
            r@.ip == ip@,
            !r@.running,
            r@.on == (light.on == 1),
            r@.brightness == spec_clamp(light.brightness as int, 0, 100),
            r@.temperature == spec_clamp(light.temperature as int, 143, 344),
            state_wf(r@),
    {
        App {
            ip,
            running: false,
            on: light.on == 1,
            brightness: clamp_i32(light.brightness, 0, 100),
            temperature: clamp_i32(light.temperature, 143, 344),
        }
    }

    /// Read access for the renderer and for deriving a push payload.
    pub fn ip(&self) -> (r: &String)
        ensures
            r@ == self@.ip,
    {
        &self.ip
    }

    pub fn is_running(&self) -> (r: bool)
        ensures
            r == self@.running,
    {
        self.running
    }

    pub fn is_on(&self) -> (r: bool)
        ensures
            r == self@.on,
    {
        self.on
    }

    pub fn brightness(&self) -> (r: i32)
        ensures
            r == self@.brightness,
    {
        self.brightness
    }

    pub fn temperature(&self) -> (r: i32)
        ensures
            r == self@.temperature,
    {
        self.temperature
    }

    /// Mark the control loop as started.
    pub fn start(&mut self)
        ensures
            final(self)@ == (AppV { running: true, ..old(self)@ }),
    {
        self.running = true;
    }

    /// Shift brightness by `change` and saturate at the domain bounds:
    /// the result is always in [0, 100], whatever the delta.
    pub fn change_brightness(&mut self, change: i32)
        ensures
            final(self)@ == (AppV {
                brightness: spec_clamp(old(self)@.brightness + change, 0, 100),
                ..old(self)@
            }),
            0 <= final(self)@.brightness <= 100,
    {
        let sum: i64 = self.brightness as i64 + change as i64;
        self.brightness = clamp_i64_small(sum, 0, 100);
    }

    /// Shift color temperature by `change` and saturate at the domain
    /// bounds: the result is always in [143, 344], whatever the delta.
    pub fn change_temperature(&mut self, change: i32)
        ensures
            final(self)@ == (AppV {
                temperature: spec_clamp(old(self)@.temperature + change, 143, 344),
                ..old(self)@
            }),
            143 <= final(self)@.temperature <= 344,
    {
        let sum: i64 = self.temperature as i64 + change as i64;
        self.temperature = clamp_i64_small(sum, 143, 344);
    }

    /// Set the power flag.
    pub fn set_on(&mut self, on: bool)
        ensures
            final(self)@ == (AppV { on: on, ..old(self)@ }),
    {
        self.on = on;
    }

    /// Ask the control loop to stop: no further device interaction
    /// follows.
    pub fn quit(&mut self)
        ensures
            final(self)@ == (AppV { running: false, ..old(self)@ }),
    {
        self.running = false;
    }

    /// The body the control loop pushes to the device after a mutation:
    /// the full current state, serialized into the wire shape — but
    /// only while the loop is running. Outside `Running` no payload is
    /// ever produced.
    pub fn set_light(&self) -> (r: Option<Vec<u8>>)
        requires
            state_wf(self@),
        ensures
            (match r {
                Some(body) => self@.running && body@ == crate::codec::spec_encode_lights(
                    self@.on,
                    self@.brightness,
                    self@.temperature,
                ),
                None => !self@.running,
            }),
    {
        if self.running {
            Some(crate::codec::encode_lights(self.on, self.brightness, self.temperature))
        } else {
            None
        }
    }

    /// Apply one input event according to the transition table and hand
    /// back the payload to push, when the event mutates the state while
    /// the loop is running. A `Quit` stops the loop and pushes nothing;
    /// an unrecognized event changes nothing and pushes nothing.
    pub fn on_event(&mut self, event: InputEvent) -> (r: Option<Vec<u8>>)
        requires
            state_wf(old(self)@),
        ensures
            final(self)@ == spec_step(old(self)@, event),
            state_wf(final(self)@),
            (match r {
                Some(body) => spec_mutates(event) && old(self)@.running && body@
                    == crate::codec::spec_encode_lights(
                    final(self)@.on,
                    final(self)@.brightness,
                    final(self)@.temperature,
                ),
                None => !spec_mutates(event) || !old(self)@.running,
            }),
    {
        match event {
            InputEvent::Quit => {
                self.quit();
                None
            },
            InputEvent::DecreaseBrightness(n) => {
                self.change_brightness(-(n as i32));
                self.set_light()
            },
            InputEvent::IncreaseBrightness(n) => {
                self.change_brightness(n as i32);
                self.set_light()
            },
            InputEvent::WarmerTemperature(n) => {
                self.change_temperature(-(n as i32));
                self.set_light()
            },
            InputEvent::ColderTemperature(n) => {
                self.change_temperature(n as i32);
                self.set_light()
            },
            InputEvent::ToggleOrConfirm => {
                let on = self.is_on();
                self.set_on(!on);
                self.set_light()
            },
            InputEvent::Other => None,
        }
    }
}

/// A discrete input event of the control loop, abstracted from the
/// physical key bindings. The adjusting events carry their step: 10 for
/// a plain key press, 1 for the fine variant with a modifier held.
#[derive(Debug, Clone, Copy, PartialEq, Eq, Structural)]
pub enum InputEvent {
    Quit,
    DecreaseBrightness(u8),
    IncreaseBrightness(u8),
    WarmerTemperature(u8),
    ColderTemperature(u8),
    ToggleOrConfirm,
    Other,
}

/// The transition table of the control loop, as a function from state
/// and event to the next state.
pub open spec fn spec_step(s: AppV, e: InputEvent) -> AppV {
    match e {
        InputEvent::Quit => AppV { running: false, ..s },
        InputEvent::DecreaseBrightness(n) => AppV {
            brightness: spec_clamp(s.brightness - n, 0, 100),
            ..s
        },
        InputEvent::IncreaseBrightness(n) => AppV {
            brightness: spec_clamp(s.brightness + n, 0, 100),
            ..s
        },
        InputEvent::WarmerTemperature(n) => AppV {
            temperature: spec_clamp(s.temperature - n, 143, 344),
            ..s
        },
        InputEvent::ColderTemperature(n) => AppV {
            temperature: spec_clamp(s.temperature + n, 143, 344),
            ..s
        },
        InputEvent::ToggleOrConfirm => AppV { on: !s.on, ..s },
        InputEvent::Other => s,
    }
}

/// Whether an event mutates the light state (and so triggers a push
/// while the loop is running).
pub open spec fn spec_mutates(e: InputEvent) -> bool {
    !(e is Quit || e is Other)
}

/// Toggling power twice, with no other mutation in between, restores
/// the state exactly: the toggle transition is an involution.
pub proof fn lemma_toggle_involution(s: AppV)
    ensures
        spec_step(spec_step(s, InputEvent::ToggleOrConfirm), InputEvent::ToggleOrConfirm) == s,
{
}

/// A `Quit` event stops the loop, leaves the light state untouched,
/// and — by `spec_mutates` — pushes nothing; a second look at the table
/// shows no transition out of the stopped state back to running.
pub proof fn lemma_quit_stops(s: AppV, e: InputEvent)
    ensures
        !spec_step(s, InputEvent::Quit).running,
        spec_step(s, InputEvent::Quit).on == s.on,
        spec_step(s, InputEvent::Quit).brightness == s.brightness,
        spec_step(s, InputEvent::Quit).temperature == s.temperature,
        !spec_step(spec_step(s, InputEvent::Quit), e).running,
{
}

/// Kelvin display value derived from the device-native temperature:
/// the real-valued formula floor(4100 * (1 - ratio) + 2900) with
/// ratio = (t - 143) / 201, the input clamped into [143, 344] before
/// use, written over the integers.
pub open spec fn spec_kelvin(t: int) -> int {
    2900 + 4100 * (344 - spec_clamp(t, 143, 344)) / 201
}

/// Compute the Kelvin display value of a device-native temperature; a
/// pure function of its argument, always within the lamp's 2900 K to
/// 7000 K range.
pub fn kelvin_from_temperature(temperature: i32) -> (k: i32)
    ensures
        k == spec_kelvin(temperature as int),
        2900 <= k <= 7000,
{
    let c = clamp_i32(temperature, 143, 344);
    let num: i32 = 4100 * (344 - c);
    proof {
        assert(0 <= num <= 824100);
        assert(num / 201 <= 4100) by {
            assert(num <= 824100);
            vstd::arithmetic::div_mod::lemma_div_is_ordered(num as int, 824100, 201);
            assert(824100int / 201 == 4100);
        };
    }
    2900 + num / 201
}

/// Clamp an `i32` into `[lo, hi]`.
fn clamp_i32(x: i32, lo: i32, hi: i32) -> (r: i32)
    requires
        lo <= hi,
    ensures
        r == spec_clamp(x as int, lo as int, hi as int),
{
    if x < lo {
        lo
    } else if x > hi {
        hi
    } else {
        x
    }
}

/// Clamp an `i64` into a small `[lo, hi]` window that fits in `i32`.
fn clamp_i64_small(x: i64, lo: i32, hi: i32) -> (r: i32)
    requires
        lo <= hi,
    ensures
        r == spec_clamp(x as int, lo as int, hi as int),
{
    if x < lo as i64 {
        lo
    } else if x > hi as i64 {
        hi
    } else {
        x as i32
    }
}

} // verus!

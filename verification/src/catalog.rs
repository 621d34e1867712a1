//! The public command surface: the fixed catalog of robot operations. Each
//! operation maps to one dispatch with a fixed command name, a parameter
//! list built from its typed arguments, a fixed reply-expectation flag and
//! a wait budget in milliseconds.
use vstd::prelude::*;

use vstd::string::StringSliceAdditionalSpecFns;

use crate::engine::{dispatched, CoCube, Dispatch};
use crate::parse::{dec_digits, dec_int};

verus! {

/// The default wait budget granted to a dispatch, in milliseconds.
pub const BASE_BUDGET_MS: u64 = 3000;

/// The wait budget for a timed motion: the base budget plus the motion's
/// own duration, saturating at the largest representable budget.
pub open spec fn timed_budget_ms(duration: u64) -> u64 {
    if duration + BASE_BUDGET_MS > u64::MAX {
        u64::MAX
    } else {
        (duration + BASE_BUDGET_MS) as u64
    }
}

fn timed_budget(duration: u64) -> (b: u64)
    ensures
        b == timed_budget_ms(duration),
{
    if duration > u64::MAX - BASE_BUDGET_MS {
        u64::MAX
    } else {
        duration + BASE_BUDGET_MS
    }
}

/// A packed 24-bit color: red, green, blue, high byte first.
pub open spec fn rgb_value(r: u8, g: u8, b: u8) -> u32 {
    ((r as u32) << 16) | ((g as u32) << 8) | (b as u32)
}

/// Copy a string's bytes.
fn str_bytes_vec(s: &str) -> (r: Vec<u8>)
    ensures
        r@ == s.spec_bytes(),
{
    vstd::slice::slice_to_vec(s.as_bytes())
}

pub open spec fn cmd_set_tft_backlight() -> Seq<u8> {
    "CoCube set TFT backlight".spec_bytes()
}

pub open spec fn cmd_draw_aruco_marker() -> Seq<u8> {
    "CoCube draw Aruco Marker on TFT".spec_bytes()
}

pub open spec fn cmd_move() -> Seq<u8> {
    "CoCube move".spec_bytes()
}

pub open spec fn cmd_rotate() -> Seq<u8> {
    "CoCube rotate".spec_bytes()
}

pub open spec fn cmd_move_millisecs() -> Seq<u8> {
    "CoCube move for millisecs".spec_bytes()
}

pub open spec fn cmd_rotate_millisecs() -> Seq<u8> {
    "CoCube rotate for millisecs".spec_bytes()
}

pub open spec fn cmd_move_by_step() -> Seq<u8> {
    "CoCube move by step".spec_bytes()
}

pub open spec fn cmd_rotate_by_degree() -> Seq<u8> {
    "CoCube rotate by degree".spec_bytes()
}

pub open spec fn cmd_set_wheel() -> Seq<u8> {
    "CoCube set wheel".spec_bytes()
}

pub open spec fn cmd_wheels_stop() -> Seq<u8> {
    "CoCube wheels stop".spec_bytes()
}

pub open spec fn cmd_wheels_break() -> Seq<u8> {
    "CoCube wheels break".spec_bytes()
}

pub open spec fn cmd_rotate_to_angle() -> Seq<u8> {
    "CoCube rotate to angle".spec_bytes()
}

pub open spec fn cmd_rotate_to_target() -> Seq<u8> {
    "CoCube rotate to target".spec_bytes()
}

pub open spec fn cmd_move_to() -> Seq<u8> {
    "CoCube move to".spec_bytes()
}

pub open spec fn cmd_move_to_target() -> Seq<u8> {
    "myreturn_uuid move to target".spec_bytes()
}

pub open spec fn cmd_power_on_module() -> Seq<u8> {
    "Power on module".spec_bytes()
}

pub open spec fn cmd_power_off_module() -> Seq<u8> {
    "Power off module".spec_bytes()
}

pub open spec fn cmd_gripper_open() -> Seq<u8> {
    "ccmodule_gripper open".spec_bytes()
}

pub open spec fn cmd_gripper_close() -> Seq<u8> {
    "ccmodule_gripper close".spec_bytes()
}

pub open spec fn cmd_gripper_degree() -> Seq<u8> {
    "Gripper degree".spec_bytes()
}

pub open spec fn cmd_attach_neo_pixel() -> Seq<u8> {
    "attach NeoPixel".spec_bytes()
}

pub open spec fn cmd_set_all_neo_pixels_color() -> Seq<u8> {
    "set all NeoPixels color".spec_bytes()
}

pub open spec fn cmd_clear_neo_pixels() -> Seq<u8> {
    "clear NeoPixels".spec_bytes()
}

pub open spec fn cmd_mb_display() -> Seq<u8> {
    "[display:mbDisplay]".spec_bytes()
}

pub open spec fn cmd_mb_display_off() -> Seq<u8> {
    "[display:mbDisplayOff]".spec_bytes()
}

pub open spec fn cmd_set_display_color() -> Seq<u8> {
    "set display color".spec_bytes()
}

impl CoCube {
    /// Switch the TFT backlight on or off; no reply is expected.
    pub fn set_tft_backlight(&mut self, flag: u8) -> (d: Dispatch)
        requires
            old(self).wf(),
        ensures
            dispatched(
                *old(self),
                *final(self),
                d,
                cmd_set_tft_backlight(),
                seq![dec_digits(flag as nat)],
                false,
            ),
            d.timeout_ms == BASE_BUDGET_MS,
    {
        let mut params: Vec<Vec<u8>> = Vec::new();
        params.push(crate::parse::fmt_u64(flag as u64));
        let d = self.process_data(
            "CoCube set TFT backlight".as_bytes(),
            &params,
            false,
            BASE_BUDGET_MS,
        );
        assert(crate::codec::views_of(params@) =~= seq![dec_digits(flag as nat)]);
        d
    }

    /// Draw the numbered Aruco marker on the TFT; no reply is expected.
    pub fn draw_aruco_marker_on_tft(&mut self, id: u8) -> (d: Dispatch)
        requires
            old(self).wf(),
        ensures
            dispatched(
                *old(self),
                *final(self),
                d,
                cmd_draw_aruco_marker(),
                seq![dec_digits(id as nat)],
                false,
            ),
            d.timeout_ms == BASE_BUDGET_MS,
    {
        let mut params: Vec<Vec<u8>> = Vec::new();
        params.push(crate::parse::fmt_u64(id as u64));
        let d = self.process_data(
            "CoCube draw Aruco Marker on TFT".as_bytes(),
            &params,
            false,
            BASE_BUDGET_MS,
        );
        assert(crate::codec::views_of(params@) =~= seq![dec_digits(id as nat)]);
        d
    }

    /// Move with a direction token and a speed; no reply is expected.
    pub fn move_robot(&mut self, direction: &str, speed: u8) -> (d: Dispatch)
        requires
            old(self).wf(),
        ensures
            dispatched(
                *old(self),
                *final(self),
                d,
                cmd_move(),
                seq![direction.spec_bytes(), dec_digits(speed as nat)],
                false,
            ),
            d.timeout_ms == BASE_BUDGET_MS,
    {
        let mut params: Vec<Vec<u8>> = Vec::new();
        params.push(str_bytes_vec(direction));
        params.push(crate::parse::fmt_u64(speed as u64));
        let d = self.process_data("CoCube move".as_bytes(), &params, false, BASE_BUDGET_MS);
        assert(crate::codec::views_of(params@) =~= seq![
            direction.spec_bytes(),
            dec_digits(speed as nat),
        ]);
        d
    }

    /// Rotate with a direction token and a speed; no reply is expected.
    pub fn rotate_robot(&mut self, direction: &str, speed: u8) -> (d: Dispatch)
        requires
            old(self).wf(),
        ensures
            dispatched(
                *old(self),
                *final(self),
                d,
                cmd_rotate(),
                seq![direction.spec_bytes(), dec_digits(speed as nat)],
                false,
            ),
            d.timeout_ms == BASE_BUDGET_MS,
    {
        let mut params: Vec<Vec<u8>> = Vec::new();
        params.push(str_bytes_vec(direction));
        params.push(crate::parse::fmt_u64(speed as u64));
        let d = self.process_data("CoCube rotate".as_bytes(), &params, false, BASE_BUDGET_MS);
        assert(crate::codec::views_of(params@) =~= seq![
            direction.spec_bytes(),
            dec_digits(speed as nat),
        ]);
        d
    }

    /// Move for a duration in milliseconds; a reply is expected and the
    /// wait budget grows with the duration.
    pub fn move_millisecs(&mut self, direction: &str, speed: u8, duration: u64) -> (d: Dispatch)
        requires
            old(self).wf(),
        ensures
            dispatched(
                *old(self),
                *final(self),
                d,
                cmd_move_millisecs(),
                seq![direction.spec_bytes(), dec_digits(speed as nat), dec_digits(duration as nat)],
                true,
            ),
            d.timeout_ms == timed_budget_ms(duration),
    {
        let mut params: Vec<Vec<u8>> = Vec::new();
        params.push(str_bytes_vec(direction));
        params.push(crate::parse::fmt_u64(speed as u64));
        params.push(crate::parse::fmt_u64(duration));
        let budget = timed_budget(duration);
        let d = self.process_data("CoCube move for millisecs".as_bytes(), &params, true, budget);
        assert(crate::codec::views_of(params@) =~= seq![
            direction.spec_bytes(),
            dec_digits(speed as nat),
            dec_digits(duration as nat),
        ]);
        d
    }

    /// Rotate for a duration in milliseconds; a reply is expected and the
    /// wait budget grows with the duration.
    pub fn rotate_millisecs(&mut self, direction: &str, speed: u8, duration: u64) -> (d: Dispatch)
        requires
            old(self).wf(),
        ensures
            dispatched(
                *old(self),
                *final(self),
                d,
                cmd_rotate_millisecs(),
                seq![direction.spec_bytes(), dec_digits(speed as nat), dec_digits(duration as nat)],
                true,
            ),
            d.timeout_ms == timed_budget_ms(duration),
    {
        let mut params: Vec<Vec<u8>> = Vec::new();
        params.push(str_bytes_vec(direction));
        params.push(crate::parse::fmt_u64(speed as u64));
        params.push(crate::parse::fmt_u64(duration));
        let budget = timed_budget(duration);
        let d = self.process_data("CoCube rotate for millisecs".as_bytes(), &params, true, budget);
        assert(crate::codec::views_of(params@) =~= seq![
            direction.spec_bytes(),
            dec_digits(speed as nat),
            dec_digits(duration as nat),
        ]);
        d
    }

    /// Move by a discrete number of steps; a reply is expected.
    pub fn move_by_steps(&mut self, direction: &str, speed: u8, step: u16) -> (d: Dispatch)
        requires
            old(self).wf(),
        ensures
            dispatched(
                *old(self),
                *final(self),
                d,
                cmd_move_by_step(),
                seq![direction.spec_bytes(), dec_digits(speed as nat), dec_digits(step as nat)],
                true,
            ),
            d.timeout_ms == BASE_BUDGET_MS,
    {
        let mut params: Vec<Vec<u8>> = Vec::new();
        params.push(str_bytes_vec(direction));
        params.push(crate::parse::fmt_u64(speed as u64));
        params.push(crate::parse::fmt_u64(step as u64));
        let d = self.process_data("CoCube move by step".as_bytes(), &params, true, BASE_BUDGET_MS);
        assert(crate::codec::views_of(params@) =~= seq![
            direction.spec_bytes(),
            dec_digits(speed as nat),
            dec_digits(step as nat),
        ]);
        d
    }

    /// Rotate by a number of degrees; a reply is expected.
    pub fn rotate_by_degree(&mut self, direction: &str, speed: u8, degree: u16) -> (d: Dispatch)
        requires
            old(self).wf(),
        ensures
            dispatched(
                *old(self),
                *final(self),
                d,
                cmd_rotate_by_degree(),
                seq![direction.spec_bytes(), dec_digits(speed as nat), dec_digits(degree as nat)],
                true,
            ),
            d.timeout_ms == BASE_BUDGET_MS,
    {
        let mut params: Vec<Vec<u8>> = Vec::new();
        params.push(str_bytes_vec(direction));
        params.push(crate::parse::fmt_u64(speed as u64));
        params.push(crate::parse::fmt_u64(degree as u64));
        let d = self.process_data(
            "CoCube rotate by degree".as_bytes(),
            &params,
            true,
            BASE_BUDGET_MS,
        );
        assert(crate::codec::views_of(params@) =~= seq![
            direction.spec_bytes(),
            dec_digits(speed as nat),
            dec_digits(degree as nat),
        ]);
        d
    }

    /// Set the two wheel speeds independently; no reply is expected.
    pub fn set_wheel_speed(&mut self, left: u8, right: u8) -> (d: Dispatch)
        requires
            old(self).wf(),
        ensures
            dispatched(
                *old(self),
                *final(self),
                d,
                cmd_set_wheel(),
                seq![dec_digits(left as nat), dec_digits(right as nat)],
                false,
            ),
            d.timeout_ms == BASE_BUDGET_MS,
    {
        let mut params: Vec<Vec<u8>> = Vec::new();
        params.push(crate::parse::fmt_u64(left as u64));
        params.push(crate::parse::fmt_u64(right as u64));
        let d = self.process_data("CoCube set wheel".as_bytes(), &params, false, BASE_BUDGET_MS);
        assert(crate::codec::views_of(params@) =~= seq![
            dec_digits(left as nat),
            dec_digits(right as nat),
        ]);
        d
    }

    /// Let the wheels coast to a stop; no reply is expected.
    pub fn wheels_stop(&mut self) -> (d: Dispatch)
        requires
            old(self).wf(),
        ensures
            dispatched(
                *old(self),
                *final(self),
                d,
                cmd_wheels_stop(),
                Seq::<Seq<u8>>::empty(),
                false,
            ),
            d.timeout_ms == BASE_BUDGET_MS,
    {
        let params: Vec<Vec<u8>> = Vec::new();
        let d = self.process_data("CoCube wheels stop".as_bytes(), &params, false, BASE_BUDGET_MS);
        assert(crate::codec::views_of(params@) =~= Seq::<Seq<u8>>::empty());
        d
    }

    /// Brake the wheels; no reply is expected.
    pub fn wheels_break(&mut self) -> (d: Dispatch)
        requires
            old(self).wf(),
        ensures
            dispatched(
                *old(self),
                *final(self),
                d,
                cmd_wheels_break(),
                Seq::<Seq<u8>>::empty(),
                false,
            ),
            d.timeout_ms == BASE_BUDGET_MS,
    {
        let params: Vec<Vec<u8>> = Vec::new();
        let d = self.process_data("CoCube wheels break".as_bytes(), &params, false, BASE_BUDGET_MS);
        assert(crate::codec::views_of(params@) =~= Seq::<Seq<u8>>::empty());
        d
    }

    /// Rotate to an absolute angle; no reply is expected.
    pub fn rotate_to_angle(&mut self, angle: i16, speed: u8) -> (d: Dispatch)
        requires
            old(self).wf(),
        ensures
            dispatched(
                *old(self),
                *final(self),
                d,
                cmd_rotate_to_angle(),
                seq![dec_int(angle as int), dec_digits(speed as nat)],
                false,
            ),
            d.timeout_ms == BASE_BUDGET_MS,
    {
        let mut params: Vec<Vec<u8>> = Vec::new();
        params.push(crate::parse::fmt_i32(angle as i32));
        params.push(crate::parse::fmt_u64(speed as u64));
        let d = self.process_data(
            "CoCube rotate to angle".as_bytes(),
            &params,
            false,
            BASE_BUDGET_MS,
        );
        assert(crate::codec::views_of(params@) =~= seq![
            dec_int(angle as int),
            dec_digits(speed as nat),
        ]);
        d
    }

    /// Rotate toward a target point; no reply is expected.
    pub fn rotate_to_target(&mut self, x: i32, y: i32, speed: u8) -> (d: Dispatch)
        requires
            old(self).wf(),
        ensures
            dispatched(
                *old(self),
                *final(self),
                d,
                cmd_rotate_to_target(),
                seq![dec_int(x as int), dec_int(y as int), dec_digits(speed as nat)],
                false,
            ),
            d.timeout_ms == BASE_BUDGET_MS,
    {
        let mut params: Vec<Vec<u8>> = Vec::new();
        params.push(crate::parse::fmt_i32(x));
        params.push(crate::parse::fmt_i32(y));
        params.push(crate::parse::fmt_u64(speed as u64));
        let d = self.process_data(
            "CoCube rotate to target".as_bytes(),
            &params,
            false,
            BASE_BUDGET_MS,
        );
        assert(crate::codec::views_of(params@) =~= seq![
            dec_int(x as int),
            dec_int(y as int),
            dec_digits(speed as nat),
        ]);
        d
    }

    /// Move to a point; no reply is expected.
    pub fn move_to(&mut self, x: i32, y: i32, speed: u8) -> (d: Dispatch)
        requires
            old(self).wf(),
        ensures
            dispatched(
                *old(self),
                *final(self),
                d,
                cmd_move_to(),
                seq![dec_int(x as int), dec_int(y as int), dec_digits(speed as nat)],
                false,
            ),
            d.timeout_ms == BASE_BUDGET_MS,
    {
        let mut params: Vec<Vec<u8>> = Vec::new();
        params.push(crate::parse::fmt_i32(x));
        params.push(crate::parse::fmt_i32(y));
        params.push(crate::parse::fmt_u64(speed as u64));
        let d = self.process_data("CoCube move to".as_bytes(), &params, false, BASE_BUDGET_MS);
        assert(crate::codec::views_of(params@) =~= seq![
            dec_int(x as int),
            dec_int(y as int),
            dec_digits(speed as nat),
        ]);
        d
    }

    /// Move to a target point; no reply is expected.
    pub fn move_to_target(&mut self, x: i32, y: i32, speed: u8) -> (d: Dispatch)
        requires
            old(self).wf(),
        ensures
            dispatched(
                *old(self),
                *final(self),
                d,
                cmd_move_to_target(),
                seq![dec_int(x as int), dec_int(y as int), dec_digits(speed as nat)],
                false,
            ),
            d.timeout_ms == BASE_BUDGET_MS,
    {
        let mut params: Vec<Vec<u8>> = Vec::new();
        params.push(crate::parse::fmt_i32(x));
        params.push(crate::parse::fmt_i32(y));
        params.push(crate::parse::fmt_u64(speed as u64));
        let d = self.process_data(
            "myreturn_uuid move to target".as_bytes(),
            &params,
            false,
            BASE_BUDGET_MS,
        );
        assert(crate::codec::views_of(params@) =~= seq![
            dec_int(x as int),
            dec_int(y as int),
            dec_digits(speed as nat),
        ]);
        d
    }

    /// Power the attached module on; no reply is expected.
    pub fn power_on_module(&mut self) -> (d: Dispatch)
        requires
            old(self).wf(),
        ensures
            dispatched(
                *old(self),
                *final(self),
                d,
                cmd_power_on_module(),
                Seq::<Seq<u8>>::empty(),
                false,
            ),
            d.timeout_ms == BASE_BUDGET_MS,
    {
        let params: Vec<Vec<u8>> = Vec::new();
        let d = self.process_data("Power on module".as_bytes(), &params, false, BASE_BUDGET_MS);
        assert(crate::codec::views_of(params@) =~= Seq::<Seq<u8>>::empty());
        d
    }

    /// Power the attached module off; no reply is expected.
    pub fn power_off_module(&mut self) -> (d: Dispatch)
        requires
            old(self).wf(),
        ensures
            dispatched(
                *old(self),
                *final(self),
                d,
                cmd_power_off_module(),
                Seq::<Seq<u8>>::empty(),
                false,
            ),
            d.timeout_ms == BASE_BUDGET_MS,
    {
        let params: Vec<Vec<u8>> = Vec::new();
        let d = self.process_data("Power off module".as_bytes(), &params, false, BASE_BUDGET_MS);
        assert(crate::codec::views_of(params@) =~= Seq::<Seq<u8>>::empty());
        d
    }

    /// Open the gripper; no reply is expected.
    pub fn gripper_open(&mut self) -> (d: Dispatch)
        requires
            old(self).wf(),
        ensures
            dispatched(
                *old(self),
                *final(self),
                d,
                cmd_gripper_open(),
                Seq::<Seq<u8>>::empty(),
                false,
            ),
            d.timeout_ms == BASE_BUDGET_MS,
    {
        let params: Vec<Vec<u8>> = Vec::new();
        let d = self.process_data(
            "ccmodule_gripper open".as_bytes(),
            &params,
            false,
            BASE_BUDGET_MS,
        );
        assert(crate::codec::views_of(params@) =~= Seq::<Seq<u8>>::empty());
        d
    }

    /// Close the gripper; no reply is expected.
    pub fn gripper_close(&mut self) -> (d: Dispatch)
        requires
            old(self).wf(),
        ensures
            dispatched(
                *old(self),
                *final(self),
                d,
                cmd_gripper_close(),
                Seq::<Seq<u8>>::empty(),
                false,
            ),
            d.timeout_ms == BASE_BUDGET_MS,
    {
        let params: Vec<Vec<u8>> = Vec::new();
        let d = self.process_data(
            "ccmodule_gripper close".as_bytes(),
            &params,
            false,
            BASE_BUDGET_MS,
        );
        assert(crate::codec::views_of(params@) =~= Seq::<Seq<u8>>::empty());
        d
    }

    /// Drive the gripper to a signed opening; no reply is expected.
    pub fn gripper_degree(&mut self, degree: i8) -> (d: Dispatch)
        requires
            old(self).wf(),
        ensures
            dispatched(
                *old(self),
                *final(self),
                d,
                cmd_gripper_degree(),
                seq![dec_int(degree as int)],
                false,
            ),
            d.timeout_ms == BASE_BUDGET_MS,
    {
        let mut params: Vec<Vec<u8>> = Vec::new();
        params.push(crate::parse::fmt_i32(degree as i32));
        let d = self.process_data("Gripper degree".as_bytes(), &params, false, BASE_BUDGET_MS);
        assert(crate::codec::views_of(params@) =~= seq![dec_int(degree as int)]);
        d
    }

    /// Attach the pixel strip; no reply is expected.
    pub fn attach_neo_pixel(&mut self) -> (d: Dispatch)
        requires
            old(self).wf(),
        ensures
            dispatched(
                *old(self),
                *final(self),
                d,
                cmd_attach_neo_pixel(),
                Seq::<Seq<u8>>::empty(),
                false,
            ),
            d.timeout_ms == BASE_BUDGET_MS,
    {
        let params: Vec<Vec<u8>> = Vec::new();
        let d = self.process_data("attach NeoPixel".as_bytes(), &params, false, BASE_BUDGET_MS);
        assert(crate::codec::views_of(params@) =~= Seq::<Seq<u8>>::empty());
        d
    }

    /// Color every pixel of the strip; no reply is expected.
    pub fn set_all_neo_pixels_color(&mut self, r: u8, g: u8, b: u8) -> (d: Dispatch)
        requires
            old(self).wf(),
        ensures
            dispatched(
                *old(self),
                *final(self),
                d,
                cmd_set_all_neo_pixels_color(),
                seq![dec_digits(rgb_value(r, g, b) as nat)],
                false,
            ),
            d.timeout_ms == BASE_BUDGET_MS,
    {
        let color: u32 = ((r as u32) << 16) | ((g as u32) << 8) | (b as u32);
        let mut params: Vec<Vec<u8>> = Vec::new();
        params.push(crate::parse::fmt_u64(color as u64));
        let d = self.process_data(
            "set all NeoPixels color".as_bytes(),
            &params,
            false,
            BASE_BUDGET_MS,
        );
        assert(crate::codec::views_of(params@) =~= seq![dec_digits(rgb_value(r, g, b) as nat)]);
        d
    }

    /// Switch the pixel strip off; no reply is expected.
    pub fn clear_neo_pixels(&mut self) -> (d: Dispatch)
        requires
            old(self).wf(),
        ensures
            dispatched(
                *old(self),
                *final(self),
                d,
                cmd_clear_neo_pixels(),
                Seq::<Seq<u8>>::empty(),
                false,
            ),
            d.timeout_ms == BASE_BUDGET_MS,
    {
        let params: Vec<Vec<u8>> = Vec::new();
        let d = self.process_data("clear NeoPixels".as_bytes(), &params, false, BASE_BUDGET_MS);
        assert(crate::codec::views_of(params@) =~= Seq::<Seq<u8>>::empty());
        d
    }

    /// Show a display pattern code; a reply is expected.
    pub fn mb_display(&mut self, code: u32) -> (d: Dispatch)
        requires
            old(self).wf(),
        ensures
            dispatched(
                *old(self),
                *final(self),
                d,
                cmd_mb_display(),
                seq![dec_digits(code as nat)],
                true,
            ),
            d.timeout_ms == BASE_BUDGET_MS,
    {
        let mut params: Vec<Vec<u8>> = Vec::new();
        params.push(crate::parse::fmt_u64(code as u64));
        let d = self.process_data("[display:mbDisplay]".as_bytes(), &params, true, BASE_BUDGET_MS);
        assert(crate::codec::views_of(params@) =~= seq![dec_digits(code as nat)]);
        d
    }

    /// Blank the display; a reply is expected.
    pub fn mb_display_off(&mut self) -> (d: Dispatch)
        requires
            old(self).wf(),
        ensures
            dispatched(
                *old(self),
                *final(self),
                d,
                cmd_mb_display_off(),
                Seq::<Seq<u8>>::empty(),
                true,
            ),
            d.timeout_ms == BASE_BUDGET_MS,
    {
        let params: Vec<Vec<u8>> = Vec::new();
        let d = self.process_data(
            "[display:mbDisplayOff]".as_bytes(),
            &params,
            true,
            BASE_BUDGET_MS,
        );
        assert(crate::codec::views_of(params@) =~= Seq::<Seq<u8>>::empty());
        d
    }

    /// Fill the display with a packed color; no reply is expected.
    pub fn set_display_color(&mut self, r: u8, g: u8, b: u8) -> (d: Dispatch)
        requires
            old(self).wf(),
        ensures
            dispatched(
                *old(self),
                *final(self),
                d,
                cmd_set_display_color(),
                seq![dec_digits(rgb_value(r, g, b) as nat)],
                false,
            ),
            d.timeout_ms == BASE_BUDGET_MS,
    {
        let color: u32 = ((r as u32) << 16) | ((g as u32) << 8) | (b as u32);
        let mut params: Vec<Vec<u8>> = Vec::new();
        params.push(crate::parse::fmt_u64(color as u64));
        let d = self.process_data("set display color".as_bytes(), &params, false, BASE_BUDGET_MS);
        assert(crate::codec::views_of(params@) =~= seq![dec_digits(rgb_value(r, g, b) as nat)]);
        d
    }
}

} // verus!

use vstd::prelude::*;
use crate::notification::Urgency;

verus! {

/// Settings of the daemon that the store and the popup timing read.
#[derive(Debug, Clone)]
pub struct Config {
    pub monitor: i32,
    /// `right`, `left` or `center`.
    pub position_x: String,
    /// `top` or `bottom`.
    pub position_y: String,
    pub popup_width: i32,
    pub slot_height: i32,
    pub spacing: i32,
    pub margin_top: i32,
    pub margin_right: i32,
    pub max_visible: i32,
    /// Seconds before a normal notification expires; 0 keeps it.
    pub timeout_normal: u32,
    pub timeout_low: u32,
    pub timeout_critical: u32,
    pub animation_duration_ms: u32,
    pub hover_pause: bool,
    pub click_to_dismiss: bool,
    pub close_button_on_hover: bool,
    /// Largest popup height in pixels; 0 leaves it to the screen.
    pub max_popup_height: i32,
    pub max_center_height: i32,
    pub dnd_enabled: bool,
    pub log_enabled: bool,
    pub log_path: String,
}

pub fn default_monitor() -> (r: i32)
    ensures
        r == 0,
{
    0
}

pub fn default_position_x() -> (r: String)
    ensures
        r@ == "right"@,
{
    String::from_str("right")
}

pub fn default_position_y() -> (r: String)
    ensures
        r@ == "top"@,
{
    String::from_str("top")
}

pub fn default_popup_width() -> (r: i32)
    ensures
        r == 400,
{
    400
}

pub fn default_slot_height() -> (r: i32)
    ensures
        r == 75,
{
    75
}

pub fn default_spacing() -> (r: i32)
    ensures
        r == 8,
{
    8
}

pub fn default_margin() -> (r: i32)
    ensures
        r == 12,
{
    12
}

pub fn default_max_visible() -> (r: i32)
    ensures
        r == 3,
{
    3
}

pub fn default_timeout_normal() -> (r: u32)
    ensures
        r == 10,
{
    10
}

pub fn default_timeout_low() -> (r: u32)
    ensures
        r == 5,
{
    5
}

pub fn default_timeout_critical() -> (r: u32)
    ensures
        r == 0,
{
    0
}

pub fn default_animation_duration() -> (r: u32)
    ensures
        r == 200,
{
    200
}

pub fn default_max_popup_height() -> (r: i32)
    ensures
        r == 600,
{
    600
}

pub fn default_max_center_height() -> (r: i32)
    ensures
        r == 600,
{
    600
}

pub fn default_true() -> (r: bool)
    ensures
        r,
{
    true
}

impl Config {
    /// The default settings, logging to `log_path`.
    pub fn with_log_path(log_path: String) -> (r: Config)
        ensures
            r.monitor == 0,
            r.position_x@ == "right"@,
            r.position_y@ == "top"@,
            r.popup_width == 400,
            r.slot_height == 75,
            r.spacing == 8,
            r.margin_top == 12,
            r.margin_right == 12,
            r.max_visible == 3,
            r.timeout_normal == 10,
            r.timeout_low == 5,
            r.timeout_critical == 0,
            r.animation_duration_ms == 200,
            r.hover_pause,
            r.click_to_dismiss,
            !r.close_button_on_hover,
            r.max_popup_height == 600,
            r.max_center_height == 600,
            r.dnd_enabled,
            r.log_enabled,
            r.log_path == log_path,
    {
        Config {
            monitor: default_monitor(),
            position_x: default_position_x(),
            position_y: default_position_y(),
            popup_width: default_popup_width(),
            slot_height: default_slot_height(),
            spacing: default_spacing(),
            margin_top: default_margin(),
            margin_right: default_margin(),
            max_visible: default_max_visible(),
            timeout_normal: default_timeout_normal(),
            timeout_low: default_timeout_low(),
            timeout_critical: default_timeout_critical(),
            animation_duration_ms: default_animation_duration(),
            hover_pause: default_true(),
            click_to_dismiss: default_true(),
            close_button_on_hover: false,
            max_popup_height: default_max_popup_height(),
            max_center_height: default_max_center_height(),
            dnd_enabled: default_true(),
            log_enabled: default_true(),
            log_path,
        }
    }

    /// The configured expiry in seconds for an urgency byte: 0 is low, 2 is
    /// critical, any other is normal.
    pub open spec fn spec_timeout_for_urgency(&self, urgency: u8) -> u32 {
        if urgency == 0 {
            self.timeout_low
        } else if urgency == 2 {
            self.timeout_critical
        } else {
            self.timeout_normal
        }
    }

    pub fn timeout_for_urgency(&self, urgency: u8) -> (r: u32)
        ensures
            r == self.spec_timeout_for_urgency(urgency),
    {
        match urgency {
            0 => self.timeout_low,
            2 => self.timeout_critical,
            _ => self.timeout_normal,
        }
    }

    /// Seconds that a popup stays before it expires, 0 for never: the
    /// protocol's 0 never expires, a negative value takes the configured
    /// expiry of the urgency, and positive milliseconds are rounded down to
    /// whole seconds, at least one.
    pub open spec fn spec_popup_timeout(&self, timeout: i32, urgency: Urgency) -> u32 {
        if timeout == 0 {
            0
        } else if timeout < 0 {
            self.spec_timeout_for_urgency(urgency.spec_level())
        } else if timeout / 1000 >= 1 {
            (timeout / 1000) as u32
        } else {
            1
        }
    }

    pub fn popup_timeout(&self, timeout: i32, urgency: Urgency) -> (r: u32)
        ensures
            r == self.spec_popup_timeout(timeout, urgency),
    {
        if timeout == 0 {
            0
        } else if timeout < 0 {
            self.timeout_for_urgency(urgency.level())
        } else {
            let secs = (timeout as u32) / 1000;
            if secs >= 1 {
                secs
            } else {
                1
            }
        }
    }
}

} // verus!

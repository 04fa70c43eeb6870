//! The overlay at the bottom of the screen: what it says, where it stands and when
//! it goes.
use vstd::prelude::*;

verus! {

/// How long an error stays on display, in milliseconds.
pub const ERROR_MS: u64 = 2_600;

/// A message on the overlay.
#[derive(Debug, Clone, PartialEq, Eq)]
#[verifier::ext_equal]
pub struct OverlayMsg<T = String> {
    pub phase: T,
    pub text: T,
    pub hint: T,
}

impl View for OverlayMsg {
    type V = OverlayMsg<Seq<char>>;

    open spec fn view(&self) -> OverlayMsg<Seq<char>> {
        OverlayMsg { phase: self.phase@, text: self.text@, hint: self.hint@ }
    }
}

/// A message with these texts.
pub fn message(phase: &str, text: &str, hint: &str) -> (r: OverlayMsg)
    ensures
        r@ == (OverlayMsg { phase: phase@, text: text@, hint: hint@ }),
{
    OverlayMsg { phase: phase.to_string(), text: text.to_string(), hint: hint.to_string() }
}

/// The message on an error.
pub open spec fn error_message(text: Seq<char>) -> OverlayMsg<Seq<char>> {
    OverlayMsg { phase: "error"@, text, hint: ""@ }
}

/// A rectangle on the screen.
#[derive(Debug, Clone, Copy, PartialEq, Eq, Structural)]
pub struct Area {
    pub x: i32,
    pub y: i32,
    pub width: u32,
    pub height: u32,
}

/// Whether the corners of a rectangle have coordinates.
pub open spec fn on_screen(a: Area) -> bool {
    &&& a.width <= i32::MAX
    &&& a.height <= i32::MAX
    &&& a.x + a.width <= i32::MAX
    &&& a.y + a.height <= i32::MAX
}

/// Half of `n`, rounded towards zero.
pub open spec fn half(n: int) -> int {
    if n >= 0 {
        n / 2
    } else {
        -((-n) / 2)
    }
}

/// Where the overlay, `width` times `height` large, stands on the screen `area`:
/// in the middle, with `margin` between it and the lower edge.
pub fn position(area: Area, width: u32, height: u32, margin: i32) -> (r: (i32, i32))
    requires
        on_screen(area),
        width <= i32::MAX,
        height <= i32::MAX,
        i32::MIN <= area.x + half(area.width - width) <= i32::MAX,
        i32::MIN <= area.y + area.height - height <= i32::MAX,
        i32::MIN <= area.y + area.height - height - margin <= i32::MAX,
    ensures
        r.0 == area.x + half(area.width - width),
        r.1 == area.y + area.height - height - margin,
{
    let dx: i32 = if area.width >= width {
        ((area.width - width) / 2) as i32
    } else {
        -(((width - area.width) / 2) as i32)
    };
    (area.x + dx, area.y + area.height as i32 - height as i32 - margin)
}

/// Which message the overlay shows, by its number.
#[derive(Debug, Clone, Copy, PartialEq, Eq, Structural)]
pub struct Overlay {
    pub generation: u64,
}

/// The number behind `n`; behind the largest comes zero.
pub open spec fn following(n: u64) -> u64 {
    if n == u64::MAX {
        0
    } else {
        (n + 1) as u64
    }
}

impl Overlay {
    /// An overlay that has shown nothing.
    pub fn new() -> (s: Self)
        ensures
            s.generation == 0,
    {
        Overlay { generation: 0 }
    }

    /// Shows another message, and gives its number.
    pub fn show(&mut self) -> (n: u64)
        ensures
            final(self).generation == following(old(self).generation),
            n == final(self).generation,
    {
        if self.generation == u64::MAX {
            self.generation = 0;
        } else {
            self.generation = self.generation + 1;
        }
        self.generation
    }

    /// Whether the overlay is hidden once the time of the message `n` is up: only
    /// where no other message was shown meanwhile.
    pub fn hides(&self, n: u64) -> (b: bool)
        ensures
            b == (self.generation == n),
    {
        self.generation == n
    }
}

/// The overlay stands inside the screen where it and the margin fit.
pub proof fn overlays_stand_on_the_screen(area: Area, width: u32, height: u32, margin: i32)
    requires
        on_screen(area),
        width <= area.width,
        margin >= 0,
        height + margin <= area.height,
    ensures
        ({
            let x = area.x + half(area.width - width);
            let y = area.y + area.height - height - margin;
            &&& area.x <= x
            &&& x + width <= area.x + area.width
            &&& area.y <= y
            &&& y + height + margin == area.y + area.height
        }),
{
}

/// A message is not hidden by the time of the message before it.
pub proof fn messages_outlive_earlier_ones(n: u64)
    ensures
        following(n) != n,
{
}

/// The overlay stands in the middle: the space on its left and the space on its right
/// differ by one at most.
pub proof fn overlays_stand_in_the_middle(area: Area, width: u32)
    ensures
        ({
            let left = half(area.width - width);
            let right = area.width - width - left;
            -1 <= right - left <= 1
        }),
{
}

}

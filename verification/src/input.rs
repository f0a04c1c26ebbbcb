//! Input tracker: keeps the latest button flags and pointer position as host
//! events arrive, and converts raw device pixels to normalized coordinates.
//!
//! Normalized device coordinates are held in thousandths (milli-NDC): the
//! window spans [-1000, 1000] on each axis, origin at the centre, with the
//! vertical axis flipped so that it grows upward.

use vstd::prelude::*;

verus! {

/// Which mouse button an event speaks of.
#[derive(Copy, Clone, Debug, PartialEq, Eq, Structural)]
pub enum MouseButtonKind {
    Left,
    Right,
    Other,
}

/// A host window event, reduced to the plain values the tracker reads.
#[derive(Copy, Clone, Debug, PartialEq, Eq, Structural)]
pub enum InputEvent {
    /// A button changed state.
    MouseInput { button: MouseButtonKind, pressed: bool },
    /// The pointer moved; position in raw device pixels from the top-left.
    CursorMoved { x: u32, y: u32 },
    /// The window was resized to this many device pixels.
    Resized { width: u32, height: u32 },
    /// Any event the tracker does not read.
    Other,
}

/// A window extent in device pixels.
#[derive(Copy, Clone, Debug, PartialEq, Eq, Structural)]
pub struct ScreenSize {
    pub width: u32,
    pub height: u32,
}

/// Latest known button and pointer state; last write wins, no event queue.
pub struct InputHandler {
    /// The left button is currently held.
    pub lmb: bool,
    /// The right button is currently held.
    pub rmb: bool,
    /// Last known raw pointer position in device pixels from the top-left.
    pub mpos: (u32, u32),
    pub scrn_size: ScreenSize,
}

impl InputHandler {
    /// The window never degenerates to zero extent.
    pub open spec fn wf(self) -> bool {
        self.scrn_size.width >= 1 && self.scrn_size.height >= 1
    }

    /// Horizontal pointer position in milli-NDC: `(px / w) * 2 - 1`, scaled
    /// by 1000 and rounded toward the left edge.
    pub open spec fn spec_norm_x(self) -> int {
        2000 * (self.mpos.0 as int) / (self.scrn_size.width as int) - 1000
    }

    /// Vertical pointer position in milli-NDC, flipped so it grows upward:
    /// `-((py / h) * 2 - 1)`, scaled by 1000.
    pub open spec fn spec_norm_y(self) -> int {
        1000 - 2000 * (self.mpos.1 as int) / (self.scrn_size.height as int)
    }

    pub fn new(scrn_size: ScreenSize) -> (h: InputHandler)
        requires
            scrn_size.width >= 1,
            scrn_size.height >= 1,
        ensures
            h.wf(),
            !h.lmb,
            !h.rmb,
            h.mpos == (0u32, 0u32),
            h.scrn_size == scrn_size,
    {
        InputHandler { lmb: false, rmb: false, mpos: (0, 0), scrn_size }
    }

    /// Fold one host event into the state. Each event touches exactly the
    /// field it speaks of; a resize to a degenerate extent is ignored.
    pub fn register_event(&mut self, event: &InputEvent)
        ensures
            final(self).lmb == (match *event {
                InputEvent::MouseInput { button: MouseButtonKind::Left, pressed } => pressed,
                _ => old(self).lmb,
            }),
            final(self).rmb == (match *event {
                InputEvent::MouseInput { button: MouseButtonKind::Right, pressed } => pressed,
                _ => old(self).rmb,
            }),
            final(self).mpos == (match *event {
                InputEvent::CursorMoved { x, y } => (x, y),
                _ => old(self).mpos,
            }),
            final(self).scrn_size == (match *event {
                InputEvent::Resized { width, height } => (if width >= 1 && height >= 1 {
                    ScreenSize { width, height }
                } else {
                    old(self).scrn_size
                }),
                _ => old(self).scrn_size,
            }),
    {
        match event {
            InputEvent::MouseInput { button, pressed } => match button {
                MouseButtonKind::Left => self.lmb = *pressed,
                MouseButtonKind::Right => self.rmb = *pressed,
                MouseButtonKind::Other => {},
            },
            InputEvent::CursorMoved { x, y } => self.mpos = (*x, *y),
            InputEvent::Resized { width, height } => {
                if *width >= 1 && *height >= 1 {
                    self.scrn_size = ScreenSize { width: *width, height: *height };
                }
            },
            InputEvent::Other => {},
        }
    }

    /// The pointer position in milli-NDC, converted from device pixels at
    /// query time against the current window extent.
    pub fn get_screen_mouse_position(&self) -> (p: (i64, i64))
        requires
            self.wf(),
        ensures
            p.0 == self.spec_norm_x(),
            p.1 == self.spec_norm_y(),
    {
        let nx = ((self.mpos.0 as u64 * 2000) / (self.scrn_size.width as u64)) as i64 - 1000;
        let ny = 1000 - ((self.mpos.1 as u64 * 2000) / (self.scrn_size.height as u64)) as i64;
        (nx, ny)
    }
}

} // verus!

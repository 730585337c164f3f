//! The display-backend session: one front buffer, a presented screen block,
//! a FIFO queue of one-shot events, and the event-driven lifecycle state
//! machine Active / Stopped / Closed.
//!
//! The display driver's side is the event queue: whoever drives the session
//! pushes the events the driver emitted, in order, and presentation copies
//! the front buffer into the session's screen block.

use vstd::prelude::*;
use crate::pixel::PixelType;
use crate::pixmap::{spec_alloc_ok, zeroed_bytes, Pixmap, PixelStore};

verus! {

/// An input event, as the display driver reports it: a device code and a
/// value such as a key press or release.
#[derive(Clone, Copy, PartialEq, Eq, Structural, Debug)]
pub struct InputEvent {
    /// Device-defined code of the key or axis.
    pub code: u32,
    /// Device-defined value, such as pressed or released.
    pub value: i32,
}

/// A system event of the display connection.
#[derive(Clone, Copy, PartialEq, Eq, Structural, Debug)]
pub enum SystemEvent {
    /// The connection is going away; the session closes.
    Quit,
    /// Rendering into the front buffer must stop and be acknowledged.
    RenderStop,
    /// Rendering may resume once the previous stop was acknowledged.
    RenderStart,
    /// The front buffer should take the given logical size.
    RenderResize(u32, u32),
    /// Pixel values derived for the old format must be recomputed for this one.
    RenderPixelTypeChange(PixelType),
}

/// A one-shot event: a closed tagged union over system and input events,
/// produced in driver order and consumed exactly once.
#[derive(Clone, Copy, PartialEq, Eq, Structural, Debug)]
pub enum Event {
    /// A lifecycle or geometry event of the connection itself.
    System(SystemEvent),
    /// An input device event.
    Input(InputEvent),
}

impl Event {
    /// The event class: 1 for a system event, 2 for an input event.
    pub open spec fn spec_ev_type(self) -> u32 {
        match self {
            Event::System(_) => 1,
            Event::Input(_) => 2,
        }
    }

    /// The event code: a fixed number per system event, the device code of
    /// an input event.
    pub open spec fn spec_ev_code(self) -> u32 {
        match self {
            Event::System(SystemEvent::Quit) => 1,
            Event::System(SystemEvent::RenderStop) => 2,
            Event::System(SystemEvent::RenderStart) => 3,
            Event::System(SystemEvent::RenderResize(_, _)) => 4,
            Event::System(SystemEvent::RenderPixelTypeChange(_)) => 5,
            Event::Input(inp) => inp.code,
        }
    }

    /// The event class: 1 for a system event, 2 for an input event.
    pub fn ev_type(&self) -> (r: u32)
        ensures
            r == self.spec_ev_type(),
    {
        match self {
            Event::System(_) => 1,
            Event::Input(_) => 2,
        }
    }

    /// The event code: a fixed number per system event, the device code of
    /// an input event.
    pub fn ev_code(&self) -> (r: u32)
        ensures
            r == self.spec_ev_code(),
    {
        match self {
            Event::System(SystemEvent::Quit) => 1,
            Event::System(SystemEvent::RenderStop) => 2,
            Event::System(SystemEvent::RenderStart) => 3,
            Event::System(SystemEvent::RenderResize(_, _)) => 4,
            Event::System(SystemEvent::RenderPixelTypeChange(_)) => 5,
            Event::Input(inp) => inp.code,
        }
    }

    /// The new width a resize event carries; 0 for every other event.
    pub fn new_w(&self) -> (r: u32)
        ensures
            forall|w: u32, h: u32| *self == Event::System(SystemEvent::RenderResize(w, h)) ==> r == w,
            !(*self matches Event::System(SystemEvent::RenderResize(..))) ==> r == 0,
    {
        match self {
            Event::System(SystemEvent::RenderResize(w, _)) => *w,
            _ => 0,
        }
    }

    /// The new height a resize event carries; 0 for every other event.
    pub fn new_h(&self) -> (r: u32)
        ensures
            forall|w: u32, h: u32| *self == Event::System(SystemEvent::RenderResize(w, h)) ==> r == h,
            !(*self matches Event::System(SystemEvent::RenderResize(..))) ==> r == 0,
    {
        match self {
            Event::System(SystemEvent::RenderResize(_, h)) => *h,
            _ => 0,
        }
    }

    /// The format a pixel-format-change event carries.
    pub fn pixel_type(&self) -> (r: Option<PixelType>)
        ensures
            forall|pt: PixelType|
                *self == Event::System(SystemEvent::RenderPixelTypeChange(pt)) ==> r == Some(pt),
            !(*self matches Event::System(SystemEvent::RenderPixelTypeChange(..))) ==> r.is_none(),
    {
        match self {
            Event::System(SystemEvent::RenderPixelTypeChange(pt)) => Some(*pt),
            _ => None,
        }
    }
}

/// Lifecycle state of a backend session.
#[derive(Clone, Copy, PartialEq, Eq, Structural, Debug)]
pub enum SessionState {
    /// Rendering and presentation are permitted.
    Active,
    /// A RenderStop was received. `acked` records whether `render_stopped`
    /// has been called for it; `restart_seen` whether a RenderStart arrived
    /// before the acknowledgment.
    Stopped { acked: bool, restart_seen: bool },
    /// Quit was received; terminal.
    Closed,
}

impl SessionState {
    /// Whether rendering into the front buffer is permitted: in the active
    /// state, or after a stop was acknowledged. Drawing after a RenderStop
    /// and before `render_stopped` is the documented precondition violation.
    pub open spec fn spec_render_allowed(self) -> bool {
        match self {
            SessionState::Active => true,
            SessionState::Stopped { acked, restart_seen: _ } => acked,
            SessionState::Closed => false,
        }
    }
}

/// The lifecycle step a session takes on receiving `ev`: Quit closes from
/// any state, RenderStop suspends the active state, RenderStart resumes once
/// the stop was acknowledged, and every other event keeps the state.
pub open spec fn spec_step(s: SessionState, ev: Event) -> SessionState {
    match s {
        SessionState::Closed => SessionState::Closed,
        SessionState::Active => match ev {
            Event::System(SystemEvent::Quit) => SessionState::Closed,
            Event::System(SystemEvent::RenderStop) => SessionState::Stopped {
                acked: false,
                restart_seen: false,
            },
            _ => SessionState::Active,
        },
        SessionState::Stopped { acked, restart_seen } => match ev {
            Event::System(SystemEvent::Quit) => SessionState::Closed,
            Event::System(SystemEvent::RenderStart) => if acked {
                SessionState::Active
            } else {
                SessionState::Stopped { acked, restart_seen: true }
            },
            _ => SessionState::Stopped { acked, restart_seen },
        },
    }
}

/// The state after `render_stopped` acknowledges a pending stop: back to
/// active when the RenderStart already arrived, otherwise stopped with the
/// acknowledgment recorded.
pub open spec fn spec_ack(s: SessionState) -> SessionState {
    match s {
        SessionState::Stopped { acked: false, restart_seen } => if restart_seen {
            SessionState::Active
        } else {
            SessionState::Stopped { acked: true, restart_seen: false }
        },
        _ => s,
    }
}

/// A live display session: the front buffer it owns, the screen block the
/// buffer is presented into, the pending event queue, and the lifecycle
/// state.
pub struct Backend {
    /// Metadata of the front buffer.
    pub pixmap: Pixmap,
    /// Storage block of the front buffer's family.
    pub store: PixelStore,
    /// The presented bytes: what the display currently shows.
    pub screen: Vec<u8>,
    /// Lifecycle state.
    pub state: SessionState,
    /// Events the driver has produced and the session has not yet consumed,
    /// in FIFO order.
    pub events: Vec<Event>,
}

impl Backend {
    /// The session's front buffer fits its storage, and the screen block
    /// mirrors the storage block's size.
    pub open spec fn wf(self) -> bool {
        &&& self.pixmap.valid(self.store)
        &&& self.screen@.len() == self.store.bytes@.len()
    }

    /// Opens a session: allocates a zeroed front buffer of the preferred
    /// size and starts active with no pending events. Yields `None` — an
    /// absence, not a failure — when no such buffer can be had. The
    /// connection spec and caption are opaque tokens of the display
    /// provider; this in-memory session does not interpret them.
    #[allow(unused_variables)]
    pub fn init(params: &str, pref_w: u32, pref_h: u32, caption: &str) -> (r: Option<Backend>)
        ensures
            match r {
                Some(b) => {
                    &&& spec_alloc_ok(
                        pref_w as int,
                        pref_h as int,
                        pref_w * PixelType::Rgb888.spec_bpp(),
                    )
                    &&& b.wf()
                    &&& b.state == SessionState::Active
                    &&& b.events@.len() == 0
                    &&& b.pixmap.raw_w == pref_w
                    &&& b.pixmap.raw_h == pref_h
                    &&& b.pixmap.format == PixelType::Rgb888
                    &&& !b.pixmap.x_swap && !b.pixmap.y_swap && !b.pixmap.axes_swap
                    &&& b.store.holders == 1
                    &&& forall|x: int, y: int| b.pixmap.pixel_at(b.store.bytes@, x, y) == 0
                },
                None => !spec_alloc_ok(
                    pref_w as int,
                    pref_h as int,
                    pref_w * PixelType::Rgb888.spec_bpp(),
                ),
            },
    {
        match Pixmap::new(pref_w, pref_h, PixelType::Rgb888, 0) {
            Ok((pm, st)) => {
                let n = st.bytes.len();
                let screen = zeroed_bytes(n);
                Some(
                    Backend {
                        pixmap: pm,
                        store: st,
                        screen,
                        state: SessionState::Active,
                        events: Vec::new(),
                    },
                )
            },
            Err(_) => None,
        }
    }

    /// Whether rendering into the front buffer is permitted now.
    pub fn render_allowed(&self) -> (r: bool)
        ensures
            r == self.state.spec_render_allowed(),
    {
        match self.state {
            SessionState::Active => true,
            SessionState::Stopped { acked, restart_seen: _ } => acked,
            SessionState::Closed => false,
        }
    }

    /// Presents the whole front buffer: the screen block becomes a copy of
    /// the buffer, whose own content is observably unchanged.
    pub fn update(&mut self)
        requires
            old(self).wf(),
            old(self).state.spec_render_allowed(),
        ensures
            final(self).wf(),
            final(self).pixmap == old(self).pixmap,
            final(self).store.bytes@ == old(self).store.bytes@,
            final(self).store.holders == old(self).store.holders,
            final(self).store.external == old(self).store.external,
            final(self).state == old(self).state,
            final(self).events@ == old(self).events@,
            final(self).screen@ == old(self).store.bytes@,
    {
        self.screen = copy_bytes(&self.store.bytes);
    }

    /// Presents the rectangle with inclusive corners (x0, y0) and (x1, y1)
    /// of the front buffer, clipped to its logical extent: cheaper than a
    /// full update, with the same content-preservation guarantee.
    #[verifier::loop_isolation(false)]
    pub fn update_rect(&mut self, x0: i32, y0: i32, x1: i32, y1: i32)
        requires
            old(self).wf(),
            old(self).state.spec_render_allowed(),
        ensures
            final(self).wf(),
            final(self).pixmap == old(self).pixmap,
            final(self).store.bytes@ == old(self).store.bytes@,
            final(self).store.holders == old(self).store.holders,
            final(self).store.external == old(self).store.external,
            final(self).state == old(self).state,
            final(self).events@ == old(self).events@,
            final(self).screen@.len() == old(self).screen@.len(),
            forall|x: int, y: int|
                #![trigger old(self).pixmap.pixel_at(final(self).screen@, x, y)]
                old(self).pixmap.pixel_at(final(self).screen@, x, y) == if x0 <= x <= x1 && y0 <= y
                    <= y1 && old(self).pixmap.in_bounds(x, y) {
                    old(self).pixmap.pixel_at(old(self).store.bytes@, x, y)
                } else {
                    old(self).pixmap.pixel_at(old(self).screen@, x, y)
                },
    {
        let x_lo: i64 = if x0 < 0 {
            0
        } else {
            x0 as i64
        };
        let x_hi: i64 = if (x1 as i64) < self.pixmap.w() as i64 - 1 {
            x1 as i64
        } else {
            self.pixmap.w() as i64 - 1
        };
        let y_lo: i64 = if y0 < 0 {
            0
        } else {
            y0 as i64
        };
        let y_hi: i64 = if (y1 as i64) < self.pixmap.h() as i64 - 1 {
            y1 as i64
        } else {
            self.pixmap.h() as i64 - 1
        };
        let mut y: i64 = y_lo;
        while y <= y_hi
            invariant
                self.pixmap == old(self).pixmap,
                self.store.bytes@ == old(self).store.bytes@,
                self.store.holders == old(self).store.holders,
                self.store.external == old(self).store.external,
                self.state == old(self).state,
                self.events@ == old(self).events@,
                self.screen@.len() == old(self).screen@.len(),
                y_lo <= y,
                forall|xx: int, yy: int|
                    #![trigger self.pixmap.pixel_at(self.screen@, xx, yy)]
                    self.pixmap.pixel_at(self.screen@, xx, yy) == if x0 <= xx <= x1 && y0 <= yy
                        <= y1 && self.pixmap.in_bounds(xx, yy) && yy < y {
                        self.pixmap.pixel_at(self.store.bytes@, xx, yy)
                    } else {
                        self.pixmap.pixel_at(old(self).screen@, xx, yy)
                    },
            decreases y_hi - y + 1,
        {
            let mut x: i64 = x_lo;
            while x <= x_hi
                invariant
                    self.pixmap == old(self).pixmap,
                    self.store.bytes@ == old(self).store.bytes@,
                    self.store.holders == old(self).store.holders,
                    self.store.external == old(self).store.external,
                    self.state == old(self).state,
                    self.events@ == old(self).events@,
                    self.screen@.len() == old(self).screen@.len(),
                    x_lo <= x,
                    y_lo <= y <= y_hi,
                    forall|xx: int, yy: int|
                        #![trigger self.pixmap.pixel_at(self.screen@, xx, yy)]
                        self.pixmap.pixel_at(self.screen@, xx, yy) == if x0 <= xx <= x1 && y0 <= yy
                            <= y1 && self.pixmap.in_bounds(xx, yy) && (yy < y || (yy == y && xx
                            < x)) {
                            self.pixmap.pixel_at(self.store.bytes@, xx, yy)
                        } else {
                            self.pixmap.pixel_at(old(self).screen@, xx, yy)
                        },
                decreases x_hi - x + 1,
            {
                let v = self.pixmap.get_pixel_bytes(&self.store.bytes, x as i32, y as i32);
                proof {
                    crate::pixmap::lemma_pixel_at_fits(
                        self.pixmap,
                        self.store.bytes@,
                        x as int,
                        y as int,
                    );
                }
                self.pixmap.put_pixel_bytes(&mut self.screen, x as i32, y as i32, v);
                x = x + 1;
            }
            y = y + 1;
        }
    }

    /// Presents by exchanging the front buffer's storage with the screen
    /// block: faster than an update, with no guarantee on the buffer's
    /// content afterwards.
    pub fn flip(&mut self)
        requires
            old(self).wf(),
            old(self).state.spec_render_allowed(),
        ensures
            final(self).wf(),
            final(self).pixmap == old(self).pixmap,
            final(self).store.holders == old(self).store.holders,
            final(self).store.external == old(self).store.external,
            final(self).state == old(self).state,
            final(self).events@ == old(self).events@,
            final(self).screen@ == old(self).store.bytes@,
            final(self).store.bytes@ == old(self).screen@,
    {
        core::mem::swap(&mut self.screen, &mut self.store.bytes);
    }

    /// Hands the session the next event the display driver produced; the
    /// driver's side of the queue.
    pub fn push_event(&mut self, ev: Event)
        ensures
            final(self).pixmap == old(self).pixmap,
            final(self).store.bytes@ == old(self).store.bytes@,
            final(self).store.holders == old(self).store.holders,
            final(self).store.external == old(self).store.external,
            final(self).screen@ == old(self).screen@,
            final(self).state == old(self).state,
            final(self).events@ == old(self).events@.push(ev),
    {
        self.events.push(ev);
    }

    /// Consumes the oldest pending event, taking the lifecycle step it
    /// commands, and returns it; each event is consumed exactly once, in
    /// FIFO order. `None` means no event is pending yet: the driver has to
    /// produce one before the session can proceed.
    pub fn wait_ev(&mut self) -> (r: Option<Event>)
        ensures
            final(self).pixmap == old(self).pixmap,
            final(self).store.bytes@ == old(self).store.bytes@,
            final(self).store.holders == old(self).store.holders,
            final(self).store.external == old(self).store.external,
            final(self).screen@ == old(self).screen@,
            match r {
                Some(ev) => {
                    &&& old(self).events@.len() > 0
                    &&& ev == old(self).events@[0]
                    &&& final(self).events@ == old(self).events@.remove(0)
                    &&& final(self).state == spec_step(old(self).state, ev)
                },
                None => {
                    &&& old(self).events@.len() == 0
                    &&& final(self).events@ == old(self).events@
                    &&& final(self).state == old(self).state
                },
            },
    {
        if self.events.len() == 0 {
            return None;
        }
        let ev = self.events.remove(0);
        self.state = step_state(self.state, &ev);
        Some(ev)
    }

    /// Acknowledges a received RenderStop. Must be called exactly once after
    /// that event and before any further rendering; a session without a
    /// pending, unacknowledged stop must not call it.
    pub fn render_stopped(&mut self)
        requires
            old(self).state matches SessionState::Stopped { acked: false, .. },
        ensures
            final(self).pixmap == old(self).pixmap,
            final(self).store.bytes@ == old(self).store.bytes@,
            final(self).store.holders == old(self).store.holders,
            final(self).store.external == old(self).store.external,
            final(self).screen@ == old(self).screen@,
            final(self).events@ == old(self).events@,
            final(self).state == spec_ack(old(self).state),
    {
        match self.state {
            SessionState::Stopped { acked: _, restart_seen } => {
                if restart_seen {
                    self.state = SessionState::Active;
                } else {
                    self.state = SessionState::Stopped { acked: true, restart_seen: false };
                }
            },
            _ => {},
        }
    }
}

/// The lifecycle step a session takes on `ev`.
fn step_state(s: SessionState, ev: &Event) -> (r: SessionState)
    ensures
        r == spec_step(s, *ev),
{
    match s {
        SessionState::Closed => SessionState::Closed,
        SessionState::Active => match ev {
            Event::System(SystemEvent::Quit) => SessionState::Closed,
            Event::System(SystemEvent::RenderStop) => SessionState::Stopped {
                acked: false,
                restart_seen: false,
            },
            _ => SessionState::Active,
        },
        SessionState::Stopped { acked, restart_seen } => match ev {
            Event::System(SystemEvent::Quit) => SessionState::Closed,
            Event::System(SystemEvent::RenderStart) => if acked {
                SessionState::Active
            } else {
                SessionState::Stopped { acked, restart_seen: true }
            },
            _ => SessionState::Stopped { acked, restart_seen },
        },
    }
}

/// A fresh copy of the given bytes.
fn copy_bytes(src: &Vec<u8>) -> (r: Vec<u8>)
    ensures
        r@ == src@,
{
    let mut v: Vec<u8> = Vec::new();
    let mut i: usize = 0;
    while i < src.len()
        invariant
            i <= src@.len(),
            v@.len() == i,
            forall|k: int| 0 <= k < i ==> v@[k] == src@[k],
        decreases src@.len() - i,
    {
        v.push(src[i]);
        i = i + 1;
    }
    proof {
        assert(v@ =~= src@);
    }
    v
}

/// Receiving RenderStop in the active state suspends rendering: until the
/// stop is acknowledged, update, update_rect and flip are not permitted.
pub proof fn lemma_render_stop_blocks(s: SessionState)
    requires
        s == SessionState::Active,
    ensures
        spec_step(s, Event::System(SystemEvent::RenderStop)) == (SessionState::Stopped {
            acked: false,
            restart_seen: false,
        }),
        !spec_step(s, Event::System(SystemEvent::RenderStop)).spec_render_allowed(),
{
}

/// An unacknowledged stop persists: while a received RenderStop has not
/// been acknowledged, rendering stays blocked, and no further event — only
/// `render_stopped` itself — can make it permitted again; at most Quit
/// closes the session, where rendering is blocked as well. Together with
/// `lemma_render_stop_blocks` this covers the whole window between a
/// RenderStop and its acknowledgment, whatever else the driver emits.
pub proof fn lemma_unacknowledged_stop_persists(s: SessionState, ev: Event)
    requires
        s matches SessionState::Stopped { acked: false, .. },
    ensures
        !s.spec_render_allowed(),
        (spec_step(s, ev) matches SessionState::Stopped { acked: false, .. }) || spec_step(s, ev)
            == SessionState::Closed,
        !spec_step(s, ev).spec_render_allowed(),
{
}

/// Acknowledging a stop and receiving RenderStart — in either order —
/// returns the session to the active state.
pub proof fn lemma_ack_and_start_resume()
    ensures
        spec_ack(SessionState::Stopped { acked: false, restart_seen: false })
            == (SessionState::Stopped { acked: true, restart_seen: false }),
        spec_step(
            SessionState::Stopped { acked: true, restart_seen: false },
            Event::System(SystemEvent::RenderStart),
        ) == SessionState::Active,
        spec_step(
            SessionState::Stopped { acked: false, restart_seen: false },
            Event::System(SystemEvent::RenderStart),
        ) == (SessionState::Stopped { acked: false, restart_seen: true }),
        spec_ack(SessionState::Stopped { acked: false, restart_seen: true })
            == SessionState::Active,
{
}

/// Quit closes the session from any state, and a closed session stays
/// closed on every further event: the state is terminal.
pub proof fn lemma_quit_terminal(s: SessionState, ev: Event)
    ensures
        spec_step(s, Event::System(SystemEvent::Quit)) == SessionState::Closed,
        spec_step(SessionState::Closed, ev) == SessionState::Closed,
{
}

/// Resize events, pixel-format-change events and input events never change
/// the lifecycle state; they only concern front-buffer metadata.
pub proof fn lemma_metadata_events_keep_state(s: SessionState, ev: Event)
    requires
        ev matches Event::System(SystemEvent::RenderResize(..)) || ev matches Event::System(
            SystemEvent::RenderPixelTypeChange(..),
        ) || ev matches Event::Input(..),
    ensures
        spec_step(s, ev) == s,
{
}

} // verus!

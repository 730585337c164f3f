//! In-memory pixel buffers with shared rectangular views, a display-backend
//! session built around an event-driven lifecycle state machine, and a
//! cancellable progress bridge for long-running operations.
//!
//! A buffer family (a root [`Pixmap`](pixmap::Pixmap) plus any number of
//! views) shares one [`PixelStore`](pixmap::PixelStore): an ownership-counted
//! byte block. Structural mutation is gated on being the sole holder of the
//! block; pixel access outside logical bounds is defined behaviour (zero
//! reads, no-op writes), never an error.

use vstd::prelude::*;

pub mod backends;
pub mod gfx;
pub mod pixel;
pub mod pixmap;
pub mod progress;

pub use backends::{Backend, Event, InputEvent, SessionState, SystemEvent};
pub use pixel::PixelType;
pub use pixmap::{Correction, Pixmap, PixelStore};
pub use progress::{bridge, ProgressContext};

verus! {

/// Failure values returned across the public surface; none of them unwinds.
#[derive(Clone, Copy, PartialEq, Eq, Structural, Debug)]
pub enum GfxError {
    /// Storage or metadata allocation failed; always recoverable.
    AllocationFailure,
    /// A structural mutation was attempted while the acting holder was not
    /// the sole owner of the storage block.
    OwnershipConflict,
    /// A view rectangle lies outside its parent's logical extent.
    BoundsError,
    /// A parameter is outside its documented range.
    InvalidParameter,
    /// The progress predicate requested an abort.
    OperationCancelled,
    /// A propagated input/output failure of a bridged operation.
    IoError,
}

} // verus!

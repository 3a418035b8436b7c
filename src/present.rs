//! The double-buffer protocol: which of two buffers is shown and which is written,
//! and what the presentation side does on each tick.
use vstd::prelude::*;

verus! {

/// Which of two pixel buffers is the front (shown) one. The other one is the back
/// buffer, the only one the logic side writes; publishing a finished frame makes
/// the back buffer the front one.
pub struct BufferSelector {
    front: u8,
}

/// The front index after `n` publications starting from `front`.
pub open spec fn front_after(front: nat, n: nat) -> nat
    decreases n,
{
    if n == 0 {
        front
    } else {
        (1 - front_after(front, (n - 1) as nat)) as nat
    }
}

impl BufferSelector {
    /// The front index as a number.
    pub closed spec fn front_spec(&self) -> nat {
        self.front as nat
    }

    /// The front index names one of the two buffers.
    pub open spec fn wf(&self) -> bool {
        self.front_spec() < 2
    }

    /// Buffer 0 in front; buffer 1 is written first.
    pub fn new() -> (r: BufferSelector)
        ensures
            r.wf(),
            r.front_spec() == 0,
    {
        BufferSelector { front: 0 }
    }

    /// The index of the buffer being shown.
    pub fn front(&self) -> (r: u8)
        ensures
            r == self.front_spec(),
    {
        self.front
    }

    /// The index of the buffer to write: always the other one.
    pub fn back(&self) -> (r: u8)
        requires
            self.wf(),
        ensures
            r < 2,
            r != self.front_spec(),
            r == 1 - self.front_spec(),
    {
        1 - self.front
    }

    /// Makes the written buffer the front one; returns the new front index.
    pub fn publish(&mut self) -> (r: u8)
        requires
            old(self).wf(),
        ensures
            final(self).wf(),
            final(self).front_spec() == 1 - old(self).front_spec(),
            r == final(self).front_spec(),
    {
        self.front = 1 - self.front;
        self.front
    }
}

/// However many frames have been published, the buffer being written is never the
/// one being shown.
pub proof fn lemma_back_never_front(front: nat, n: nat)
    requires
        front < 2,
    ensures
        front_after(front, n) < 2,
        (1 - front_after(front, n)) as nat != front_after(front, n),
    decreases n,
{
    if n > 0 {
        lemma_back_never_front(front, (n - 1) as nat);
    }
}

/// One step the presentation side takes on the native surface.
#[derive(Debug, Clone, Copy, PartialEq, Eq, Structural)]
pub enum PresentAction {
    /// Resize the window and its surface to this many physical pixels (width, height).
    ResizeSurface(u64, u64),
    /// Resize the surface's own pixel buffer to the frame's size (width, height).
    ResizeBuffer(u32, u32),
    /// Copy the front buffer's bytes to the surface and present them.
    Present,
}

/// What the presentation side remembers between ticks: the size last given to the
/// surface, the front index it last presented, and the window's scale.
pub struct Presenter {
    pub width: u32,
    pub height: u32,
    pub last_seen: u8,
    pub scale: u32,
}

/// The actions of one tick, in order: on a size change the surface is resized before
/// its pixel buffer; a frame is presented only when a new one was published.
pub open spec fn tick_actions(p: Presenter, front: u8, width: u32, height: u32) -> Seq<PresentAction> {
    let resize = if width != p.width || height != p.height {
        seq![
            PresentAction::ResizeSurface((width * p.scale) as u64, (height * p.scale) as u64),
            PresentAction::ResizeBuffer(width, height),
        ]
    } else {
        Seq::empty()
    };
    let present = if front != p.last_seen {
        seq![PresentAction::Present]
    } else {
        Seq::empty()
    };
    resize + present
}

impl Presenter {
    /// A presenter for a surface of `width` x `height` frame pixels shown at `scale`,
    /// which has seen front index `front`.
    pub fn new(width: u32, height: u32, scale: u32, front: u8) -> (r: Presenter)
        ensures
            r == (Presenter { width, height, last_seen: front, scale }),
    {
        Presenter { width, height, last_seen: front, scale }
    }

    /// One tick: given the current front index and the front buffer's size, says what
    /// to do, and remembers that size and index.
    pub fn tick(&mut self, front: u8, width: u32, height: u32) -> (r: Vec<PresentAction>)
        ensures
            r@ == tick_actions(*old(self), front, width, height),
            *final(self) == (Presenter { width, height, last_seen: front, ..*old(self) }),
    {
        let mut r: Vec<PresentAction> = Vec::new();
        if width != self.width || height != self.height {
            proof {
                assert((width as int) * (self.scale as int) <= u64::MAX) by (nonlinear_arith)
                    requires 0 <= width <= u32::MAX, 0 <= self.scale <= u32::MAX;
                assert((height as int) * (self.scale as int) <= u64::MAX) by (nonlinear_arith)
                    requires 0 <= height <= u32::MAX, 0 <= self.scale <= u32::MAX;
            }
            r.push(
                PresentAction::ResizeSurface((width as u64) * (self.scale as u64), (height as u64) * (self.scale as u64)),
            );
            r.push(PresentAction::ResizeBuffer(width, height));
        }
        if front != self.last_seen {
            r.push(PresentAction::Present);
        }
        proof {
            assert(r@ =~= tick_actions(*old(self), front, width, height));
        }
        self.width = width;
        self.height = height;
        self.last_seen = front;
        r
    }
}

} // verus!

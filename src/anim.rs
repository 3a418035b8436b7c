//! The animation catalogue: named sprite sheets and the playback cursor.
use crate::frame::{rgba_len, Frame};
use crate::sprite::{drawn_bytes, load_error, loaded_sheet, sheet_ok, AnimSpritesheet, FrameGeometry, LoadError, SheetView};
use vstd::prelude::*;

verus! {

/// Microseconds in one second: the unit of every time in this crate.
pub const MICROS_PER_SEC: u64 = 1_000_000;

/// A request for an animation name that was never registered.
#[derive(Debug, Clone, Copy, PartialEq, Eq, Structural)]
pub enum AnimError {
    UnknownAnimation,
}

/// The catalogue as plain values: names and sheets side by side, and the cursor.
pub struct CatalogView {
    pub names: Seq<Seq<char>>,
    pub sheets: Seq<SheetView>,
    pub current: Option<nat>,
    pub frame: nat,
    pub elapsed: nat,
    pub flipped: bool,
}

/// No name is registered twice.
pub open spec fn names_unique(names: Seq<Seq<char>>) -> bool {
    forall|i: int, j: int| 0 <= i < names.len() && 0 <= j < names.len() && names[i] == names[j] ==> i == j
}

/// The position of `name` among `names`, where it occurs.
pub open spec fn position_of(names: Seq<Seq<char>>, name: Seq<char>) -> int {
    choose|j: int| 0 <= j < names.len() && names[j] == name
}

/// A consistent catalogue: unique names, usable sheets, and a cursor on a real frame.
pub open spec fn catalog_ok(c: CatalogView) -> bool {
    &&& c.names.len() == c.sheets.len()
    &&& names_unique(c.names)
    &&& forall|i: int| 0 <= i < c.sheets.len() ==> sheet_ok(#[trigger] c.sheets[i])
    &&& c.elapsed <= u64::MAX
    &&& match c.current {
        Some(i) => i < c.sheets.len() && c.frame < c.sheets[i as int].frames,
        None => c.frame == 0,
    }
}

/// The catalogue after `set_anim(name)` of a registered name: that animation,
/// from its first frame, with a fresh frame clock.
pub open spec fn select_spec(c: CatalogView, name: Seq<char>) -> CatalogView {
    CatalogView { current: Some(position_of(c.names, name) as nat), frame: 0, elapsed: 0, ..c }
}

/// Whether `elapsed` microseconds exceed one frame period at `fps` frames per second.
pub open spec fn period_exceeded(elapsed: nat, fps: nat) -> bool {
    elapsed * fps > MICROS_PER_SEC
}

/// The catalogue after `update(delta)`: the clock runs on (saturating), and once it
/// exceeds one frame period the cursor moves on by exactly one frame and the clock
/// starts again.
pub open spec fn advance_spec(c: CatalogView, delta: nat) -> CatalogView {
    let e = if c.elapsed + delta > u64::MAX { u64::MAX as nat } else { c.elapsed + delta };
    match c.current {
        Some(i) => if period_exceeded(e, c.sheets[i as int].fps) {
            CatalogView { elapsed: 0, frame: (c.frame + 1) % c.sheets[i as int].frames, ..c }
        } else {
            CatalogView { elapsed: e, ..c }
        },
        None => CatalogView { elapsed: e, ..c },
    }
}

/// The catalogue after `n` calls of `update(delta)`.
pub open spec fn advance_times(c: CatalogView, delta: nat, n: nat) -> CatalogView
    decreases n,
{
    if n == 0 {
        c
    } else {
        advance_spec(advance_times(c, delta, (n - 1) as nat), delta)
    }
}

/// What `draw` leaves in a frame: the current frame of the current animation at its
/// own size, or the frame untouched when nothing is selected.
pub open spec fn drawn_frame(c: CatalogView, width: nat, height: nat, bytes: Seq<u8>) -> (nat, nat, Seq<u8>) {
    match c.current {
        Some(i) => {
            let s = c.sheets[i as int];
            (s.width, s.height, drawn_bytes(s, c.frame, c.flipped))
        },
        None => (width, height, bytes),
    }
}

/// The catalogue after registering `sheet` under `name`: an earlier sheet of that
/// name is replaced (and, if it was playing, the new one plays from its first frame),
/// a new name is added at the end.
pub open spec fn insert_spec(c: CatalogView, name: Seq<char>, sheet: SheetView) -> CatalogView {
    if c.names.contains(name) {
        let j = position_of(c.names, name);
        if c.current == Some(j as nat) {
            CatalogView { sheets: c.sheets.update(j, sheet), frame: 0, elapsed: 0, ..c }
        } else {
            CatalogView { sheets: c.sheets.update(j, sheet), ..c }
        }
    } else {
        CatalogView { names: c.names.push(name), sheets: c.sheets.push(sheet), ..c }
    }
}

/// The settings of one animation being registered: a name and, optionally, how
/// its sheet is cut. With none of the four sizes set the whole image is one frame.
pub struct AnimHandle {
    pub name: String,
    pub width: Option<u32>,
    pub height: Option<u32>,
    pub frames: Option<u32>,
    pub fps: Option<u32>,
}

impl AnimHandle {
    /// Either all four sizes are set or none is.
    pub open spec fn is_complete(&self) -> bool {
        (self.width is Some && self.height is Some && self.frames is Some && self.fps is Some) || (
        self.width is None && self.height is None && self.frames is None && self.fps is None)
    }

    /// The geometry the handle describes (`None`: the whole image, one frame).
    pub open spec fn geometry_spec(&self) -> Option<FrameGeometry> {
        if self.width is Some {
            Some(
                FrameGeometry {
                    width: self.width->Some_0,
                    height: self.height->Some_0,
                    frames: self.frames->Some_0,
                    fps: self.fps->Some_0,
                },
            )
        } else {
            None
        }
    }

    /// Sets the frame width.
    pub fn width(self, width: u32) -> (r: Self)
        ensures
            r == (AnimHandle { width: Some(width), ..self }),
    {
        AnimHandle { width: Some(width), ..self }
    }

    /// Sets the frame height.
    pub fn height(self, height: u32) -> (r: Self)
        ensures
            r == (AnimHandle { height: Some(height), ..self }),
    {
        AnimHandle { height: Some(height), ..self }
    }

    /// Sets the number of frames.
    pub fn frames(self, frames: u32) -> (r: Self)
        ensures
            r == (AnimHandle { frames: Some(frames), ..self }),
    {
        AnimHandle { frames: Some(frames), ..self }
    }

    /// Sets the playback rate.
    pub fn fps(self, fps: u32) -> (r: Self)
        ensures
            r == (AnimHandle { fps: Some(fps), ..self }),
    {
        AnimHandle { fps: Some(fps), ..self }
    }

    /// The geometry the handle describes.
    pub fn geometry(&self) -> (r: Option<FrameGeometry>)
        requires
            self.is_complete(),
        ensures
            r == self.geometry_spec(),
    {
        match (self.width, self.height, self.frames, self.fps) {
            (Some(width), Some(height), Some(frames), Some(fps)) => Some(FrameGeometry { width, height, frames, fps }),
            _ => None,
        }
    }

    /// Decodes `image` (the encoded bytes of the sprite sheet), cuts it as the handle
    /// says, and registers it in `manager` under the handle's name.
    pub fn import(self, manager: &mut AnimManager, image: &[u8]) -> (r: Result<(), LoadError>)
        requires
            self.is_complete(),
            old(manager).wf(),
        ensures
            final(manager).wf(),
            r is Err <==> load_error(image@, self.geometry_spec()) is Some,
            r matches Err(e) ==> load_error(image@, self.geometry_spec()) == Some(e) && final(manager)@ == old(manager)@,
            r is Ok ==> final(manager)@ == insert_spec(old(manager)@, self.name@, loaded_sheet(image@, self.geometry_spec())),
    {
        let sheet = AnimSpritesheet::from_handle(image, &self)?;
        manager.insert(self.name, sheet);
        Ok(())
    }
}

/// Named sprite sheets, registered once at start-up, and the playback cursor:
/// the animation playing, its frame, the time spent on that frame and the mirroring.
pub struct AnimManager {
    names: Vec<String>,
    anims: Vec<AnimSpritesheet>,
    current: Option<usize>,
    frame: u32,
    elapsed: u64,
    flipped: bool,
}

impl View for AnimManager {
    type V = CatalogView;

    closed spec fn view(&self) -> CatalogView {
        CatalogView {
            names: self.names@.map_values(|s: String| s@),
            sheets: self.anims@.map_values(|a: AnimSpritesheet| a@),
            current: match self.current {
                Some(i) => Some(i as nat),
                None => None,
            },
            frame: self.frame as nat,
            elapsed: self.elapsed as nat,
            flipped: self.flipped,
        }
    }
}

impl AnimManager {
    /// The catalogue is consistent.
    pub open spec fn wf(&self) -> bool {
        catalog_ok(self@)
    }

    /// An empty catalogue with nothing playing.
    pub fn new() -> (r: AnimManager)
        ensures
            r.wf(),
            r@.names.len() == 0,
            r@.current is None,
            r@.frame == 0,
            r@.elapsed == 0,
            !r@.flipped,
    {
        let r = AnimManager {
            names: Vec::new(),
            anims: Vec::new(),
            current: None,
            frame: 0,
            elapsed: 0,
            flipped: false,
        };
        proof {
            assert(r@.names =~= Seq::<Seq<char>>::empty());
            assert(r@.sheets =~= Seq::<SheetView>::empty());
        }
        r
    }

    /// Starts the registration of an animation named `name`.
    pub fn register(&self, name: &str) -> (r: AnimHandle)
        ensures
            r.name@ == name@,
            r.width is None,
            r.height is None,
            r.frames is None,
            r.fps is None,
    {
        AnimHandle { name: name.to_owned(), width: None, height: None, frames: None, fps: None }
    }

    /// Where `name` is registered, if it is.
    fn find(&self, name: &str) -> (r: Option<usize>)
        requires
            self.wf(),
        ensures
            r is None <==> !self@.names.contains(name@),
            r matches Some(j) ==> j == position_of(self@.names, name@) && j < self@.names.len(),
    {
        let key = name.to_owned();
        let mut j: usize = 0;
        while j < self.names.len()
            invariant
                self.wf(),
                key@ == name@,
                0 <= j <= self.names@.len(),
                forall|k: int| 0 <= k < j ==> self@.names[k] != name@,
            decreases self.names@.len() - j,
        {
            if self.names[j] == key {
                proof {
                    assert(self@.names[j as int] == name@);
                    let p = position_of(self@.names, name@);
                    assert(0 <= p < self@.names.len() && self@.names[p] == name@);
                }
                return Some(j);
            }
            j = j + 1;
        }
        proof {
            if self@.names.contains(name@) {
                let k = choose|k: int| 0 <= k < self@.names.len() && self@.names[k] == name@;
                assert(self@.names[k] != name@);
            }
        }
        None
    }

    /// Whether an animation named `name` is registered.
    pub fn contains(&self, name: &str) -> (r: bool)
        requires
            self.wf(),
        ensures
            r == self@.names.contains(name@),
    {
        self.find(name).is_some()
    }

    /// Registers `sheet` under `name`, replacing an earlier sheet of that name.
    pub fn insert(&mut self, name: String, sheet: AnimSpritesheet)
        requires
            old(self).wf(),
            sheet.wf(),
        ensures
            final(self).wf(),
            final(self)@ == insert_spec(old(self)@, name@, sheet@),
    {
        match self.find(name.as_str()) {
            Some(j) => {
                let ghost sv = sheet@;
                self.anims.set(j, sheet);
                if self.current == Some(j) {
                    self.frame = 0;
                    self.elapsed = 0;
                }
                proof {
                    assert(self@.names =~= old(self)@.names);
                    assert(self@.sheets =~= old(self)@.sheets.update(j as int, sv));
                }
            },
            None => {
                let ghost nv = name@;
                let ghost sv = sheet@;
                self.names.push(name);
                self.anims.push(sheet);
                proof {
                    assert(self@.names =~= old(self)@.names.push(nv));
                    assert(self@.sheets =~= old(self)@.sheets.push(sv));
                    assert forall|i: int, k: int|
                        0 <= i < self@.names.len() && 0 <= k < self@.names.len() && self@.names[i] == self@.names[k]
                        implies i == k by {
                        if i == old(self)@.names.len() as int && k < i {
                            assert(old(self)@.names.contains(nv));
                        } else if k == old(self)@.names.len() as int && i < k {
                            assert(old(self)@.names.contains(nv));
                        }
                    }
                }
            },
        }
    }

    /// Plays the animation named `name` from its first frame, with a fresh frame
    /// clock; mirroring is kept. An unregistered name changes nothing.
    pub fn set_anim(&mut self, name: &str) -> (r: Result<(), AnimError>)
        requires
            old(self).wf(),
        ensures
            final(self).wf(),
            r is Ok <==> old(self)@.names.contains(name@),
            r is Ok ==> final(self)@ == select_spec(old(self)@, name@),
            r matches Err(e) ==> e == AnimError::UnknownAnimation && final(self)@ == old(self)@,
    {
        match self.find(name) {
            Some(j) => {
                self.current = Some(j);
                self.frame = 0;
                self.elapsed = 0;
                Ok(())
            },
            None => Err(AnimError::UnknownAnimation),
        }
    }

    /// Mirrors later draws left to right, or stops doing so. The cursor is kept.
    pub fn set_flipped(&mut self, flipped: bool)
        requires
            old(self).wf(),
        ensures
            final(self).wf(),
            final(self)@ == (CatalogView { flipped, ..old(self)@ }),
    {
        self.flipped = flipped;
    }

    /// Lets `delta` microseconds pass: once the frame clock exceeds one frame period
    /// the cursor moves on by one frame (never more, however large `delta` is).
    pub fn update(&mut self, delta: u64)
        requires
            old(self).wf(),
        ensures
            final(self).wf(),
            final(self)@ == advance_spec(old(self)@, delta as nat),
    {
        self.elapsed = self.elapsed.saturating_add(delta);
        match self.current {
            Some(i) => {
                let fps = self.anims[i].fps();
                let frames = self.anims[i].frames();
                proof {
                    assert((self.elapsed as int) * (fps as int) <= u128::MAX) by (nonlinear_arith)
                        requires 0 <= self.elapsed <= u64::MAX, 0 <= fps <= u32::MAX;
                }
                if (self.elapsed as u128) * (fps as u128) > MICROS_PER_SEC as u128 {
                    self.elapsed = 0;
                    self.frame = ((self.frame as u64 + 1) % frames as u64) as u32;
                }
            },
            None => {},
        }
    }

    /// Draws the current frame of the current animation into `buffer`, first giving
    /// the buffer the animation's size if it differs. Without a current animation
    /// the buffer is left as it is.
    pub fn draw(&self, buffer: &mut Frame)
        requires
            self.wf(),
            old(buffer).wf(),
        ensures
            final(buffer).wf(),
            (final(buffer).width as nat, final(buffer).height as nat, final(buffer).buffer@)
                == drawn_frame(self@, old(buffer).width as nat, old(buffer).height as nat, old(buffer).buffer@),
    {
        match self.current {
            Some(i) => {
                let anim = &self.anims[i];
                let (w, h) = (anim.width(), anim.height());
                proof {
                    assert(sheet_ok(self@.sheets[i as int]));
                    lemma_frame_fits(self@.sheets[i as int]);
                }
                let (bw, bh) = buffer.size();
                if bw != w || bh != h {
                    buffer.set_size(w, h);
                }
                anim.draw(self.frame, self.flipped, buffer);
            },
            None => {},
        }
    }

    /// The frame of the current animation being shown.
    pub fn frame(&self) -> (r: u32)
        ensures
            r == self@.frame,
    {
        self.frame
    }

    /// Microseconds spent on the frame being shown.
    pub fn elapsed(&self) -> (r: u64)
        ensures
            r == self@.elapsed,
    {
        self.elapsed
    }

    /// Whether draws are mirrored left to right.
    pub fn flipped(&self) -> (r: bool)
        ensures
            r == self@.flipped,
    {
        self.flipped
    }

    /// The name of the animation playing, if any.
    pub fn current_name(&self) -> (r: Option<&str>)
        requires
            self.wf(),
        ensures
            match self@.current {
                Some(i) => r matches Some(n) && n@ == self@.names[i as int],
                None => r is None,
            },
    {
        match self.current {
            Some(i) => Some(self.names[i].as_str()),
            None => None,
        }
    }

    /// The sheet registered under `name`, if any.
    pub fn get(&self, name: &str) -> (r: Option<&AnimSpritesheet>)
        requires
            self.wf(),
        ensures
            r is None <==> !self@.names.contains(name@),
            r matches Some(s) ==> s.wf() && s@ == self@.sheets[position_of(self@.names, name@)],
    {
        match self.find(name) {
            Some(j) => {
                proof {
                    assert(self@.sheets[j as int] == self.anims@[j as int]@);
                    assert(sheet_ok(self@.sheets[j as int]));
                }
                Some(&self.anims[j])
            },
            None => None,
        }
    }
}

/// A frame of a usable sheet has a byte length that fits in memory.
proof fn lemma_frame_fits(v: SheetView)
    requires
        sheet_ok(v),
    ensures
        rgba_len(v.width as int, v.height as int) <= usize::MAX,
{
    let cols = v.sheet_width as int / v.width as int;
    vstd::arithmetic::div_mod::lemma_div_is_ordered(v.width as int, v.sheet_width as int, v.width as int);
    vstd::arithmetic::div_mod::lemma_div_by_self(v.width as int);
    let last = (v.frames - 1) as int / cols;
    vstd::arithmetic::div_mod::lemma_div_pos_is_pos((v.frames - 1) as int, cols);
    assert(v.height <= v.sheet_height) by (nonlinear_arith)
        requires (last + 1) * v.height <= v.sheet_height, last >= 0;
    assert(rgba_len(v.width as int, v.height as int) <= rgba_len(v.sheet_width as int, v.sheet_height as int))
        by (nonlinear_arith)
        requires v.width <= v.sheet_width, v.height <= v.sheet_height;
}

/// Where the cursor stands after `n` updates that each carry the frame clock past
/// one frame period: `n` frames further on, modulo the frame count.
proof fn lemma_advance_steps(c: CatalogView, delta: nat, n: nat)
    requires
        catalog_ok(c),
        c.current is Some,
        delta <= u64::MAX,
        period_exceeded(delta, c.sheets[c.current->Some_0 as int].fps),
    ensures
        advance_times(c, delta, n) == (CatalogView {
            frame: (c.frame + n) % c.sheets[c.current->Some_0 as int].frames,
            elapsed: if n == 0 { c.elapsed } else { 0 },
            ..c
        }),
    decreases n,
{
    let i = c.current->Some_0 as int;
    let frames = c.sheets[i].frames as int;
    let fps = c.sheets[i].fps as int;
    assert(sheet_ok(c.sheets[i]));
    if n == 0 {
        vstd::arithmetic::div_mod::lemma_small_mod(c.frame, frames as nat);
    } else {
        lemma_advance_steps(c, delta, (n - 1) as nat);
        let p = advance_times(c, delta, (n - 1) as nat);
        let e = if p.elapsed + delta > u64::MAX { u64::MAX as nat } else { p.elapsed + delta };
        assert(e >= delta);
        assert(e * fps >= delta * fps) by (nonlinear_arith)
            requires e >= delta, fps >= 0;
        assert(period_exceeded(e, c.sheets[i].fps));
        let x = (c.frame + n - 1) as int;
        vstd::arithmetic::div_mod::lemma_add_mod_noop_right(1, x, frames);
        assert((p.frame + 1) % frames as nat == (c.frame + n) % frames as nat);
    }
}

/// The frame shown always lies within the current animation; and when each update
/// carries the frame clock past one frame period, as many updates as the animation
/// has frames bring the cursor back to the frame it started on.
pub proof fn lemma_frame_cycle(c: CatalogView, delta: nat)
    requires
        catalog_ok(c),
        c.current is Some,
        delta <= u64::MAX,
        period_exceeded(delta, c.sheets[c.current->Some_0 as int].fps),
    ensures
        forall|n: nat| #![trigger advance_times(c, delta, n)]
            advance_times(c, delta, n).frame < c.sheets[c.current->Some_0 as int].frames,
        advance_times(c, delta, c.sheets[c.current->Some_0 as int].frames).frame == c.frame,
{
    let i = c.current->Some_0 as int;
    let frames = c.sheets[i].frames;
    assert(sheet_ok(c.sheets[i]));
    assert forall|n: nat| #![trigger advance_times(c, delta, n)]
        advance_times(c, delta, n).frame < frames by {
        lemma_advance_steps(c, delta, n);
        vstd::arithmetic::div_mod::lemma_mod_bound((c.frame + n) as int, frames as int);
    }
    lemma_advance_steps(c, delta, frames);
    vstd::arithmetic::div_mod::lemma_mod_add_multiples_vanish(c.frame as int, frames as int);
    vstd::arithmetic::div_mod::lemma_small_mod(c.frame, frames);
}

/// What `draw` produces depends only on the animation playing, its frame and the
/// mirroring: not on the buffer it is drawn into, nor on anything else in the catalogue.
pub proof fn lemma_draw_deterministic(
    c1: CatalogView,
    c2: CatalogView,
    w1: nat,
    h1: nat,
    b1: Seq<u8>,
    w2: nat,
    h2: nat,
    b2: Seq<u8>,
)
    requires
        catalog_ok(c1),
        catalog_ok(c2),
        c1.current is Some,
        c2.current is Some,
        c1.sheets[c1.current->Some_0 as int] == c2.sheets[c2.current->Some_0 as int],
        c1.frame == c2.frame,
        c1.flipped == c2.flipped,
    ensures
        drawn_frame(c1, w1, h1, b1) == drawn_frame(c2, w2, h2, b2),
{
}

} // verus!

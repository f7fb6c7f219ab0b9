//! The stroke store: the strokes that were drawn, the one that is being
//! drawn, and the ids under which they are kept.
use std::cmp::Ordering;
use std::collections::BTreeMap;
use vstd::prelude::*;
use vstd::std_specs::btree::increasing_seq;
use vstd::std_specs::cmp::OrdSpec;
use vstd::std_specs::iter::IteratorSpec;

use crate::line::{mesh, Line, LineBuffer};
use crate::point::Point;

verus! {

/// Extent of the drawing surface in device pixels.
#[derive(Clone, Copy, Debug, PartialEq, Eq, Structural)]
pub struct Size {
    pub width: u32,
    pub height: u32,
}

impl Size {
    /// A surface can be drawn on if it is at least one pixel wide and high.
    pub open spec fn drawable(self) -> bool {
        self.width > 0 && self.height > 0
    }

    /// Whether a surface of this size can be drawn on.
    pub fn is_drawable(&self) -> (drawable: bool)
        ensures
            drawable == self.drawable(),
    {
        self.width > 0 && self.height > 0
    }
}

/// Why a stroke operation was turned down.
#[derive(Clone, Copy, Debug, PartialEq, Eq, Structural)]
pub enum StrokeError {
    /// A stroke was to be begun while another one is still being drawn.
    AlreadyOpen,
    /// A stroke was to be continued or ended while none is being drawn.
    NoOpenStroke,
    /// A stroke was to be begun after the last id had been given out.
    IdsExhausted,
}

/// What a canvas holds, as plain mathematics.
pub struct State {
    /// Extent of the drawing surface.
    pub size: Size,
    /// The id that the stroke being drawn, or else the next one, is kept
    /// under.
    pub next_id: u64,
    /// The points of the stroke that is being drawn, if there is one.
    pub open: Option<Seq<Point>>,
    /// The points of each stroke that has a mesh in the store, by id.
    pub strokes: Map<u64, Seq<Point>>,
}

impl State {
    /// The state of a canvas that can be reached.
    ///
    /// Ids start at one and every stored stroke has an id that was given out
    /// already. Only the stroke that is being drawn can be stored under
    /// `next_id`, and while one is being drawn there is an id left to move
    /// on to.
    pub open spec fn wf(self) -> bool {
        &&& self.next_id >= 1
        &&& self.strokes.dom().finite()
        &&& forall|id: u64| #[trigger]
            self.strokes.contains_key(id) ==> 1 <= id <= self.next_id && self.strokes[id].len()
                >= 1
        &&& self.strokes.contains_key(self.next_id) ==> self.open == Some(
            self.strokes[self.next_id],
        )
        &&& self.open matches Some(points) ==> points.len() >= 1 && self.next_id < u64::MAX
    }

    /// The state of a fresh canvas of the given size.
    pub open spec fn create(size: Size) -> State {
        State { size, next_id: 1, open: None, strokes: Map::empty() }
    }

    /// The state after a stroke was begun at `pt`.
    pub open spec fn start_line(self, pt: Point) -> State {
        State { open: Some(seq![pt]), ..self }
    }

    /// The state after the stroke being drawn was continued to `pt`.
    pub open spec fn push_point(self, pt: Point) -> State
        recommends
            self.open is Some,
    {
        let points = self.open->0.push(pt);
        State {
            open: Some(points),
            strokes: self.strokes.insert(self.next_id, points),
            ..self
        }
    }

    /// The state after the stroke being drawn was ended.
    pub open spec fn end_line(self) -> State
        recommends
            self.next_id < u64::MAX,
    {
        State { open: None, next_id: (self.next_id + 1) as u64, ..self }
    }

    /// The state after the stroke being drawn was given up.
    pub open spec fn cancle_line(self) -> State {
        State { open: None, strokes: self.strokes.remove(self.next_id), ..self }
    }

    /// The state after all stored strokes were thrown away.
    pub open spec fn clear(self) -> State {
        State { strokes: Map::empty(), ..self }
    }

    /// The state after the surface was asked to take a new size.
    pub open spec fn resize(self, new_size: Size) -> State {
        if new_size.drawable() {
            State { size: new_size, ..self }
        } else {
            self
        }
    }
}

/// The strokes of a drawing and the surface they are drawn on.
pub struct Canvas {
    size: Size,
    s_line: Option<Line>,
    next_id: u64,
    lines: BTreeMap<u64, LineBuffer>,
}

impl View for Canvas {
    type V = State;

    closed spec fn view(&self) -> State {
        State {
            size: self.size,
            next_id: self.next_id,
            open: match self.s_line {
                Some(line) => Some(line@),
                None => None,
            },
            strokes: self.lines@.map_values(|buffer: LineBuffer| buffer.source()),
        }
    }
}

impl Canvas {
    /// The canvas is in a state that can be reached.
    pub open spec fn wf(&self) -> bool {
        self@.wf()
    }

    /// A canvas of the given size without any stroke. The first stroke will
    /// get the id 1.
    pub fn create(size: Size) -> (canvas: Canvas)
        ensures
            canvas.wf(),
            canvas@ == State::create(size),
    {
        let canvas = Canvas { size, s_line: None, next_id: 1, lines: BTreeMap::new() };
        assert(canvas@.strokes == Map::<u64, Seq<Point>>::empty());
        canvas
    }

    /// Extent of the drawing surface.
    pub fn get_size(&self) -> (size: &Size)
        ensures
            *size == self@.size,
    {
        &self.size
    }

    /// Takes over `new_size` if a surface of that size can be drawn on, and
    /// says whether it did.
    pub fn resize(&mut self, new_size: Size) -> (accepted: bool)
        ensures
            accepted == new_size.drawable(),
            final(self)@ == old(self)@.resize(new_size),
    {
        if !new_size.is_drawable() {
            return false;
        }
        self.size = new_size;
        true
    }

    /// The id that the stroke being drawn, or else the next one, is kept
    /// under.
    pub fn next_id(&self) -> (id: u64)
        ensures
            id == self@.next_id,
    {
        self.next_id
    }

    /// The stroke that is being drawn, if there is one.
    pub fn s_line(&self) -> (line: Option<&Line>)
        ensures
            match line {
                Some(line) => self@.open == Some(line@),
                None => self@.open is None,
            },
    {
        self.s_line.as_ref()
    }

    /// Begins a stroke at `pt`.
    ///
    /// Only one stroke can be drawn at a time, and a stroke can only be begun
    /// while there is an id after its own.
    pub fn start_line(&mut self, pt: Point) -> (result: Result<(), StrokeError>)
        requires
            old(self).wf(),
        ensures
            final(self).wf(),
            match result {
                Ok(()) => {
                    &&& old(self)@.open is None
                    &&& old(self)@.next_id < u64::MAX
                    &&& final(self)@ == old(self)@.start_line(pt)
                },
                Err(StrokeError::AlreadyOpen) => {
                    &&& old(self)@.open is Some
                    &&& final(self)@ == old(self)@
                },
                Err(StrokeError::IdsExhausted) => {
                    &&& old(self)@.open is None
                    &&& old(self)@.next_id == u64::MAX
                    &&& final(self)@ == old(self)@
                },
                Err(StrokeError::NoOpenStroke) => false,
            },
    {
        if self.s_line.is_some() {
            return Err(StrokeError::AlreadyOpen);
        }
        if self.next_id == u64::MAX {
            return Err(StrokeError::IdsExhausted);
        }
        self.s_line = Some(Line::new(pt));
        Ok(())
    }

    /// Continues the stroke being drawn to `pt` and stores its new mesh
    /// under the stroke's id, in place of the one before.
    pub fn push_point(&mut self, pt: Point) -> (result: Result<(), StrokeError>)
        requires
            old(self).wf(),
        ensures
            final(self).wf(),
            match result {
                Ok(()) => {
                    &&& old(self)@.open is Some
                    &&& final(self)@ == old(self)@.push_point(pt)
                },
                Err(StrokeError::NoOpenStroke) => {
                    &&& old(self)@.open is None
                    &&& final(self)@ == old(self)@
                },
                Err(_) => false,
            },
    {
        let mut line = match self.s_line.take() {
            Some(line) => line,
            None => {
                return Err(StrokeError::NoOpenStroke);
            },
        };
        line.push_point(pt);
        let buffer = LineBuffer::new(&line);
        let ghost points = line@;
        self.s_line = Some(line);
        self.lines.insert(self.next_id, buffer);
        proof {
            assert(final(self)@.strokes == old(self)@.strokes.insert(self.next_id, points));
        }
        Ok(())
    }

    /// Ends the stroke being drawn. The next stroke gets the next id.
    pub fn end_line(&mut self) -> (result: Result<(), StrokeError>)
        requires
            old(self).wf(),
        ensures
            final(self).wf(),
            match result {
                Ok(()) => {
                    &&& old(self)@.open is Some
                    &&& final(self)@ == old(self)@.end_line()
                },
                Err(StrokeError::NoOpenStroke) => {
                    &&& old(self)@.open is None
                    &&& final(self)@ == old(self)@
                },
                Err(_) => false,
            },
    {
        if self.s_line.is_none() {
            return Err(StrokeError::NoOpenStroke);
        }
        self.s_line = None;
        self.next_id += 1;
        Ok(())
    }

    /// Gives up the stroke being drawn and removes its mesh from the store.
    /// Its id goes to the next stroke. Without a stroke being drawn nothing
    /// changes.
    pub fn cancle_line(&mut self)
        requires
            old(self).wf(),
        ensures
            final(self).wf(),
            final(self)@ == old(self)@.cancle_line(),
            old(self)@.open is None ==> final(self)@ == old(self)@,
    {
        self.s_line = None;
        self.lines.remove(&self.next_id);
        proof {
            assert(final(self)@.strokes == old(self)@.strokes.remove(self.next_id));
            if old(self)@.open is None {
                assert(final(self)@.strokes == old(self)@.strokes);
            }
        }
    }

    /// Throws away all stored strokes. A stroke that is being drawn stays
    /// open, and comes back into the store as a whole with its next point.
    pub fn clear(&mut self)
        requires
            old(self).wf(),
        ensures
            final(self).wf(),
            final(self)@ == old(self)@.clear(),
    {
        self.lines.clear();
        proof {
            assert(final(self)@.strokes == Map::<u64, Seq<Point>>::empty());
        }
    }

    /// The mesh that is stored under `id`, if there is one.
    pub fn line(&self, id: u64) -> (buffer: Option<&LineBuffer>)
        ensures
            match buffer {
                Some(buffer) => {
                    &&& self@.strokes.contains_key(id)
                    &&& buffer.source() == self@.strokes[id]
                    &&& buffer@ == mesh(self@.strokes[id])
                },
                None => !self@.strokes.contains_key(id),
            },
    {
        let buffer = self.lines.get(&id);
        proof {
            if let Some(buffer) = buffer {
                use_type_invariant(buffer);
            }
        }
        buffer
    }

    /// The ids of the stored strokes in the order in which their meshes are
    /// to be drawn: ascending, so that a later stroke paints over an earlier
    /// one.
    pub fn render(&self) -> (order: Vec<u64>)
        ensures
            ascending(order@),
            order@.len() == self@.strokes.len(),
            forall|id: u64| order@.contains(id) <==> self@.strokes.contains_key(id),
    {
        let mut order: Vec<u64> = Vec::new();
        let keys = self.lines.keys();
        let ghost ids = keys.remaining();
        for id in it: keys
            invariant
                it.seq() == ids,
                order@.len() == it.index(),
                forall|i: int| 0 <= i < order@.len() ==> order@[i] == *ids[i],
        {
            order.push(*id);
        }
        proof {
            assert(order@ == ids.unref());
            assert(ids.unref().to_set() == self.lines@.dom());
            assert(self@.strokes.dom() == self.lines@.dom());
            assert(increasing_seq(ids));
            assert forall|i: int, j: int| 0 <= i < j < order@.len() implies order@[i]
                < order@[j] by {
                assert(OrdSpec::cmp_spec(&ids[i], &ids[j]) is Less);
            }
        }
        order
    }
}

/// The ids stand in strictly ascending order.
pub open spec fn ascending(ids: Seq<u64>) -> bool {
    forall|i: int, j: int| 0 <= i < j < ids.len() ==> ids[i] < ids[j]
}

/// A canvas that can be reached stays one, whatever is done with it.
pub proof fn lemma_steps_keep_wf(state: State, pt: Point, size: Size)
    requires
        state.wf(),
    ensures
        State::create(size).wf(),
        state.open is None && state.next_id < u64::MAX ==> state.start_line(pt).wf(),
        state.open is Some ==> state.push_point(pt).wf(),
        state.open is Some ==> state.end_line().wf(),
        state.cancle_line().wf(),
        state.clear().wf(),
        state.resize(size).wf(),
{
}

/// Ids are given out in ascending order and never twice: while no stroke is
/// being drawn every stored stroke has an id below the next one, and ending
/// a stroke moves the next id up by one.
pub proof fn lemma_ids_are_fresh(state: State)
    requires
        state.wf(),
    ensures
        state.open is None ==> forall|id: u64| #[trigger]
            state.strokes.contains_key(id) ==> id < state.next_id,
        state.open is Some ==> state.end_line().next_id == state.next_id + 1,
        state.open is Some ==> forall|id: u64| #[trigger]
            state.end_line().strokes.contains_key(id) ==> id < state.end_line().next_id,
{
}

/// A stroke that is given up right after it was begun leaves no trace: the
/// canvas is as it was before the stroke, nothing is stored under the
/// stroke's id, and the next stroke is drawn under that same id.
pub proof fn lemma_cancel_undoes_start(state: State, pt: Point, next: Point, then: Point)
    requires
        state.wf(),
        state.open is None,
    ensures
        state.start_line(pt).cancle_line() == state,
        !state.start_line(pt).cancle_line().strokes.contains_key(state.next_id),
        state.start_line(pt).cancle_line().start_line(next).next_id == state.next_id,
        state.start_line(pt).cancle_line().start_line(next).push_point(then).strokes[state.next_id]
            == seq![next, then],
{
    let back = state.start_line(pt).cancle_line();
    assert(back.strokes == state.strokes);
    assert(seq![next].push(then) == seq![next, then]);
}

/// Giving up a stroke removes what was stored of it, however far it had been
/// drawn, and nothing else.
pub proof fn lemma_cancel_discards_open_stroke(state: State)
    requires
        state.wf(),
    ensures
        state.cancle_line().open is None,
        state.cancle_line().next_id == state.next_id,
        !state.cancle_line().strokes.contains_key(state.next_id),
        forall|id: u64|
            id != state.next_id ==> (#[trigger] state.cancle_line().strokes.contains_key(id)
                <==> state.strokes.contains_key(id)),
        forall|id: u64|
            id != state.next_id && state.strokes.contains_key(id) ==> #[trigger] state.cancle_line().strokes[id]
                == state.strokes[id],
{
}

} // verus!

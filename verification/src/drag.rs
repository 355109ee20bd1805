//! Dragging windows with the pointer: floating windows move or change their size, tiled windows
//! change places.
use crate::action::PointerOp;
use crate::layout::Rect;
use crate::request::Request;
use crate::state::{Op, State, StateView, Walk, WindowState};
use vstd::prelude::*;

verus! {

impl Op {
    /// Where the window is now: moved by the way of the pointer, or as much larger, but never
    /// without any size.
    pub open spec fn geom(self) -> Rect {
        match self.kind {
            PointerOp::Move => Rect {
                x: (self.start_geom.x + self.dx) as i32,
                y: (self.start_geom.y + self.dy) as i32,
                ..self.start_geom
            },
            PointerOp::Resize => Rect {
                w: crate::layout::greater(self.start_geom.w + self.dx, 1) as i32,
                h: crate::layout::greater(self.start_geom.h + self.dy, 1) as i32,
                ..self.start_geom
            },
        }
    }

    /// Whether each number on the way to `geom` is a value of `i32`.
    pub open spec fn geom_fits(self) -> bool {
        match self.kind {
            PointerOp::Move => crate::layout::fits(self.start_geom.x + self.dx)
                && crate::layout::fits(self.start_geom.y + self.dy),
            PointerOp::Resize => crate::layout::fits(self.start_geom.w + self.dx)
                && crate::layout::fits(self.start_geom.h + self.dy),
        }
    }

    /// Where the window is now.
    pub fn geometry(&self) -> (geom: Rect)
        requires
            self.geom_fits(),
        ensures
            geom == self.geom(),
    {
        match self.kind {
            PointerOp::Move => Rect {
                x: self.start_geom.x + self.dx,
                y: self.start_geom.y + self.dy,
                w: self.start_geom.w,
                h: self.start_geom.h,
            },
            PointerOp::Resize => Rect {
                x: self.start_geom.x,
                y: self.start_geom.y,
                w: i32::max(self.start_geom.w + self.dx, 1),
                h: i32::max(self.start_geom.h + self.dy, 1),
            },
        }
    }

    /// Whether `geometry` can be called.
    pub fn has_geometry(&self) -> (yes: bool)
        ensures
            yes == self.geom_fits(),
    {
        match self.kind {
            PointerOp::Move => crate::layout::in_range(
                self.start_geom.x as i64 + self.dx as i64,
            ) && crate::layout::in_range(self.start_geom.y as i64 + self.dy as i64),
            PointerOp::Resize => crate::layout::in_range(
                self.start_geom.w as i64 + self.dx as i64,
            ) && crate::layout::in_range(self.start_geom.h as i64 + self.dy as i64),
        }
    }
}

/// The middle of a rectangle.
pub open spec fn middle(r: Rect) -> (i32, i32) {
    (
        (r.x + crate::layout::quot(r.w as int, 2)) as i32,
        (r.y + crate::layout::quot(r.h as int, 2)) as i32,
    )
}

/// Whether each number on the way to `middle` is a value of `i32`.
pub open spec fn middle_fits(r: Rect) -> bool {
    crate::layout::fits(r.x + crate::layout::quot(r.w as int, 2)) && crate::layout::fits(
        r.y + crate::layout::quot(r.h as int, 2),
    )
}

/// The middle of a rectangle.
fn middle_of(r: Rect) -> (point: (i32, i32))
    requires
        middle_fits(r),
    ensures
        point == middle(r),
{
    (r.x + r.w / 2, r.y + r.h / 2)
}

/// Whether `middle_of` can be called on this argument.
fn has_middle(r: Rect) -> (yes: bool)
    ensures
        yes == middle_fits(r),
{
    let half_w: i32 = r.w / 2;
    let half_h: i32 = r.h / 2;
    crate::layout::in_range(r.x as i64 + half_w as i64) && crate::layout::in_range(
        r.y as i64 + half_h as i64,
    )
}

/// The first of some windows whose rectangle has the point (`x`, `y`).
pub open spec fn window_at(placed: Seq<(u64, Rect)>, x: int, y: int) -> Option<u64>
    decreases placed.len(),
{
    if placed.len() == 0 {
        None
    } else if placed[0].1.has_point(x, y) {
        Some(placed[0].0)
    } else {
        window_at(placed.drop_first(), x, y)
    }
}

/// A list in which the items at `i` and `j` have changed places.
pub open spec fn exchanged(ids: Seq<u64>, i: int, j: int) -> Seq<u64> {
    ids.update(i, ids[j]).update(j, ids[i])
}

impl StateView {
    /// Whether window `id` is there and floats.
    pub open spec fn floats(self, id: u64) -> bool {
        self.window(id) matches Some(w) && w.floating
    }

    /// The tiled windows, each with its rectangle.
    pub open spec fn placed(self, area: Rect, master_w: i32) -> Seq<(u64, Rect)> {
        Seq::new(
            self.tiled().len(),
            |i: int| (self.tiled()[i], self.tiles(area, master_w)[i]),
        )
    }

    /// The rectangle of window `id`, if it is tiled.
    pub open spec fn tile_of(self, id: u64, area: Rect, master_w: i32) -> Option<Rect> {
        match self.tiled().index_of_first(id) {
            Some(i) => Some(self.tiles(area, master_w)[i]),
            None => None,
        }
    }

    /// What a press on a window begins. A floating window is moved or resized; one that does not
    /// float is dragged to another place, from its middle or, if it is not tiled, from the middle
    /// of the area; it cannot be resized.
    pub open spec fn drag_begun(self, walk: Walk, master_w: i32) -> StateView {
        let area = self.primary_area(walk.outputs@);
        let taken = StateView { pending_op: None, ..self };
        match self.pending_op {
            None => self,
            Some((id, kind)) => if self.floats(id) {
                StateView {
                    op: Some(
                        Op {
                            window_id: id,
                            kind,
                            start_geom: self.windows[id].floating_geom,
                            dx: 0,
                            dy: 0,
                        },
                    ),
                    ..taken
                }
            } else {
                match kind {
                    PointerOp::Resize => taken,
                    PointerOp::Move => StateView {
                        swap_origin: match self.tile_of(id, area, master_w) {
                            Some(r) => middle(r),
                            None => middle(area),
                        },
                        swap_dx: 0,
                        swap_dy: 0,
                        swap_source: Some(id),
                        ..taken
                    },
                }
            },
        }
    }

    /// Whether each number on the way to `drag_begun` is a value of `i32`.
    pub open spec fn drag_begin_fits(self, walk: Walk, master_w: i32) -> bool {
        let area = self.primary_area(walk.outputs@);
        match self.pending_op {
            None => true,
            Some((id, kind)) => !self.floats(id) && kind == PointerOp::Move ==> {
                &&& self.tiles_fit(area, master_w)
                &&& middle_fits(area)
                &&& self.tile_of(id, area, master_w) matches Some(r) ==> middle_fits(r)
            },
        }
    }

    /// The compositor reports the way of the pointer if something was begun.
    pub open spec fn drag_begin_requests(self, walk: Walk) -> Seq<Request> {
        match self.pending_op {
            None => seq![],
            Some((id, kind)) => if walk.seats@.len() > 0 && (self.floats(id) || kind
                == PointerOp::Move) {
                seq![Request::OpStartPointer { seat: walk.seats@[0] }]
            } else {
                seq![]
            },
        }
    }

    /// After the release nothing is dragged. A floating window stays where it was dragged to.
    pub open spec fn drag_ended(self) -> StateView {
        if self.op_release_pending {
            let ended = StateView {
                op_release_pending: false,
                swap_source: None,
                op: None,
                ..self
            };
            match self.op {
                Some(op) => match self.window(op.window_id) {
                    Some(w) => ended.with_window(
                        op.window_id,
                        WindowState { floating_geom: op.geom(), ..w },
                    ),
                    None => ended,
                },
                None => ended,
            }
        } else {
            self
        }
    }

    /// Whether each number on the way to `drag_ended` is a value of `i32`.
    pub open spec fn drag_end_fits(self) -> bool {
        self.op_release_pending ==> (self.op matches Some(op) ==> op.geom_fits())
    }

    /// After the release the compositor no longer reports the way of the pointer.
    pub open spec fn drag_end_requests(self, walk: Walk) -> Seq<Request> {
        if self.op_release_pending && walk.seats@.len() > 0 {
            seq![Request::OpEnd { seat: walk.seats@[0] }]
        } else {
            seq![]
        }
    }

    /// The tiled window under the pointer that drags another one.
    pub open spec fn swap_target(self, area: Rect, master_w: i32) -> Option<u64> {
        window_at(
            self.placed(area, master_w),
            self.swap_origin.0 + self.swap_dx,
            self.swap_origin.1 + self.swap_dy,
        )
    }

    /// The window that is dragged and the one under the pointer change places.
    pub open spec fn swapped(self, walk: Walk, master_w: i32) -> StateView {
        match self.swap_source {
            Some(source) => if self.op is None {
                match self.swap_target(self.primary_area(walk.outputs@), master_w) {
                    Some(target) => match (self.place(source), self.place(target)) {
                        (Some(i), Some(j)) => if source != target {
                            StateView { order: exchanged(self.order, i, j), ..self }
                        } else {
                            self
                        },
                        _ => self,
                    },
                    None => self,
                }
            } else {
                self
            },
            None => self,
        }
    }

    /// Whether each number on the way to `swapped` is a value of `i32`.
    pub open spec fn swap_fits(self, walk: Walk, master_w: i32) -> bool {
        self.swap_source is Some && self.op is None ==> self.tiles_fit(
            self.primary_area(walk.outputs@),
            master_w,
        )
    }
}

/// There is one tile for each tiled window.
pub proof fn lemma_tiles_len(s: StateView, area: Rect, master_w: i32)
    ensures
        s.tiles(area, master_w).len() == s.tiled().len(),
{
    crate::layout::law_one_rect_each(
        s.current_layout(),
        area,
        s.tiled().len(),
        master_w,
        s.settings.gap,
    );
}

/// The place of `id` in a list.
fn find(ids: &Vec<u64>, id: u64) -> (place: Option<usize>)
    ensures
        match place {
            Some(i) => i < ids.len() && ids@.index_of_first(id) == Some(i as int),
            None => ids@.index_of_first(id) is None,
        },
{
    for i in 0..ids.len()
        invariant
            forall|k: int| 0 <= k < i ==> ids@[k] != id,
    {
        if ids[i] == id {
            proof {
                ids@.index_of_first_ensures(id);
            }
            return Some(i);
        }
    }
    proof {
        ids@.index_of_first_ensures(id);
    }
    None
}

/// Whether a rectangle has a point.
fn covers_point(r: Rect, x: i64, y: i64) -> (yes: bool)
    ensures
        yes == r.has_point(x as int, y as int),
{
    x >= r.x as i64 && x < r.x as i64 + r.w as i64 && y >= r.y as i64 && y < r.y as i64 + r.h as i64
}

impl State {
    /// The rectangle of window `id`, if it is tiled.
    fn tile_of(&self, id: u64, area: Rect, master_w: i32) -> (rect: Option<Rect>)
        requires
            self@.tiles_fit(area, master_w),
        ensures
            rect == self@.tile_of(id, area, master_w),
    {
        proof {
            lemma_tiles_len(self@, area, master_w);
        }
        let tiled: Vec<u64> = self.tiled_windows();
        let rects: Vec<Rect> = self.tiles(area, master_w);
        match find(&tiled, id) {
            Some(i) => Some(rects[i]),
            None => None,
        }
    }

    /// Whether window `id` is there and floats.
    fn is_floating(&self, id: u64) -> (yes: bool)
        ensures
            yes == self@.floats(id),
    {
        match self.windows.get(&id) {
            Some(w) => w.floating,
            None => false,
        }
    }

    /// Begins what a press on a window asks for.
    #[verifier::rlimit(40)]
    pub fn begin_drag(&mut self, walk: &Walk, master_w: i32, out: &mut Vec<Request>)
        requires
            walk.covers(old(self)@),
            old(self)@.drag_begin_fits(*walk, master_w),
        ensures
            final(self)@ == old(self)@.drag_begun(*walk, master_w),
            final(out)@ == old(out)@ + old(self)@.drag_begin_requests(*walk),
            old(self)@.wf() ==> final(self)@.wf(),
    {
        if let Some((id, kind)) = self.pending_op {
            let window = self.window(id);
            let floating = self.is_floating(id);
            if floating {
                if let Some(w) = window {
                    self.op = Some(
                        Op { window_id: id, kind, start_geom: w.floating_geom, dx: 0, dy: 0 },
                    );
                }
                self.pending_op = None;
                start_pointer(walk, out);
            } else if kind == PointerOp::Move {
                let area = self.primary_area(walk);
                let origin = match self.tile_of(id, area, master_w) {
                    Some(r) => middle_of(r),
                    None => middle_of(area),
                };
                self.swap_origin = origin;
                self.swap_dx = 0;
                self.swap_dy = 0;
                self.swap_source = Some(id);
                self.pending_op = None;
                start_pointer(walk, out);
            } else {
                self.pending_op = None;
            }
        }
    }

    /// Whether `begin_drag` can be called on these arguments.
    #[verifier::rlimit(40)]
    pub fn can_begin_drag(&self, walk: &Walk, master_w: i32) -> (yes: bool)
        requires
            walk.covers(self@),
        ensures
            yes == self@.drag_begin_fits(*walk, master_w),
    {
        match self.pending_op {
            Some((id, kind)) => {
                if self.is_floating(id) || kind != PointerOp::Move {
                    true
                } else {
                    let area = self.primary_area(walk);
                    self.can_tile(area, master_w) && has_middle(area) && match self.tile_of(
                        id,
                        area,
                        master_w,
                    ) {
                        Some(r) => has_middle(r),
                        None => true,
                    }
                }
            },
            None => true,
        }
    }

    /// Ends dragging if the pointer was released.
    #[verifier::rlimit(40)]
    pub fn end_drag(&mut self, walk: &Walk, out: &mut Vec<Request>)
        requires
            old(self)@.drag_end_fits(),
        ensures
            final(self)@ == old(self)@.drag_ended(),
            final(out)@ == old(out)@ + old(self)@.drag_end_requests(*walk),
            old(self)@.wf() ==> final(self)@.wf(),
    {
        proof {
            lemma_drag_end_keeps(self@);
        }
        if self.op_release_pending {
            if walk.seats.len() > 0 {
                out.push(Request::OpEnd { seat: walk.seats[0] });
            }
            let dragged = self.op;
            self.forget_drag();
            if let Some(op) = dragged {
                self.drop_at(op.window_id, op.geometry());
            }
        }
    }

    /// Notes where window `id`, if it is there, floats.
    fn drop_at(&mut self, id: u64, geom: Rect)
        ensures
            final(self)@ == match old(self)@.window(id) {
                Some(w) => old(self)@.with_window(id, WindowState { floating_geom: geom, ..w }),
                None => old(self)@,
            },
    {
        if let Some(w) = self.window(id) {
            self.set_window(id, WindowState { floating_geom: geom, ..w });
        }
    }

    /// Notes that nothing is dragged.
    fn forget_drag(&mut self)
        ensures
            final(self)@ == (StateView {
                op_release_pending: false,
                swap_source: None,
                op: None,
                ..old(self)@
            }),
    {
        self.op_release_pending = false;
        self.swap_source = None;
        self.op = None;
    }

    /// Whether `end_drag` can be called.
    pub fn can_end_drag(&self) -> (yes: bool)
        ensures
            yes == self@.drag_end_fits(),
    {
        !self.op_release_pending || match self.op {
            Some(op) => op.has_geometry(),
            None => true,
        }
    }

    /// The tiled window under the pointer that drags another one.
    fn swap_target(&self, area: Rect, master_w: i32) -> (id: Option<u64>)
        requires
            self@.tiles_fit(area, master_w),
        ensures
            id == self@.swap_target(area, master_w),
    {
        proof {
            lemma_tiles_len(self@, area, master_w);
        }
        let x: i64 = self.swap_origin.0 as i64 + self.swap_dx as i64;
        let y: i64 = self.swap_origin.1 as i64 + self.swap_dy as i64;
        let tiled: Vec<u64> = self.tiled_windows();
        let rects: Vec<Rect> = self.tiles(area, master_w);
        let ghost placed = self@.placed(area, master_w);
        assert(placed.skip(0) =~= placed);
        for i in 0..tiled.len()
            invariant
                x == self.swap_origin.0 + self.swap_dx,
                y == self.swap_origin.1 + self.swap_dy,
                placed == self@.placed(area, master_w),
                tiled@ == self@.tiled(),
                rects@ == self@.tiles(area, master_w),
                rects@.len() == tiled@.len(),
                window_at(placed, x as int, y as int) == window_at(
                    placed.skip(i as int),
                    x as int,
                    y as int,
                ),
        {
            assert(placed.skip(i as int).drop_first() =~= placed.skip(i + 1));
            if covers_point(rects[i], x, y) {
                return Some(tiled[i]);
            }
        }
        None
    }

    /// Puts window `id` at place `i` of the order, instead of the one that is there.
    fn put(&mut self, i: usize, id: u64)
        requires
            i < old(self)@.order.len(),
        ensures
            final(self)@ == (StateView { order: old(self)@.order.update(i as int, id), ..old(self)@ }),
    {
        self.window_order.remove(i);
        self.window_order.insert(i, id);
    }

    /// Lets the window that is dragged and the one under the pointer change places.
    #[verifier::rlimit(40)]
    pub fn swap(&mut self, walk: &Walk, master_w: i32)
        requires
            walk.covers(old(self)@),
            old(self)@.swap_fits(*walk, master_w),
        ensures
            final(self)@ == old(self)@.swapped(*walk, master_w),
            old(self)@.wf() ==> final(self)@.wf(),
    {
        proof {
            lemma_swap_keeps(self@, *walk, master_w);
        }
        if let Some(source) = self.swap_source {
            if self.op.is_none() {
                let area = self.primary_area(walk);
                if let Some(target) = self.swap_target(area, master_w) {
                    let first = self.place(source);
                    let second = self.place(target);
                    proof {
                        self@.order.index_of_first_ensures(source);
                        self@.order.index_of_first_ensures(target);
                    }
                    if let (Some(i), Some(j)) = (first, second) {
                        if source != target {
                            self.put(i, target);
                            self.put(j, source);
                        }
                    }
                }
            }
        }
    }

    /// Whether `swap` can be called on these arguments.
    pub fn can_swap(&self, walk: &Walk, master_w: i32) -> (yes: bool)
        requires
            walk.covers(self@),
        ensures
            yes == self@.swap_fits(*walk, master_w),
    {
        self.swap_source.is_none() || self.op.is_some() || self.can_tile(
            self.primary_area(walk),
            master_w,
        )
    }
}

/// Asks the compositor to report the way of the pointer of the first seat.
fn start_pointer(walk: &Walk, out: &mut Vec<Request>)
    ensures
        final(out)@ == if walk.seats@.len() > 0 {
            old(out)@.push(Request::OpStartPointer { seat: walk.seats@[0] })
        } else {
            old(out)@
        },
{
    if walk.seats.len() > 0 {
        out.push(Request::OpStartPointer { seat: walk.seats[0] });
    }
}

/// Two lists of which one is the other with two items exchanged have the same members.
pub proof fn lemma_exchanged_contains(ids: Seq<u64>, i: int, j: int, id: u64)
    requires
        0 <= i < ids.len(),
        0 <= j < ids.len(),
    ensures
        exchanged(ids, i, j).contains(id) <==> ids.contains(id),
{
    let other = exchanged(ids, i, j);
    if ids.contains(id) {
        let k = choose|k: int| 0 <= k < ids.len() && ids[k] == id;
        if k == i {
            assert(other[j] == id);
        } else if k == j {
            assert(other[i] == id);
        } else {
            assert(other[k] == id);
        }
    }
    if other.contains(id) {
        let k = choose|k: int| 0 <= k < other.len() && other[k] == id;
        if k == j {
            assert(ids[i] == id);
        } else if k == i {
            assert(ids[j] == id);
        } else {
            assert(ids[k] == id);
        }
    }
}

/// When dragging ends, no window comes or goes.
pub proof fn lemma_drag_end_keeps(s: StateView)
    ensures
        s.drag_ended().windows.dom() == s.windows.dom(),
        s.drag_ended().order == s.order,
        s.drag_ended().outputs == s.outputs,
        s.drag_ended().seats == s.seats,
        s.wf() ==> s.drag_ended().wf(),
{
    assert(s.drag_ended().windows.dom() =~= s.windows.dom());
}

/// When two windows change places, no window comes or goes.
pub proof fn lemma_swap_keeps(s: StateView, walk: Walk, master_w: i32)
    ensures
        s.swapped(walk, master_w) == (StateView {
            order: s.swapped(walk, master_w).order,
            ..s
        }),
        s.wf() ==> s.swapped(walk, master_w).wf(),
{
    let t = s.swapped(walk, master_w);
    if s.wf() {
        assert forall|id: u64| #[trigger] t.order.contains(id) <==> t.windows.contains_key(id) by {
            assert(s.order.contains(id) <==> s.windows.contains_key(id));
            if let Some(source) = s.swap_source {
                if let Some(target) = s.swap_target(s.primary_area(walk.outputs@), master_w) {
                    s.order.index_of_first_ensures(source);
                    s.order.index_of_first_ensures(target);
                    if s.order.contains(source) && s.order.contains(target) {
                        lemma_exchanged_contains(
                            s.order,
                            s.order.index_of_first(source)->0,
                            s.order.index_of_first(target)->0,
                            id,
                        );
                    }
                }
            }
        }
    }
}

} // verus!

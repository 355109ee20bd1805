//! What the manager asks of the compositor.
use vstd::prelude::*;

verus! {

/// One request. Windows, outputs and seats are known by their numbers.
#[derive(Clone, Copy, Debug, PartialEq, Eq)]
pub enum Request {
    /// Ask the window to close.
    Close { window: u64 },
    /// Make the window fill the output.
    Fullscreen { window: u64, output: u64 },
    /// Tell the window that it fills the output.
    InformFullscreen { window: u64 },
    /// End that the window fills the output.
    ExitFullscreen { window: u64 },
    /// Tell the window that it does not fill the output.
    InformNotFullscreen { window: u64 },
    /// Begin to report how far the pointer of the seat goes.
    OpStartPointer { seat: u64 },
    /// End that report.
    OpEnd { seat: u64 },
    /// Make the node that places the window.
    GetNode { window: u64 },
    /// Let the manager draw the decorations of the window.
    UseSsd { window: u64 },
    /// Make the border above the window.
    CreateBorder { window: u64 },
    /// Propose a size to the window.
    ProposeDimensions { window: u64, width: i32, height: i32 },
    /// Tell the window which of its edges are tiled.
    SetTiled { window: u64, edges: u32 },
    /// Focus the window.
    FocusWindow { seat: u64, window: u64 },
    /// Focus no window.
    ClearFocus { seat: u64 },
    /// End the answer to a request to manage.
    ManageFinish,
    /// Hide the window.
    Hide { window: u64 },
    /// Show the window.
    Show { window: u64 },
    /// Place the window.
    SetPosition { window: u64, x: i32, y: i32 },
    /// Put the window above all others.
    PlaceTop { window: u64 },
    /// Draw borders on the given edges of the window.
    SetBorders { window: u64, edges: u32, width: i32, color: (u32, u32, u32, u32) },
    /// Draw the border above the window.
    DrawTopBorder { window: u64, width: i32, height: i32, argb: u32 },
    /// End the answer to a request to render.
    RenderFinish,
}

/// All four edges.
pub const ALL_EDGES: u32 = 15;

/// All edges but the upper one.
pub const SIDE_EDGES: u32 = 14;

/// No edge.
pub const NO_EDGES: u32 = 0;

/// The requests for each of some items, one after the other.
pub open spec fn each<A>(items: Seq<A>, requests: spec_fn(A) -> Seq<Request>) -> Seq<Request>
    decreases items.len(),
{
    if items.len() == 0 {
        Seq::empty()
    } else {
        each(items.drop_last(), requests) + requests(items.last())
    }
}

/// The requests for one item more.
pub proof fn lemma_each_step<A>(items: Seq<A>, requests: spec_fn(A) -> Seq<Request>, n: int)
    requires
        0 <= n < items.len(),
    ensures
        each(items.take(n + 1), requests) == each(items.take(n), requests) + requests(items[n]),
{
    assert(items.take(n + 1).drop_last() =~= items.take(n));
}

/// A request is among those for all items if and only if it is among those for one of them.
pub proof fn lemma_each_contains<A>(
    items: Seq<A>,
    requests: spec_fn(A) -> Seq<Request>,
    request: Request,
)
    ensures
        each(items, requests).contains(request) <==> exists|i: int|
            0 <= i < items.len() && #[trigger] requests(items[i]).contains(request),
    decreases items.len(),
{
    if items.len() > 0 {
        let before = each(items.drop_last(), requests);
        let own = requests(items.last());
        let all = each(items, requests);
        lemma_each_contains(items.drop_last(), requests, request);
        if all.contains(request) {
            let k = choose|k: int| 0 <= k < all.len() && all[k] == request;
            if k < before.len() {
                assert(before[k] == request);
                let i = choose|i: int|
                    0 <= i < items.drop_last().len() && #[trigger] requests(
                        items.drop_last()[i],
                    ).contains(request);
                assert(requests(items[i]).contains(request));
            } else {
                assert(own[k - before.len()] == request);
                assert(requests(items[items.len() - 1]).contains(request));
            }
        }
        if exists|i: int| 0 <= i < items.len() && #[trigger] requests(items[i]).contains(request) {
            let i = choose|i: int|
                0 <= i < items.len() && #[trigger] requests(items[i]).contains(request);
            if i < items.len() - 1 {
                assert(requests(items.drop_last()[i]).contains(request));
                let k = choose|k: int| 0 <= k < before.len() && before[k] == request;
                assert(all[k] == request);
            } else {
                let k = choose|k: int| 0 <= k < own.len() && own[k] == request;
                assert(all[before.len() + k] == request);
            }
        }
    }
}

/// An item is in two lists that are joined if and only if it is in one of them.
pub proof fn lemma_joined_contains(a: Seq<Request>, b: Seq<Request>, r: Request)
    ensures
        (a + b).contains(r) <==> a.contains(r) || b.contains(r),
{
    if a.contains(r) {
        let i = choose|i: int| 0 <= i < a.len() && a[i] == r;
        assert((a + b)[i] == r);
    }
    if b.contains(r) {
        let i = choose|i: int| 0 <= i < b.len() && b[i] == r;
        assert((a + b)[a.len() + i] == r);
    }
    if (a + b).contains(r) {
        let i = choose|i: int| 0 <= i < (a + b).len() && (a + b)[i] == r;
        if i < a.len() {
            assert(a[i] == r);
        } else {
            assert(b[i - a.len()] == r);
        }
    }
}

} // verus!

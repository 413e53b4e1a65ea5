use crate::coord::HexCoordinate;
use crate::grid::CellHandle;
use crate::grid::GridIndex;
use crate::layout::HexLayout;
use crate::layout::WorldPos;
use crate::layout::WORLD_MAX;
use crate::selection::step_spec;
use crate::selection::HighlightCommand;
use crate::selection::SelectionState;
use vstd::prelude::*;

verus! {

/// The coordinate a frame's cursor hit resolves to, if any: the cell
/// containing the hit point. The hit point itself comes from the host's
/// ray cast; a frame without one resolves to nothing.
pub open spec fn resolution_spec(point: Option<WorldPos>, layout: HexLayout) -> Option<
    HexCoordinate,
> {
    match point {
        Option::None => Option::None,
        Option::Some(p) => Option::Some(layout.hex_at(p)),
    }
}

/// Resolves a world-space hit point to the cell containing it and that
/// cell's handle; nothing when the cell lies outside the grid. Pure
/// composition of the inverse layout transform and the grid lookup; safe
/// to call every frame.
pub fn resolve(point: WorldPos, layout: &HexLayout, index: &GridIndex) -> (res: Option<
    (HexCoordinate, CellHandle),
>)
    requires
        layout.wf(),
        index.wf(),
        -WORLD_MAX <= point.x <= WORLD_MAX,
        -WORLD_MAX <= point.y <= WORLD_MAX,
    ensures
        ({
            let c = layout.hex_at(point);
            if index@.dom().contains(c) {
                res == Option::Some((c, index@[c]))
            } else {
                res is None
            }
        }),
{
    let c = layout.world_to_hex(point);
    match index.lookup(c) {
        Option::Some(h) => Option::Some((c, h)),
        Option::None => Option::None,
    }
}

/// One whole input frame: resolve the cursor hit point, if any, and run
/// the selection transition on the outcome. Returns the appearance
/// changes to apply, in order.
pub fn frame(
    state: &mut SelectionState,
    point: Option<WorldPos>,
    layout: &HexLayout,
    index: &GridIndex,
) -> (cmds: Vec<HighlightCommand>)
    requires
        layout.wf(),
        index.wf(),
        point matches Option::Some(p) ==> -WORLD_MAX <= p.x <= WORLD_MAX && -WORLD_MAX <= p.y
            <= WORLD_MAX,
    ensures
        *final(state) == step_spec(*old(state), resolution_spec(point, *layout), index@).0,
        cmds@ == step_spec(*old(state), resolution_spec(point, *layout), index@).1,
{
    match point {
        Option::Some(p) => {
            let c = layout.world_to_hex(p);
            state.apply_resolved(Option::Some(c), index)
        },
        Option::None => state.apply_resolved(Option::None, index),
    }
}

} // verus!

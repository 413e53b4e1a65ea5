use crate::coord::HexCoordinate;
use crate::grid::CellHandle;
use crate::grid::GridIndex;
use vstd::prelude::*;

verus! {

/// Appearance a cell can be shown with.
#[derive(Clone, Copy, Debug, PartialEq, Eq, Structural)]
pub enum Appearance {
    /// The default look every cell starts with.
    Base,
    /// The look of the currently selected cell.
    Highlighted,
}

/// One appearance change the caller must apply to the rendering store.
#[derive(Clone, Copy, Debug, PartialEq, Eq, Structural)]
pub enum HighlightCommand {
    /// Restore the cell behind the handle to its default appearance.
    Unhighlight(CellHandle),
    /// Show the cell behind the handle as selected.
    Highlight(CellHandle),
}

/// Single-slot selection state machine: at most one cell is highlighted at
/// any time. The machine never performs side effects itself; each
/// transition returns the appearance changes the caller must apply.
#[derive(Clone, Copy, Debug, PartialEq, Eq, Structural)]
pub enum SelectionState {
    Unselected,
    Selected(HexCoordinate),
}

/// One transition of the selection machine, run once per input frame.
///
/// * No resolved coordinate: the state is unchanged — losing the pointer
///   does not clear a selection.
/// * A coordinate outside the grid: unchanged as well; the miss is normal.
/// * The already selected coordinate: no-op, no commands re-emitted.
/// * Otherwise: unhighlight the previous selection (skipped silently when
///   its cell is no longer in the grid), then highlight and select the new
///   coordinate — in that order.
pub open spec fn step_spec(
    s: SelectionState,
    resolved: Option<HexCoordinate>,
    m: Map<HexCoordinate, CellHandle>,
) -> (SelectionState, Seq<HighlightCommand>) {
    match resolved {
        Option::None => (s, Seq::empty()),
        Option::Some(c) => {
            if !m.dom().contains(c) {
                (s, Seq::empty())
            } else if s == SelectionState::Selected(c) {
                (s, Seq::empty())
            } else {
                let unhighlight = match s {
                    SelectionState::Selected(prev) => if m.dom().contains(prev) {
                        seq![HighlightCommand::Unhighlight(m[prev])]
                    } else {
                        Seq::empty()
                    },
                    SelectionState::Unselected => Seq::empty(),
                };
                (SelectionState::Selected(c), unhighlight.push(HighlightCommand::Highlight(m[c])))
            }
        },
    }
}

impl SelectionState {
    /// Runs one transition against the grid `index`, updating the state in
    /// place and returning the appearance changes to apply, in order.
    pub fn apply_resolved(
        &mut self,
        resolved: Option<HexCoordinate>,
        index: &GridIndex,
    ) -> (cmds: Vec<HighlightCommand>)
        requires
            index.wf(),
        ensures
            *final(self) == step_spec(*old(self), resolved, index@).0,
            cmds@ == step_spec(*old(self), resolved, index@).1,
    {
        let mut cmds: Vec<HighlightCommand> = Vec::new();
        let c = match resolved {
            Option::None => {
                return cmds;
            },
            Option::Some(c) => c,
        };
        let h = match index.lookup(c) {
            Option::None => {
                return cmds;
            },
            Option::Some(h) => h,
        };
        let same = match *self {
            SelectionState::Selected(prev) => prev == c,
            SelectionState::Unselected => false,
        };
        if same {
            return cmds;
        }
        match *self {
            SelectionState::Selected(prev) => {
                match index.lookup(prev) {
                    Option::Some(ph) => {
                        cmds.push(HighlightCommand::Unhighlight(ph));
                    },
                    Option::None => {},
                }
            },
            SelectionState::Unselected => {},
        }
        cmds.push(HighlightCommand::Highlight(h));
        *self = SelectionState::Selected(c);
        proof {
            assert(cmds@ =~= step_spec(*old(self), resolved, index@).1);
        }
        cmds
    }
}

/// How a sequence of commands changes the appearance of the cells: applied
/// left to right over a map from handle to appearance.
pub open spec fn apply_commands(
    looks: Map<CellHandle, Appearance>,
    cmds: Seq<HighlightCommand>,
) -> Map<CellHandle, Appearance>
    decreases cmds.len(),
{
    if cmds.len() == 0 {
        looks
    } else {
        let rest = apply_commands(looks, cmds.drop_last());
        match cmds.last() {
            HighlightCommand::Unhighlight(h) => rest.insert(h, Appearance::Base),
            HighlightCommand::Highlight(h) => rest.insert(h, Appearance::Highlighted),
        }
    }
}

/// Number of highlight emissions in a command sequence.
pub open spec fn highlight_count(cmds: Seq<HighlightCommand>) -> nat
    decreases cmds.len(),
{
    if cmds.len() == 0 {
        0
    } else {
        highlight_count(cmds.drop_last()) + match cmds.last() {
            HighlightCommand::Highlight(h) => 1nat,
            HighlightCommand::Unhighlight(h) => 0nat,
        }
    }
}

/// The state after running some number of frames in which no coordinate
/// resolved.
pub open spec fn after_misses(
    s: SelectionState,
    m: Map<HexCoordinate, CellHandle>,
    frames: nat,
) -> SelectionState
    decreases frames,
{
    if frames == 0 {
        s
    } else {
        after_misses(step_spec(s, Option::None, m).0, m, (frames - 1) as nat)
    }
}

/// Idempotence: two transitions in a row on the same resolved coordinate
/// select that coordinate, emit exactly one highlight between them, and the
/// second transition emits nothing at all.
pub proof fn lemma_selection_idempotent(
    s: SelectionState,
    c: HexCoordinate,
    m: Map<HexCoordinate, CellHandle>,
)
    requires
        m.dom().contains(c),
    ensures
        step_spec(s, Option::Some(c), m).0 == SelectionState::Selected(c),
        ({
            let once = step_spec(s, Option::Some(c), m);
            let twice = step_spec(once.0, Option::Some(c), m);
            &&& twice.0 == once.0
            &&& twice.1 =~= Seq::<HighlightCommand>::empty()
            &&& highlight_count(once.1 + twice.1) == (if s == SelectionState::Selected(c) {
                0int
            } else {
                1int
            })
        }),
{
    let once = step_spec(s, Option::Some(c), m);
    let twice = step_spec(once.0, Option::Some(c), m);
    assert(once.1 + twice.1 =~= once.1);
    if s == SelectionState::Selected(c) {
        assert(highlight_count(once.1) == 0);
    } else {
        let unhighlight = match s {
            SelectionState::Selected(prev) => if m.dom().contains(prev) {
                seq![HighlightCommand::Unhighlight(m[prev])]
            } else {
                Seq::empty()
            },
            SelectionState::Unselected => Seq::empty(),
        };
        assert(once.1 == unhighlight.push(HighlightCommand::Highlight(m[c])));
        assert(once.1.drop_last() =~= unhighlight);
        assert(highlight_count(unhighlight) == 0) by {
            if unhighlight.len() == 1 {
                assert(unhighlight.last() is Unhighlight);
                assert(unhighlight.drop_last().len() == 0);
                assert(highlight_count(unhighlight.drop_last()) == 0);
            } else {
                assert(unhighlight.len() == 0);
            }
        }
        assert(highlight_count(once.1) == 1);
    }
}

/// Selection is sticky: any number of frames in which no coordinate
/// resolves leaves the state exactly as it was, and each such frame emits
/// no commands.
pub proof fn lemma_selection_sticky(
    s: SelectionState,
    m: Map<HexCoordinate, CellHandle>,
    frames: nat,
)
    ensures
        after_misses(s, m, frames) == s,
        step_spec(s, Option::None, m).1 == Seq::<HighlightCommand>::empty(),
    decreases frames,
{
    if frames > 0 {
        lemma_selection_sticky(s, m, (frames - 1) as nat);
    }
}

/// Swap correctness: moving the selection from `a` to a different valid
/// cell `b` emits exactly one unhighlight of `a`'s handle followed by one
/// highlight of `b`'s handle, selects `b`, and — for distinct handles —
/// leaves `a` looking default and `b` highlighted.
pub proof fn lemma_selection_swap(
    a: HexCoordinate,
    b: HexCoordinate,
    m: Map<HexCoordinate, CellHandle>,
    looks: Map<CellHandle, Appearance>,
)
    requires
        m.dom().contains(a),
        m.dom().contains(b),
        a != b,
    ensures
        step_spec(SelectionState::Selected(a), Option::Some(b), m).0 == SelectionState::Selected(
            b,
        ),
        step_spec(SelectionState::Selected(a), Option::Some(b), m).1 =~= seq![
            HighlightCommand::Unhighlight(m[a]),
            HighlightCommand::Highlight(m[b]),
        ],
        m[a] != m[b] ==> ({
            let after = apply_commands(
                looks,
                step_spec(SelectionState::Selected(a), Option::Some(b), m).1,
            );
            after[m[a]] == Appearance::Base && after[m[b]] == Appearance::Highlighted
        }),
{
    let cmds = step_spec(SelectionState::Selected(a), Option::Some(b), m).1;
    let pair = seq![HighlightCommand::Unhighlight(m[a]), HighlightCommand::Highlight(m[b])];
    assert(cmds =~= pair);
    assert(pair.drop_last() =~= seq![HighlightCommand::Unhighlight(m[a])]);
    assert(seq![HighlightCommand::Unhighlight(m[a])].drop_last()
        =~= Seq::<HighlightCommand>::empty());
    assert(apply_commands(looks, Seq::<HighlightCommand>::empty()) == looks);
    assert(apply_commands(looks, seq![HighlightCommand::Unhighlight(m[a])]) == looks.insert(
        m[a],
        Appearance::Base,
    ));
    assert(apply_commands(looks, pair) == looks.insert(m[a], Appearance::Base).insert(
        m[b],
        Appearance::Highlighted,
    ));
}

/// The selection invariant: when every coordinate a state may hold is a key
/// of the grid, one transition keeps it so — a selected coordinate always
/// has a cell in the grid it was selected from.
pub proof fn lemma_selection_in_grid(
    s: SelectionState,
    resolved: Option<HexCoordinate>,
    m: Map<HexCoordinate, CellHandle>,
)
    requires
        s matches SelectionState::Selected(c) ==> m.dom().contains(c),
    ensures
        step_spec(s, resolved, m).0 matches SelectionState::Selected(c2) ==> m.dom().contains(c2),
{
}

} // verus!

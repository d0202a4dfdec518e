use vstd::prelude::*;

verus! {

/// The tool the player holds.
#[derive(Debug, Copy, Clone, Eq, PartialEq, Structural)]
pub enum ToolType {
    NoTool,
    VertexEditor,
    TileEditor,
    BuildRoad,
    BuildResidentialBuilding,
    BuildCommercialBuilding,
}

impl ToolType {
    /// Position of the tool in the selection cycle.
    pub open spec fn index(self) -> int {
        match self {
            ToolType::NoTool => 0,
            ToolType::VertexEditor => 1,
            ToolType::TileEditor => 2,
            ToolType::BuildRoad => 3,
            ToolType::BuildResidentialBuilding => 4,
            ToolType::BuildCommercialBuilding => 5,
        }
    }

    /// The tool at position `i` (taken modulo 6) of the selection cycle.
    pub open spec fn from_index(i: int) -> ToolType {
        let k = i % 6;
        if k == 0 {
            ToolType::NoTool
        } else if k == 1 {
            ToolType::VertexEditor
        } else if k == 2 {
            ToolType::TileEditor
        } else if k == 3 {
            ToolType::BuildRoad
        } else if k == 4 {
            ToolType::BuildResidentialBuilding
        } else {
            ToolType::BuildCommercialBuilding
        }
    }

    /// The tool selected after this one; the last tool wraps around to no tool.
    pub fn next_tool(self) -> (r: Self)
        ensures
            r == ToolType::from_index(self.index() + 1),
    {
        match self {
            ToolType::NoTool => ToolType::VertexEditor,
            ToolType::VertexEditor => ToolType::TileEditor,
            ToolType::TileEditor => ToolType::BuildRoad,
            ToolType::BuildRoad => ToolType::BuildResidentialBuilding,
            ToolType::BuildResidentialBuilding => ToolType::BuildCommercialBuilding,
            ToolType::BuildCommercialBuilding => ToolType::NoTool,
        }
    }
}

/// Selecting the next tool `n` times from a tool lands on the tool `n` places further in the
/// cycle; in particular six selections come back to the starting tool.
pub proof fn law_tool_cycle(t: ToolType, n: nat)
    ensures
        ToolType::from_index(ToolType::from_index(t.index() + n).index() + 1) == ToolType::from_index(
            t.index() + n + 1,
        ),
        ToolType::from_index(t.index() + 6) == t,
{
    let a = t.index() + n;
    assert(ToolType::from_index(a).index() == a % 6);
    assert(((a % 6) + 1) % 6 == (a + 1) % 6) by (nonlinear_arith);
}

} // verus!

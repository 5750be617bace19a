//! The dispatch grid: how many workgroups cover a surface.

use vstd::prelude::*;

verus! {

/// Edge length of one workgroup used by the stock compute programs.
pub const WORKGROUP_SIZE: u32 = 8;

/// Width of the stock surfaces, in pixels.
pub const SURFACE_WIDTH: u32 = 1920;

/// Height of the stock surfaces, in pixels.
pub const SURFACE_HEIGHT: u32 = 1080;

/// The number of workgroups of edge `workgroup` needed to cover `extent`
/// pixels: the quotient, rounded up.
pub open spec fn spec_group_count(extent: int, workgroup: int) -> int {
    (extent + workgroup - 1) / workgroup
}

/// The rounded-up quotient is the least count whose groups cover the extent.
pub proof fn lemma_group_count_is_ceiling(extent: int, workgroup: int)
    requires
        0 <= extent,
        0 < workgroup,
    ensures
        spec_group_count(extent, workgroup) * workgroup >= extent,
        (spec_group_count(extent, workgroup) - 1) * workgroup < extent,
        0 <= spec_group_count(extent, workgroup) <= extent,
        spec_group_count(extent, workgroup) == if extent % workgroup == 0 {
            extent / workgroup
        } else {
            extent / workgroup + 1
        },
{
    let q = extent / workgroup;
    let r = extent % workgroup;
    assert(extent == q * workgroup + r && 0 <= r < workgroup) by (nonlinear_arith)
        requires
            0 < workgroup,
            q == extent / workgroup,
            r == extent % workgroup,
    ;
    let c = spec_group_count(extent, workgroup);
    assert(c == if r == 0 { q } else { q + 1 }) by (nonlinear_arith)
        requires
            0 < workgroup,
            0 <= r < workgroup,
            extent == q * workgroup + r,
            c == (extent + workgroup - 1) / workgroup,
    ;
    assert(c * workgroup >= extent && (c - 1) * workgroup < extent && 0 <= c <= extent)
        by (nonlinear_arith)
        requires
            0 < workgroup,
            0 <= extent,
            0 <= r < workgroup,
            extent == q * workgroup + r,
            c == if r == 0 { q } else { q + 1 },
    ;
}

/// Workgroups along one axis for a surface of `extent` pixels.
pub fn group_count(extent: u32, workgroup: u32) -> (count: u32)
    requires
        workgroup > 0,
    ensures
        count == spec_group_count(extent as int, workgroup as int),
        count * workgroup >= extent,
        (count - 1) * workgroup < extent,
{
    proof {
        lemma_group_count_is_ceiling(extent as int, workgroup as int);
    }
    let whole: u32 = extent / workgroup;
    if extent % workgroup == 0 {
        whole
    } else {
        whole + 1
    }
}

/// Workgroup counts of one dispatch, per axis.
#[derive(Clone, Copy, Debug, PartialEq, Eq, Structural)]
pub struct GroupCounts {
    pub x: u32,
    pub y: u32,
    pub z: u32,
}

/// The dimensions that size a dispatch: the surface's width and height in
/// pixels and the edge of a workgroup, which is never zero.
#[derive(Clone, Copy, Debug, PartialEq, Eq, Structural)]
pub struct Grid {
    width: u32,
    height: u32,
    workgroup: u32,
}

impl Grid {
    #[verifier::type_invariant]
    spec fn positive_workgroup(self) -> bool {
        self.workgroup > 0
    }

    /// The surface's width in pixels.
    pub closed spec fn spec_width(self) -> u32 {
        self.width
    }

    /// The surface's height in pixels.
    pub closed spec fn spec_height(self) -> u32 {
        self.height
    }

    /// The edge of a workgroup.
    pub closed spec fn spec_workgroup(self) -> u32 {
        self.workgroup
    }

    /// The counts of the 2D dispatch that covers the surface: the width and
    /// the height, each divided by the workgroup edge and rounded up, and one
    /// layer.
    pub open spec fn spec_groups(self) -> GroupCounts {
        GroupCounts {
            x: spec_group_count(self.spec_width() as int, self.spec_workgroup() as int) as u32,
            y: spec_group_count(self.spec_height() as int, self.spec_workgroup() as int) as u32,
            z: 1,
        }
    }

    /// A grid for a surface of `width` by `height` pixels and workgroups of
    /// edge `workgroup`; `None` if and only if `workgroup` is zero.
    pub fn new(width: u32, height: u32, workgroup: u32) -> (grid: Option<Grid>)
        ensures
            grid is None <==> workgroup == 0,
            grid matches Some(g) ==> g.spec_width() == width && g.spec_height() == height
                && g.spec_workgroup() == workgroup,
    {
        if workgroup == 0 {
            None
        } else {
            Some(Grid { width, height, workgroup })
        }
    }

    /// The grid of the stock surfaces: 1920 by 1080 pixels, workgroups of 8.
    pub fn stock() -> (grid: Grid)
        ensures
            grid.spec_width() == SURFACE_WIDTH,
            grid.spec_height() == SURFACE_HEIGHT,
            grid.spec_workgroup() == WORKGROUP_SIZE,
    {
        Grid { width: SURFACE_WIDTH, height: SURFACE_HEIGHT, workgroup: WORKGROUP_SIZE }
    }

    /// The surface's width in pixels.
    pub fn width(&self) -> (width: u32)
        ensures
            width == self.spec_width(),
    {
        self.width
    }

    /// The surface's height in pixels.
    pub fn height(&self) -> (height: u32)
        ensures
            height == self.spec_height(),
    {
        self.height
    }

    /// The edge of a workgroup; never zero.
    pub fn workgroup(&self) -> (workgroup: u32)
        ensures
            workgroup == self.spec_workgroup(),
            workgroup > 0,
    {
        proof {
            use_type_invariant(self);
        }
        self.workgroup
    }

    /// The workgroup counts of the dispatch that covers the surface. Along
    /// each axis the count is the ceiling of the quotient: the groups cover
    /// the axis, and one group fewer would not.
    pub fn groups(&self) -> (counts: GroupCounts)
        ensures
            counts == self.spec_groups(),
            counts.x == spec_group_count(self.spec_width() as int, self.spec_workgroup() as int),
            counts.y == spec_group_count(self.spec_height() as int, self.spec_workgroup() as int),
            counts.z == 1,
            counts.x * self.spec_workgroup() >= self.spec_width(),
            (counts.x - 1) * self.spec_workgroup() < self.spec_width(),
            counts.y * self.spec_workgroup() >= self.spec_height(),
            (counts.y - 1) * self.spec_workgroup() < self.spec_height(),
    {
        proof {
            use_type_invariant(self);
        }
        GroupCounts {
            x: group_count(self.width, self.workgroup),
            y: group_count(self.height, self.workgroup),
            z: 1,
        }
    }
}

} // verus!

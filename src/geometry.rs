use vstd::prelude::*;

verus! {

/// Stable handle of one body.
pub type BodyId = u32;

/// Position and orientation of a body on an integer grid.
/// `turns` counts quarter turns; an odd count swaps the axes of a box.
#[derive(Clone, Copy, Debug, PartialEq, Eq, Structural)]
pub struct Pose {
    pub x: i32,
    pub y: i32,
    pub turns: u8,
}

/// Linear and angular rate of a body.
#[derive(Clone, Copy, Debug, PartialEq, Eq, Structural)]
pub struct Velocity {
    pub dx: i32,
    pub dy: i32,
    pub spin: i32,
}

/// A box primitive given by its half extents, with an application-defined
/// collider tag.
#[derive(Clone, Copy, Debug, PartialEq, Eq, Structural)]
pub struct Shape {
    pub half_width: u32,
    pub half_height: u32,
    pub tag: u32,
}

/// Axis-aligned bounding box, bounds inclusive.
#[derive(Clone, Copy, Debug, PartialEq, Eq, Structural)]
pub struct Aabb {
    pub min_x: i64,
    pub min_y: i64,
    pub max_x: i64,
    pub max_y: i64,
}

impl Pose {
    pub fn new(x: i32, y: i32, turns: u8) -> (r: Pose)
        ensures
            r == (Pose { x, y, turns }),
    {
        Pose { x, y, turns }
    }
}

impl Velocity {
    pub fn new(dx: i32, dy: i32, spin: i32) -> (r: Velocity)
        ensures
            r == (Velocity { dx, dy, spin }),
    {
        Velocity { dx, dy, spin }
    }
}

impl Aabb {
    pub open spec fn wf(self) -> bool {
        self.min_x <= self.max_x && self.min_y <= self.max_y
    }

    pub open spec fn overlaps_spec(self, o: Aabb) -> bool {
        self.min_x <= o.max_x && o.min_x <= self.max_x && self.min_y <= o.max_y && o.min_y
            <= self.max_y
    }

    pub open spec fn contains_spec(self, o: Aabb) -> bool {
        self.min_x <= o.min_x && o.max_x <= self.max_x && self.min_y <= o.min_y && o.max_y
            <= self.max_y
    }

    pub open spec fn union_spec(self, o: Aabb) -> Aabb {
        Aabb {
            min_x: if self.min_x <= o.min_x { self.min_x } else { o.min_x },
            min_y: if self.min_y <= o.min_y { self.min_y } else { o.min_y },
            max_x: if self.max_x >= o.max_x { self.max_x } else { o.max_x },
            max_y: if self.max_y >= o.max_y { self.max_y } else { o.max_y },
        }
    }

    pub open spec fn area_spec(self) -> int {
        (self.max_x - self.min_x) * (self.max_y - self.min_y)
    }

    /// Whether the two boxes share at least one point.
    pub fn overlaps(&self, o: &Aabb) -> (r: bool)
        ensures
            r == self.overlaps_spec(*o),
    {
        self.min_x <= o.max_x && o.min_x <= self.max_x && self.min_y <= o.max_y && o.min_y
            <= self.max_y
    }

    /// Whether `o` lies wholly inside this box.
    pub fn contains(&self, o: &Aabb) -> (r: bool)
        ensures
            r == self.contains_spec(*o),
    {
        self.min_x <= o.min_x && o.max_x <= self.max_x && self.min_y <= o.min_y && o.max_y
            <= self.max_y
    }

    /// The smallest box holding both boxes.
    pub fn union(&self, o: &Aabb) -> (r: Aabb)
        ensures
            r == self.union_spec(*o),
            self.wf() && o.wf() ==> r.wf() && r.contains_spec(*self) && r.contains_spec(*o),
    {
        Aabb {
            min_x: if self.min_x <= o.min_x { self.min_x } else { o.min_x },
            min_y: if self.min_y <= o.min_y { self.min_y } else { o.min_y },
            max_x: if self.max_x >= o.max_x { self.max_x } else { o.max_x },
            max_y: if self.max_y >= o.max_y { self.max_y } else { o.max_y },
        }
    }

    /// Area of a well-formed box, the balancing metric of a bounding-volume tree.
    pub fn surface_area(&self) -> (r: u128)
        requires
            self.wf(),
        ensures
            r == self.area_spec(),
    {
        let w = (self.max_x as i128 - self.min_x as i128) as u128;
        let h = (self.max_y as i128 - self.min_y as i128) as u128;
        assert(w * h < 0x1_0000_0000_0000_0000_0000_0000_0000_0000) by (nonlinear_arith)
            requires
                0 <= w < 0x1_0000_0000_0000_0000,
                0 <= h < 0x1_0000_0000_0000_0000,
        ;
        w * h
    }
}

impl Shape {
    pub fn new(half_width: u32, half_height: u32, tag: u32) -> (r: Shape)
        ensures
            r == (Shape { half_width, half_height, tag }),
    {
        Shape { half_width, half_height, tag }
    }
}

/// The bound of a box shape placed at a pose.
pub open spec fn bound_spec(s: Shape, p: Pose) -> Aabb {
    let (hx, hy) = if p.turns % 2 == 0 {
        (s.half_width as int, s.half_height as int)
    } else {
        (s.half_height as int, s.half_width as int)
    };
    Aabb {
        min_x: (p.x - hx) as i64,
        min_y: (p.y - hy) as i64,
        max_x: (p.x + hx) as i64,
        max_y: (p.y + hy) as i64,
    }
}

/// Computes the bound of `s` at `p`; the result is always well formed.
pub fn compute_bound(s: &Shape, p: &Pose) -> (r: Aabb)
    ensures
        r == bound_spec(*s, *p),
        r.wf(),
{
    let (hx, hy) = if p.turns % 2 == 0 {
        (s.half_width as i64, s.half_height as i64)
    } else {
        (s.half_height as i64, s.half_width as i64)
    };
    Aabb {
        min_x: p.x as i64 - hx,
        min_y: p.y as i64 - hy,
        max_x: p.x as i64 + hx,
        max_y: p.y as i64 + hy,
    }
}

} // verus!

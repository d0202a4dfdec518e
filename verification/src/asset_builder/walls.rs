use vstd::prelude::*;

use crate::utils::math::{law_single_rounded_keeps_sign, round_to_single_signed, single_rounded};

verus! {

/// A wall between two grid points, as it was requested.
#[derive(Clone, Copy, Debug, PartialEq, Eq)]
pub struct Wall {
    pub starting_position: (i32, i32),
    pub ending_position: (i32, i32),
}

/// All walls built so far, in the order they were requested.
#[derive(Clone, Debug)]
pub struct Walls {
    pub walls: Vec<Wall>,
}

/// The mesh a wall piece uses: a straight one-tile wall or a diagonal one.
#[derive(Clone, Copy, Debug, PartialEq, Eq, Structural)]
pub enum WallMesh {
    Straight,
    Diagonal,
}

/// One tile-long piece of wall, with the rotation (in degrees about the vertical axis) its mesh
/// is placed with.
#[derive(Clone, Copy, Debug, PartialEq, Eq)]
pub struct WallPiece {
    pub starting_position: (i32, i32),
    pub ending_position: (i32, i32),
    pub mesh: WallMesh,
    pub rotation_degrees: i32,
}

/// Whether a wall from `s` to `e` runs along an axis or along a diagonal, judged as its slope is
/// computed in single precision: the coordinate differences are each rounded to single precision
/// (exact below 2^24), and a correctly rounded quotient of two such values is 1 or -1 exactly when
/// they are equal or opposite.
pub open spec fn is_straight_wall(s: (i32, i32), e: (i32, i32)) -> bool {
    let dx = e.0 - s.0;
    let dy = e.1 - s.1;
    dx == 0 || dy == 0 || single_rounded(dy) == single_rounded(dx) || single_rounded(dy)
        == -single_rounded(dx)
}

/// Whether a diagonal wall rises: its slope, computed in single precision, is 1.
pub open spec fn is_rising_wall(s: (i32, i32), e: (i32, i32)) -> bool {
    single_rounded(e.1 - s.1) == single_rounded(e.0 - s.0)
}

/// Whether the coordinate differences of a wall are equal or opposite, so that rounding them to
/// single precision decides nothing.
pub open spec fn is_exact_wall(s: (i32, i32), e: (i32, i32)) -> bool {
    let dx = e.0 - s.0;
    let dy = e.1 - s.1;
    dx == 0 || dy == 0 || dy == dx || dy == -dx
}

pub open spec fn abs(v: int) -> int {
    if v < 0 {
        -v
    } else {
        v
    }
}

pub open spec fn min(a: int, b: int) -> int {
    if a < b {
        a
    } else {
        b
    }
}

/// The end of a diagonal wall with the smaller first coordinate, where its pieces start.
pub open spec fn low_end(s: (i32, i32), e: (i32, i32)) -> (i32, i32) {
    if s.0 < e.0 {
        s
    } else {
        e
    }
}

/// The other end of a diagonal wall.
pub open spec fn high_end(s: (i32, i32), e: (i32, i32)) -> (i32, i32) {
    if s.0 < e.0 {
        e
    } else {
        s
    }
}

/// The number of pieces of a diagonal wall. The pieces are laid from the low end, one step along
/// both axes each, for as long as the position lies before the high end in the order of pairs:
/// one piece per step along the first axis, and one more where the walk then still lies below
/// the high end on the second axis.
pub open spec fn diagonal_piece_count(s: (i32, i32), e: (i32, i32)) -> int {
    let lo = low_end(s, e);
    let hi = high_end(s, e);
    let d = hi.0 - lo.0;
    let last = if is_rising_wall(s, e) {
        lo.1 + d
    } else {
        lo.1 - d
    };
    d + if last < hi.1 {
        1int
    } else {
        0int
    }
}

/// Whether a wall can be planned without leaving `i32`: both coordinate differences fit, the
/// length of a wall along an axis fits with its absolute value, and the pieces of a diagonal wall
/// end within `i32`.
pub open spec fn wall_fits(s: (i32, i32), e: (i32, i32)) -> bool {
    &&& i32::MIN <= e.0 - s.0 <= i32::MAX
    &&& i32::MIN <= e.1 - s.1 <= i32::MAX
    &&& s.0 == e.0 ==> e.1 - s.1 != i32::MIN
    &&& s.0 != e.0 && s.1 == e.1 ==> e.0 - s.0 != i32::MIN
    &&& (is_straight_wall(s, e) && s.0 != e.0 && s.1 != e.1) ==> {
        let lo = low_end(s, e);
        let n = diagonal_piece_count(s, e);
        &&& lo.0 + n <= i32::MAX
        &&& is_rising_wall(s, e) ==> lo.1 + n <= i32::MAX
        &&& !is_rising_wall(s, e) ==> lo.1 - n >= i32::MIN
    }
}

pub open spec fn piece(x0: int, y0: int, x1: int, y1: int, mesh: WallMesh, rotation: int) -> WallPiece {
    WallPiece {
        starting_position: (x0 as i32, y0 as i32),
        ending_position: (x1 as i32, y1 as i32),
        mesh,
        rotation_degrees: rotation as i32,
    }
}

/// The pieces a wall from `s` to `e` is built of: none for a wall that is neither axis-aligned nor
/// diagonal; otherwise one piece per tile, from the end with the smaller coordinate on. A wall
/// along the second axis takes precedence over one along the first, and both over a diagonal
/// one, which rises where [`is_rising_wall`] holds and falls otherwise.
pub open spec fn wall_pieces(s: (i32, i32), e: (i32, i32)) -> Seq<WallPiece> {
    let dx = e.0 - s.0;
    let dy = e.1 - s.1;
    if !is_straight_wall(s, e) {
        Seq::empty()
    } else if s.0 == e.0 {
        let z0 = min(s.1 as int, e.1 as int);
        Seq::new(
            abs(dy) as nat,
            |i: int| piece(s.0 as int, z0 + i, s.0 as int, z0 + i + 1, WallMesh::Straight, 270),
        )
    } else if s.1 == e.1 {
        let x0 = min(s.0 as int, e.0 as int);
        Seq::new(
            abs(dx) as nat,
            |i: int| piece(x0 + i, s.1 as int, x0 + i + 1, s.1 as int, WallMesh::Straight, 0),
        )
    } else {
        let lo = low_end(s, e);
        let n = diagonal_piece_count(s, e);
        if is_rising_wall(s, e) {
            Seq::new(
                n as nat,
                |i: int|
                    piece(
                        lo.0 + i,
                        lo.1 + i,
                        lo.0 + i + 1,
                        lo.1 + i + 1,
                        WallMesh::Diagonal,
                        -45,
                    ),
            )
        } else {
            Seq::new(
                n as nat,
                |i: int|
                    piece(
                        lo.0 + i,
                        lo.1 - i,
                        lo.0 + i + 1,
                        lo.1 - i - 1,
                        WallMesh::Diagonal,
                        45,
                    ),
            )
        }
    }
}

/// Whether a wall from `starting_position` to `ending_position` runs along an axis or a
/// diagonal, by its slope in single precision.
pub fn wall_is_straight(starting_position: (i32, i32), ending_position: (i32, i32)) -> (r: bool)
    requires
        i32::MIN <= ending_position.0 - starting_position.0 <= i32::MAX,
        i32::MIN <= ending_position.1 - starting_position.1 <= i32::MAX,
    ensures
        r == is_straight_wall(starting_position, ending_position),
{
    let delta_x: i64 = ending_position.0 as i64 - starting_position.0 as i64;
    let delta_y: i64 = ending_position.1 as i64 - starting_position.1 as i64;
    if delta_x == 0 || delta_y == 0 {
        return true;
    }
    let fx = round_to_single_signed(delta_x);
    let fy = round_to_single_signed(delta_y);
    fy == fx || fy == -fx
}

/// Records a wall from `starting_position` to `ending_position` and returns the one-tile pieces
/// it is built of, if it runs along an axis or a diagonal; any other wall is ignored.
pub fn plan_walls(walls: &mut Walls, starting_position: (i32, i32), ending_position: (i32, i32)) -> (r: Vec<WallPiece>)
    requires
        wall_fits(starting_position, ending_position),
    ensures
        r@ == wall_pieces(starting_position, ending_position),
        final(walls).walls@ == if is_straight_wall(starting_position, ending_position) {
            old(walls).walls@.push(Wall { starting_position, ending_position })
        } else {
            old(walls).walls@
        },
{
    let s = starting_position;
    let e = ending_position;
    let straight = wall_is_straight(s, e);
    let mut pieces: Vec<WallPiece> = Vec::new();
    if !straight {
        assert(pieces@ =~= wall_pieces(s, e));
        return pieces;
    }
    walls.walls.push(Wall { starting_position, ending_position });
    let ghost target = wall_pieces(s, e);
    if s.0 == e.0 {
        let delta_y: i32 = e.1 - s.1;
        let length: i32 = if delta_y < 0 {
            -delta_y
        } else {
            delta_y
        };
        let z0: i32 = if s.1 < e.1 {
            s.1
        } else {
            e.1
        };
        let mut i: i32 = 0;
        while i < length
            invariant
                0 <= i <= length,
                length == abs(delta_y as int),
                z0 == min(s.1 as int, e.1 as int),
                z0 + length <= i32::MAX,
                s.0 == e.0,
                delta_y == e.1 - s.1,
                target == wall_pieces(s, e),
                target.len() == length,
                pieces@.len() == i,
                forall|j: int| 0 <= j < i ==> #[trigger] pieces@[j] == target[j],
            decreases length - i,
        {
            pieces.push(
                WallPiece {
                    starting_position: (s.0, z0 + i),
                    ending_position: (s.0, z0 + i + 1),
                    mesh: WallMesh::Straight,
                    rotation_degrees: 270,
                },
            );
            i = i + 1;
        }
    } else if s.1 == e.1 {
        let delta_x: i32 = e.0 - s.0;
        let length: i32 = if delta_x < 0 {
            -delta_x
        } else {
            delta_x
        };
        let x0: i32 = if s.0 < e.0 {
            s.0
        } else {
            e.0
        };
        let mut i: i32 = 0;
        while i < length
            invariant
                0 <= i <= length,
                length == abs(delta_x as int),
                x0 == min(s.0 as int, e.0 as int),
                x0 + length <= i32::MAX,
                s.0 != e.0,
                s.1 == e.1,
                delta_x == e.0 - s.0,
                target == wall_pieces(s, e),
                target.len() == length,
                pieces@.len() == i,
                forall|j: int| 0 <= j < i ==> #[trigger] pieces@[j] == target[j],
            decreases length - i,
        {
            pieces.push(
                WallPiece {
                    starting_position: (x0 + i, s.1),
                    ending_position: (x0 + i + 1, s.1),
                    mesh: WallMesh::Straight,
                    rotation_degrees: 0,
                },
            );
            i = i + 1;
        }
    } else {
        let lo = if s.0 < e.0 {
            s
        } else {
            e
        };
        let hi = if s.0 < e.0 {
            e
        } else {
            s
        };
        let rising = round_to_single_signed(e.1 as i64 - s.1 as i64) == round_to_single_signed(
            e.0 as i64 - s.0 as i64,
        );
        let ghost n = diagonal_piece_count(s, e);
        let mut x: i64 = lo.0 as i64;
        let mut y: i64 = lo.1 as i64;
        let mut i: i64 = 0;
        while x < hi.0 as i64 || (x == hi.0 as i64 && y < hi.1 as i64)
            invariant
                s.0 != e.0,
                s.1 != e.1,
                is_straight_wall(s, e),
                wall_fits(s, e),
                rising == is_rising_wall(s, e),
                lo == low_end(s, e),
                hi == high_end(s, e),
                lo.0 < hi.0,
                n == diagonal_piece_count(s, e),
                0 <= i <= n,
                x == lo.0 + i,
                rising ==> y == lo.1 + i,
                !rising ==> y == lo.1 - i,
                target == wall_pieces(s, e),
                target.len() == n,
                pieces@.len() == i,
                forall|j: int| 0 <= j < i ==> #[trigger] pieces@[j] == target[j],
            decreases n - i,
        {
            if rising {
                pieces.push(
                    WallPiece {
                        starting_position: (x as i32, y as i32),
                        ending_position: ((x + 1) as i32, (y + 1) as i32),
                        mesh: WallMesh::Diagonal,
                        rotation_degrees: -45,
                    },
                );
                y = y + 1;
            } else {
                pieces.push(
                    WallPiece {
                        starting_position: (x as i32, y as i32),
                        ending_position: ((x + 1) as i32, (y - 1) as i32),
                        mesh: WallMesh::Diagonal,
                        rotation_degrees: 45,
                    },
                );
                y = y - 1;
            }
            x = x + 1;
            i = i + 1;
        }
    }
    assert(pieces@ =~= target);
    pieces
}

/// The pieces of a straight wall form a path of unit steps: each piece ends where the next one
/// starts, and the first starts at one end of the wall. Where the coordinate differences are
/// equal or opposite (so rounding to single precision decides nothing), there is one piece per
/// tile of the wall's longer extent and the last piece ends at the other end of the wall.
pub proof fn law_wall_pieces_form_a_path(s: (i32, i32), e: (i32, i32))
    requires
        wall_fits(s, e),
        is_straight_wall(s, e),
        s != e,
    ensures
        ({
            let p = wall_pieces(s, e);
            &&& p.len() >= 1
            &&& forall|j: int| 0 <= j < p.len() - 1 ==> #[trigger] p[j].ending_position == p[j + 1].starting_position
            &&& forall|j: int|
                #![trigger p[j]]
                0 <= j < p.len() ==> {
                    let d0 = p[j].ending_position.0 - p[j].starting_position.0;
                    let d1 = p[j].ending_position.1 - p[j].starting_position.1;
                    ||| (d0 == 0 && d1 == 1)
                    ||| (d0 == 1 && d1 == 0)
                    ||| (d0 == 1 && (d1 == 1 || d1 == -1))
                }
            &&& p[0].starting_position == s || p[0].starting_position == e
            &&& is_exact_wall(s, e) ==> {
                &&& p.len() == if abs(e.0 - s.0) > abs(e.1 - s.1) {
                    abs(e.0 - s.0)
                } else {
                    abs(e.1 - s.1)
                }
                &&& (p[0].starting_position == s && p[p.len() - 1].ending_position == e)
                    || (p[0].starting_position == e && p[p.len() - 1].ending_position == s)
            }
        }),
{
    let dx = e.0 - s.0;
    let dy = e.1 - s.1;
    law_single_rounded_keeps_sign(dx);
    law_single_rounded_keeps_sign(dy);
    if dy == -dx {
        assert(single_rounded(dy) == -single_rounded(dx));
    }
}

} // verus!

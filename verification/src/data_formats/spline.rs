//! Paths used by scripts: a list of timed points, each with three positions.

use vstd::prelude::*;

use crate::data_formats::cmi_operands::{read_as, read_value, value_at};
use crate::file_formats::dti::{read_vec3, vec3_at, Vec3Bits};
use crate::reader::Reader;

verus! {

broadcast use crate::reader::lemma_reader_bounds;

/// A point of a path: a time and three positions (as float bits).
#[derive(Clone, Copy, Debug, PartialEq, Eq, Structural)]
pub struct SplinePoint {
    pub t: i32,
    pub pos1: Vec3Bits,
    pub pos2: Vec3Bits,
    pub pos3: Vec3Bits,
}

/// A point at `p`: a signed time and three positions.
pub open spec fn point_at(d: Seq<u8>, p: int) -> Option<(SplinePoint, int)> {
    match value_at::<i32>(d, p) {
        Some((t, q0)) => match vec3_at(d, q0) {
            Some((pos1, q1)) => match vec3_at(d, q1) {
                Some((pos2, q2)) => match vec3_at(d, q2) {
                    Some((pos3, q3)) => Some((SplinePoint { t, pos1, pos2, pos3 }, q3)),
                    None => None,
                },
                None => None,
            },
            None => None,
        },
        None => None,
    }
}

/// Points `i..n` from `p`.
pub open spec fn points_from(d: Seq<u8>, p: int, n: int, i: int) -> Option<(Seq<SplinePoint>, int)>
    decreases n - i,
{
    if i >= n {
        Some((Seq::empty(), p))
    } else {
        match point_at(d, p) {
            Some((x, q)) => match points_from(d, q, n, i + 1) {
                Some((rest, e)) => Some((seq![x] + rest, e)),
                None => None,
            },
            None => None,
        }
    }
}

/// A path at `p`: a count of at least two, then the points. Gives the points
/// and where they end.
pub open spec fn spec_spline(d: Seq<u8>, p: int) -> Option<(Seq<SplinePoint>, int)> {
    match value_at::<u32>(d, p) {
        Some((n, q)) => if n < 2 {
            None
        } else {
            points_from(d, q, n as int, 0)
        },
        None => None,
    }
}

proof fn lemma_points_from_size(d: Seq<u8>, p: int, n: int, i: int)
    requires
        i <= n,
    ensures
        points_from(d, p, n, i) matches Some((pts, e)) ==> pts.len() == n - i && e == p + 40 * (n - i),
    decreases n - i,
{
    if i < n {
        match point_at(d, p) {
            Some((x, q)) => {
                assert(q == p + 40);
                lemma_points_from_size(d, q, n, i + 1);
            },
            None => {},
        }
    }
}

/// A path holds as many points as its count word (low byte first) says, at
/// least two, and takes 4 bytes for the count and 40 per point: a 32-bit time
/// and three positions of three 32-bit floats.
pub proof fn lemma_spline_size(d: Seq<u8>, p: int)
    ensures
        spec_spline(d, p) matches Some((pts, e)) ==> {
            let n = d[p] + d[p + 1] * 0x100 + d[p + 2] * 0x10000 + d[p + 3] * 0x1000000;
            &&& n >= 2
            &&& pts.len() == n
            &&& e == p + 4 + 40 * n
        },
{
    match value_at::<u32>(d, p) {
        Some((n, q)) => {
            if n >= 2 {
                lemma_points_from_size(d, q, n as int, 0);
            }
        },
        None => {},
    }
}

/// A path of timed points.
pub struct Spline {
    pub points: Vec<SplinePoint>,
}

impl Spline {
    /// Reads a path at the reader's position; `None` where it is not laid
    /// out as described. On success the reader ends after the last point.
    pub fn try_parse(reader: &mut Reader) -> (res: Option<Spline>)
        ensures
            final(reader).data() == old(reader).data(),
            match spec_spline(old(reader).data(), old(reader).pos()) {
                Some((pts, e)) => res matches Some(s) && s.points@ == pts && final(reader).pos() == e,
                None => res is None,
            },
    {
        let ghost d = reader.data();
        let n = read_value::<u32>(reader)?;
        if n < 2 {
            return None;
        }
        let ghost goal = points_from(d, reader.pos(), n as int, 0);
        let mut points: Vec<SplinePoint> = Vec::new();
        let mut i: u32 = 0;
        while i < n
            invariant
                i <= n,
                reader.data() == d,
                d == old(reader).data(),
                spec_spline(old(reader).data(), old(reader).pos()) == goal,
                goal == match points_from(d, reader.pos(), n as int, i as int) {
                    Some((rest, e)) => Some((points@ + rest, e)),
                    None => None,
                },
            decreases n - i,
        {
            let t = match read_value::<i32>(reader) {
                Some(x) => x,
                None => return None,
            };
            let pos1 = match read_vec3(reader) {
                Some(x) => x,
                None => return None,
            };
            let pos2 = match read_vec3(reader) {
                Some(x) => x,
                None => return None,
            };
            let pos3 = match read_vec3(reader) {
                Some(x) => x,
                None => return None,
            };
            let ghost before = points@;
            let x = SplinePoint { t, pos1, pos2, pos3 };
            points.push(x);
            proof {
                if let Some((rest, e)) = points_from(d, reader.pos(), n as int, i + 1) {
                    assert(before + (seq![x] + rest) =~= points@ + rest);
                }
            }
            i = i + 1;
        }
        assert(points@ + Seq::<SplinePoint>::empty() =~= points@);
        Some(Spline { points })
    }

    /// Reads a path that is laid out as described.
    pub fn parse(reader: &mut Reader) -> (s: Spline)
        requires
            spec_spline(old(reader).data(), old(reader).pos()) is Some,
        ensures
            final(reader).data() == old(reader).data(),
            s.points@ == spec_spline(old(reader).data(), old(reader).pos()).unwrap().0,
            final(reader).pos() == spec_spline(old(reader).data(), old(reader).pos()).unwrap().1,
    {
        Self::try_parse(reader).unwrap()
    }
}

} // verus!

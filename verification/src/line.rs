//! Points and lines.
//!
//! A coordinate is kept as the bit pattern of an IEEE-754 binary32 number. Two
//! coordinates name the same number when their patterns agree, or when one is
//! `+0.0` and the other `-0.0`; a NaN names no number. A line is identified by
//! the sequence of numbers of its points, which is what [`line_key`] gives.
use vstd::prelude::*;
use crate::brush::INFINITY_BITS;

verus! {

/// The sign bit of a coordinate, which alone is the bit pattern of `-0.0`.
pub const SIGN_BIT: u32 = 0x8000_0000;

/// The bits of a coordinate without its sign.
pub open spec fn magnitude(bits: u32) -> int {
    bits as int % 0x8000_0000
}

/// Whether the bit pattern is a NaN: its magnitude lies above infinity.
pub open spec fn is_nan(bits: u32) -> bool {
    magnitude(bits) > INFINITY_BITS
}

/// The pattern that stands for the number of `bits`: `-0.0` becomes `+0.0`,
/// every other pattern stands for itself.
pub open spec fn canonical(bits: u32) -> u32 {
    if bits == SIGN_BIT {
        0
    } else {
        bits
    }
}

/// Whether the pattern is a number written in its canonical form.
pub open spec fn is_canonical(bits: u32) -> bool {
    !is_nan(bits) && bits != SIGN_BIT
}

/// Tests whether the bit pattern is a NaN.
pub fn coordinate_is_nan(bits: u32) -> (nan: bool)
    ensures
        nan == is_nan(bits),
{
    bits % SIGN_BIT > INFINITY_BITS
}

/// The canonical pattern of a coordinate.
pub fn canonical_coordinate(bits: u32) -> (c: u32)
    ensures
        c == canonical(bits),
        !is_nan(bits) ==> is_canonical(c),
{
    if bits == SIGN_BIT {
        0
    } else {
        bits
    }
}

/// A point of a line.
#[derive(Clone, Copy, Debug, PartialEq, Eq, Hash, Structural)]
pub struct LinePos {
    /// Horizontal coordinate, as the bit pattern of a binary32 number.
    pub x: u32,
    /// Vertical coordinate, as the bit pattern of a binary32 number.
    pub y: u32,
}

impl LinePos {
    /// A point is well formed when neither coordinate is a NaN.
    pub open spec fn is_valid(self) -> bool {
        !is_nan(self.x) && !is_nan(self.y)
    }

    /// The pair of numbers the point stands for.
    pub open spec fn key(self) -> (u32, u32) {
        (canonical(self.x), canonical(self.y))
    }

    /// The point whose coordinates are the two patterns of `key`.
    pub open spec fn spec_from_key(key: (u32, u32)) -> LinePos {
        LinePos { x: key.0, y: key.1 }
    }

    /// Tests whether the point is well formed.
    pub fn check(&self) -> (ok: bool)
        ensures
            ok == self.is_valid(),
    {
        !coordinate_is_nan(self.x) && !coordinate_is_nan(self.y)
    }

    /// The pair of numbers the point stands for.
    pub fn to_key(&self) -> (key: (u32, u32))
        ensures
            key == self.key(),
    {
        (canonical_coordinate(self.x), canonical_coordinate(self.y))
    }

    /// The point whose coordinates are the two patterns of `key`.
    pub fn from_key(key: (u32, u32)) -> (point: LinePos)
        ensures
            point == LinePos::spec_from_key(key),
    {
        LinePos { x: key.0, y: key.1 }
    }

    /// Whether two points stand for the same pair of numbers.
    pub fn same_position(&self, other: &LinePos) -> (same: bool)
        ensures
            same == (self.key() == other.key()),
    {
        let a = self.to_key();
        let b = other.to_key();
        a.0 == b.0 && a.1 == b.1
    }
}

/// Whether every point of a line is well formed.
pub open spec fn is_numeric_line(points: Seq<LinePos>) -> bool {
    forall|i: int| 0 <= i < points.len() ==> (#[trigger] points[i]).is_valid()
}

/// A line may be kept when it has at least one point and all its points are
/// well formed. The empty line is a stroke that has not been drawn yet.
pub open spec fn is_valid_line(points: Seq<LinePos>) -> bool {
    points.len() > 0 && is_numeric_line(points)
}

/// The identity of a line: the numbers of its points, in order.
pub open spec fn line_key(points: Seq<LinePos>) -> Seq<(u32, u32)> {
    Seq::new(points.len(), |i: int| points[i].key())
}

/// The line whose points carry the patterns of `key`.
pub open spec fn line_of_key(key: Seq<(u32, u32)>) -> Seq<LinePos> {
    Seq::new(key.len(), |i: int| LinePos::spec_from_key(key[i]))
}

/// The canonical spelling of a line: the same numbers, each in canonical form.
pub open spec fn canonical_line(points: Seq<LinePos>) -> Seq<LinePos> {
    line_of_key(line_key(points))
}

/// Whether `key` is the identity of some line that may be kept.
pub open spec fn is_line_key(key: Seq<(u32, u32)>) -> bool {
    &&& key.len() > 0
    &&& forall|i: int|
        0 <= i < key.len() ==> is_canonical((#[trigger] key[i]).0) && is_canonical(key[i].1)
}

/// The identity of a line that may be kept is a line key.
pub proof fn lemma_valid_line_has_line_key(points: Seq<LinePos>)
    requires
        is_valid_line(points),
    ensures
        is_line_key(line_key(points)),
{
    let key = line_key(points);
    assert forall|i: int| 0 <= i < key.len() implies is_canonical((#[trigger] key[i]).0)
        && is_canonical(key[i].1) by {
        assert(points[i].is_valid());
    }
}

/// A line key spells a line that may be kept and whose identity is the key
/// itself.
pub proof fn lemma_line_of_key_round_trip(key: Seq<(u32, u32)>)
    requires
        is_line_key(key),
    ensures
        is_valid_line(line_of_key(key)),
        line_key(line_of_key(key)) == key,
{
    let points = line_of_key(key);
    assert forall|i: int| 0 <= i < points.len() implies (#[trigger] points[i]).is_valid() by {
        assert(is_canonical(key[i].0) && is_canonical(key[i].1));
    }
    assert forall|i: int| 0 <= i < key.len() implies line_key(points)[i] == key[i] by {
        assert(is_canonical(key[i].0) && is_canonical(key[i].1));
    }
    assert(line_key(points) =~= key);
}

/// The canonical spelling of a line has the identity of the line, and
/// spelling it again changes nothing.
pub proof fn lemma_canonical_line_keeps_key(points: Seq<LinePos>)
    ensures
        line_key(canonical_line(points)) == line_key(points),
        canonical_line(canonical_line(points)) == canonical_line(points),
{
    let c = canonical_line(points);
    assert(line_key(c) =~= line_key(points));
}

/// Tests whether a line may be kept.
pub fn check_line(points: &Vec<LinePos>) -> (ok: bool)
    ensures
        ok == is_valid_line(points@),
{
    points.len() > 0 && check_points(points)
}

/// Tests whether every point of a line is well formed.
pub fn check_points(points: &Vec<LinePos>) -> (ok: bool)
    ensures
        ok == is_numeric_line(points@),
{
    let mut i: usize = 0;
    while i < points.len()
        invariant
            0 <= i <= points.len(),
            forall|j: int| 0 <= j < i ==> (#[trigger] points@[j]).is_valid(),
        decreases points.len() - i,
    {
        if !points[i].check() {
            return false;
        }
        i += 1;
    }
    true
}

/// Computes the identity of a line.
pub fn key_of_line(points: &Vec<LinePos>) -> (key: Vec<(u32, u32)>)
    ensures
        key@ == line_key(points@),
{
    let mut key: Vec<(u32, u32)> = Vec::new();
    let mut i: usize = 0;
    while i < points.len()
        invariant
            0 <= i <= points.len(),
            key@.len() == i,
            forall|j: int| 0 <= j < i ==> key@[j] == (#[trigger] points@[j]).key(),
        decreases points.len() - i,
    {
        key.push(points[i].to_key());
        i += 1;
    }
    assert(key@ =~= line_key(points@));
    key
}

/// Spells out the line of a key.
pub fn line_from_key(key: &Vec<(u32, u32)>) -> (points: Vec<LinePos>)
    ensures
        points@ == line_of_key(key@),
{
    let mut points: Vec<LinePos> = Vec::new();
    let mut i: usize = 0;
    while i < key.len()
        invariant
            0 <= i <= key.len(),
            points@.len() == i,
            forall|j: int| 0 <= j < i ==> points@[j] == LinePos::spec_from_key(#[trigger] key@[j]),
        decreases key.len() - i,
    {
        points.push(LinePos::from_key(key[i]));
        i += 1;
    }
    assert(points@ =~= line_of_key(key@));
    points
}

/// Whether two lines are the same line: they have the same identity.
pub fn same_line(a: &Vec<LinePos>, b: &Vec<LinePos>) -> (same: bool)
    ensures
        same == (line_key(a@) == line_key(b@)),
{
    if a.len() != b.len() {
        assert(line_key(a@).len() != line_key(b@).len());
        return false;
    }
    let mut i: usize = 0;
    while i < a.len()
        invariant
            0 <= i <= a.len(),
            a.len() == b.len(),
            forall|j: int| 0 <= j < i ==> (#[trigger] a@[j]).key() == b@[j].key(),
        decreases a.len() - i,
    {
        if !a[i].same_position(&b[i]) {
            assert(line_key(a@)[i as int] != line_key(b@)[i as int]);
            return false;
        }
        i += 1;
    }
    assert(line_key(a@) =~= line_key(b@));
    true
}

} // verus!

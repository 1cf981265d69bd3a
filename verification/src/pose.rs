//! Sensor mounting: which signed sensor axis points right, forward and up.

use crate::model::{joined, Error};
use crate::number::Number;
use crate::text::{characters, trim_range, trimmed};
use vstd::prelude::*;

verus! {

/// Signed sensor axes, 1 to 3 for x to z, that point right, forward and up.
#[derive(Clone, Copy, Debug, PartialEq, Eq, Structural)]
pub struct Mounting {
    pub right: i8,
    pub forward: i8,
    pub up: i8,
}

/// An integer vector.
pub struct Vector {
    pub x: int,
    pub y: int,
    pub z: int,
}

pub open spec fn dot(a: Vector, b: Vector) -> int {
    a.x * b.x + a.y * b.y + a.z * b.z
}

pub open spec fn cross(a: Vector, b: Vector) -> Vector {
    Vector {
        x: a.y * b.z - a.z * b.y,
        y: a.z * b.x - a.x * b.z,
        z: a.x * b.y - a.y * b.x,
    }
}

pub open spec fn axis_index(axis: i8) -> int {
    if axis < 0 {
        -axis - 1
    } else {
        axis - 1
    }
}

/// Row `axis` of the mounting matrix, at sensor column `column`.
pub open spec fn entry(axis: i8, column: int) -> int {
    if column != axis_index(axis) {
        0
    } else if axis < 0 {
        -1
    } else {
        1
    }
}

impl Mounting {
    pub open spec fn uses_each_axis(self) -> bool {
        &&& 0 <= axis_index(self.right) < 3
        &&& 0 <= axis_index(self.forward) < 3
        &&& 0 <= axis_index(self.up) < 3
        &&& axis_index(self.right) != axis_index(self.forward)
        &&& axis_index(self.right) != axis_index(self.up)
        &&& axis_index(self.forward) != axis_index(self.up)
    }

    pub open spec fn spec_determinant(self) -> int {
        let r = self.right;
        let f = self.forward;
        let u = self.up;
        entry(r, 0) * (entry(f, 1) * entry(u, 2) - entry(f, 2) * entry(u, 1)) - entry(r, 1) * (
        entry(f, 0) * entry(u, 2) - entry(f, 2) * entry(u, 0)) + entry(r, 2) * (entry(f, 0)
            * entry(u, 1) - entry(f, 1) * entry(u, 0))
    }

    /// The first rule that the mounting breaks, by its message.
    pub open spec fn problem(self) -> Option<Seq<char>> {
        if !self.uses_each_axis() {
            Some("mount must use each sensor axis once"@)
        } else if self.spec_determinant() <= 0 {
            Some("mount must be a right-handed basis"@)
        } else {
            None
        }
    }

    /// The mounting matrix applied to an integer vector.
    pub open spec fn rotate(self, v: Vector) -> Vector {
        Vector {
            x: entry(self.right, 0) * v.x + entry(self.right, 1) * v.y + entry(self.right, 2) * v.z,
            y: entry(self.forward, 0) * v.x + entry(self.forward, 1) * v.y + entry(self.forward, 2)
                * v.z,
            z: entry(self.up, 0) * v.x + entry(self.up, 1) * v.y + entry(self.up, 2) * v.z,
        }
    }

    fn determinant(self) -> (r: i8)
        requires
            self.uses_each_axis(),
        ensures
            r == self.spec_determinant(),
    {
        let r = self.right;
        let f = self.forward;
        let u = self.up;
        let a: i8 = signed_minor(f, u, 1, 2);
        let b: i8 = signed_minor(f, u, 0, 2);
        let c: i8 = signed_minor(f, u, 0, 1);
        unit_times(cell(r, 0), a) - unit_times(cell(r, 1), b) + unit_times(cell(r, 2), c)
    }

    /// The mounting matrix: head axes by row, sensor axes by column.
    pub fn matrix(self) -> (r: [[i8; 3]; 3])
        requires
            self.uses_each_axis(),
        ensures
            forall|j: int| 0 <= j < 3 ==> #[trigger] r[0][j] == entry(self.right, j),
            forall|j: int| 0 <= j < 3 ==> #[trigger] r[1][j] == entry(self.forward, j),
            forall|j: int| 0 <= j < 3 ==> #[trigger] r[2][j] == entry(self.up, j),
    {
        [row(self.right), row(self.forward), row(self.up)]
    }

    /// Accepts a mounting that uses each sensor axis once, right-handed.
    pub fn validate(self) -> (r: Result<(), Error>)
        ensures
            r is Ok <==> self.problem() is None,
            r matches Err(e) ==> e.is_invalid(self.problem()->0),
    {
        if !(axis_in_range(self.right) && axis_in_range(self.forward) && axis_in_range(self.up))
            || axis_column(self.right) == axis_column(self.forward) || axis_column(self.right)
            == axis_column(self.up) || axis_column(self.forward) == axis_column(self.up) {
            return Err(Error::invalid("mount must use each sensor axis once"));
        }
        if self.determinant() <= 0 {
            return Err(Error::invalid("mount must be a right-handed basis"));
        }
        Ok(())
    }

    /// Re-expresses a sensor vector in head axes: x right, y forward, z up.
    pub fn vector(self, sensor: [Number; 3]) -> (r: Result<[Number; 3], Error>)
        ensures
            r is Ok <==> self.problem() is None && (forall|i: int|
                0 <= i < 3 ==> (#[trigger] sensor[i]).finite()),
            r matches Err(e) ==> e.is_invalid(
                if self.problem() is Some {
                    self.problem()->0
                } else {
                    "non-finite motion vector"@
                },
            ),
            r matches Ok(v) ==> {
                &&& v[0] == along(sensor, self.right)
                &&& v[1] == along(sensor, self.forward)
                &&& v[2] == along(sensor, self.up)
                &&& values(v) == self.rotate(values(sensor))
            },
    {
        self.validate()?;
        if !(sensor[0].is_finite() && sensor[1].is_finite() && sensor[2].is_finite()) {
            return Err(Error::invalid("non-finite motion vector"));
        }
        let v = [pick(&sensor, self.right), pick(&sensor, self.forward), pick(&sensor, self.up)];
        proof {
            lemma_row(self.right, values(sensor));
            lemma_row(self.forward, values(sensor));
            lemma_row(self.up, values(sensor));
        }
        Ok(v)
    }

    /// Reads three comma-separated signed axes, such as `-y,+x,+z`.
    pub fn parse(text: &str) -> (r: Result<Mounting, Error>)
        ensures
            match parsed(text@) {
                Ok(m) => r == Ok::<Mounting, Error>(m),
                Err(message) => r matches Err(e) && e.is_invalid(message),
            },
    {
        let chars = characters(text);
        let n: usize = chars.len();
        let a: usize = next_comma(&chars, 0);
        assert(text@.skip(0) =~= text@);
        if a == n {
            return Err(Error::invalid("mount expects three signed axes, e.g. -y,+x,+z"));
        }
        let b: usize = next_comma(&chars, a + 1);
        assert(text@.subrange(0, a as int) =~= text@.take(a as int));
        let ghost rest = text@.skip(a + 1);
        assert(rest.take(b - a - 1) =~= text@.subrange(a + 1, b as int));
        if b == n {
            proof {
                reveal_with_fuel(split_commas, 3);
            }
            return Err(Error::invalid("mount expects three signed axes, e.g. -y,+x,+z"));
        }
        let c: usize = next_comma(&chars, b + 1);
        let ghost last = text@.skip(b + 1);
        assert(rest.skip(b - a) =~= last);
        assert(last.take(c - b - 1) =~= text@.subrange(b + 1, c as int));
        proof {
            reveal_with_fuel(split_commas, 4);
        }
        let ghost parts = split_commas(text@);
        if c != n {
            assert(parts.len() > 3);
            return Err(Error::invalid("mount expects three signed axes, e.g. -y,+x,+z"));
        }
        assert(parts =~= seq![
            text@.subrange(0, a as int),
            text@.subrange(a + 1, b as int),
            text@.subrange(b + 1, c as int),
        ]);
        let right = parse_axis(text, &chars, 0, a)?;
        let forward = parse_axis(text, &chars, a + 1, b)?;
        let up = parse_axis(text, &chars, b + 1, c)?;
        let m = Mounting { right, forward, up };
        m.validate()?;
        Ok(m)
    }
}

/// The component of a sensor vector along a signed axis.
pub open spec fn along(sensor: [Number; 3], axis: i8) -> Number {
    if axis < 0 {
        sensor[axis_index(axis)].spec_negated()
    } else {
        sensor[axis_index(axis)]
    }
}

/// The integer values of three numbers.
pub open spec fn values(v: [Number; 3]) -> Vector {
    Vector { x: v[0].value(), y: v[1].value(), z: v[2].value() }
}

proof fn lemma_row(axis: i8, v: Vector)
    requires
        0 <= axis_index(axis) < 3,
    ensures
        entry(axis, 0) * v.x + entry(axis, 1) * v.y + entry(axis, 2) * v.z == entry(
            axis,
            axis_index(axis),
        ) * (if axis_index(axis) == 0 {
            v.x
        } else if axis_index(axis) == 1 {
            v.y
        } else {
            v.z
        }),
{
}

fn axis_in_range(axis: i8) -> (r: bool)
    ensures
        r == (0 <= axis_index(axis) < 3),
{
    (1 <= axis && axis <= 3) || (-3 <= axis && axis <= -1)
}

fn axis_column(axis: i8) -> (r: i8)
    requires
        0 <= axis_index(axis) < 3,
    ensures
        r == axis_index(axis),
{
    if axis < 0 {
        -axis - 1
    } else {
        axis - 1
    }
}

fn cell(axis: i8, column: i8) -> (r: i8)
    requires
        0 <= axis_index(axis) < 3,
    ensures
        r == entry(axis, column as int),
        -1 <= r <= 1,
{
    if column != axis_column(axis) {
        0
    } else if axis < 0 {
        -1
    } else {
        1
    }
}

fn row(axis: i8) -> (r: [i8; 3])
    requires
        0 <= axis_index(axis) < 3,
    ensures
        forall|j: int| 0 <= j < 3 ==> #[trigger] r[j] == entry(axis, j),
{
    [cell(axis, 0), cell(axis, 1), cell(axis, 2)]
}

fn unit_times(a: i8, b: i8) -> (r: i8)
    requires
        -1 <= a <= 1,
        -2 <= b <= 2,
    ensures
        r == a * b,
        -2 <= r <= 2,
{
    assert(-2 <= a * b <= 2) by (nonlinear_arith)
        requires
            -1 <= a <= 1,
            -2 <= b <= 2,
    ;
    a * b
}

fn signed_minor(f: i8, u: i8, p: i8, q: i8) -> (r: i8)
    requires
        0 <= axis_index(f) < 3,
        0 <= axis_index(u) < 3,
    ensures
        r == entry(f, p as int) * entry(u, q as int) - entry(f, q as int) * entry(u, p as int),
        -2 <= r <= 2,
{
    let fp: i8 = cell(f, p);
    let uq: i8 = cell(u, q);
    let fq: i8 = cell(f, q);
    let up: i8 = cell(u, p);
    assert(-1 <= fp * uq <= 1) by (nonlinear_arith)
        requires
            -1 <= fp <= 1,
            -1 <= uq <= 1,
    ;
    assert(-1 <= fq * up <= 1) by (nonlinear_arith)
        requires
            -1 <= fq <= 1,
            -1 <= up <= 1,
    ;
    fp * uq - fq * up
}

fn pick(sensor: &[Number; 3], axis: i8) -> (r: Number)
    requires
        0 <= axis_index(axis) < 3,
    ensures
        r == along(*sensor, axis),
        r.value() == entry(axis, axis_index(axis)) * sensor[axis_index(axis)].value(),
{
    let i: usize = axis_column(axis) as usize;
    if axis < 0 {
        sensor[i].negated()
    } else {
        sensor[i]
    }
}

pub open spec fn first_comma(s: Seq<char>) -> nat
    decreases s.len(),
{
    if s.len() == 0 || s[0] == ',' {
        0
    } else {
        1 + first_comma(s.skip(1))
    }
}

/// The pieces of `s` between commas.
pub open spec fn split_commas(s: Seq<char>) -> Seq<Seq<char>>
    decreases s.len(),
{
    let i = first_comma(s) as int;
    if i >= s.len() {
        seq![s]
    } else {
        seq![s.take(i)] + split_commas(s.skip(i + 1))
    }
}

/// The signed axis that a trimmed piece names, in either letter case.
pub open spec fn axis_named(s: Seq<char>) -> Option<i8> {
    let signed = s.len() > 0 && (s[0] == '-' || s[0] == '+');
    let name = if signed {
        s.skip(1)
    } else {
        s
    };
    let axis: i8 = if name.len() != 1 {
        0
    } else if name[0] == 'x' || name[0] == 'X' {
        1
    } else if name[0] == 'y' || name[0] == 'Y' {
        2
    } else if name[0] == 'z' || name[0] == 'Z' {
        3
    } else {
        0
    };
    if axis == 0 {
        None
    } else if s[0] == '-' {
        Some((-axis) as i8)
    } else {
        Some(axis)
    }
}

/// What `text` denotes as a mounting: the mounting, or the message that refuses it.
pub open spec fn parsed(text: Seq<char>) -> Result<Mounting, Seq<char>> {
    let parts = split_commas(text);
    if parts.len() != 3 {
        Err("mount expects three signed axes, e.g. -y,+x,+z"@)
    } else if axis_named(trimmed(parts[0])) is None {
        Err("invalid axis "@ + trimmed(parts[0]))
    } else if axis_named(trimmed(parts[1])) is None {
        Err("invalid axis "@ + trimmed(parts[1]))
    } else if axis_named(trimmed(parts[2])) is None {
        Err("invalid axis "@ + trimmed(parts[2]))
    } else {
        let m = Mounting {
            right: axis_named(trimmed(parts[0]))->0,
            forward: axis_named(trimmed(parts[1]))->0,
            up: axis_named(trimmed(parts[2]))->0,
        };
        if m.problem() is Some {
            Err(m.problem()->0)
        } else {
            Ok(m)
        }
    }
}

fn next_comma(chars: &Vec<char>, from: usize) -> (r: usize)
    requires
        from <= chars.len(),
    ensures
        from <= r <= chars.len(),
        r - from == first_comma(chars@.skip(from as int)),
        r < chars.len() ==> chars@[r as int] == ',',
{
    let mut i: usize = from;
    while i < chars.len() && chars[i] != ','
        invariant
            from <= i <= chars.len(),
            first_comma(chars@.skip(from as int)) == (i - from) + first_comma(
                chars@.skip(i as int),
            ),
        decreases chars.len() - i,
    {
        assert(chars@.skip(i as int).skip(1) =~= chars@.skip(i + 1));
        i = i + 1;
    }
    i
}

fn parse_axis(text: &str, chars: &Vec<char>, from: usize, to: usize) -> (r: Result<i8, Error>)
    requires
        chars@ == text@,
        from <= to <= chars.len(),
    ensures
        match axis_named(trimmed(text@.subrange(from as int, to as int))) {
            Some(a) => r == Ok::<i8, Error>(a),
            None => r matches Err(e) && e.is_invalid(
                "invalid axis "@ + trimmed(text@.subrange(from as int, to as int)),
            ),
        },
{
    let (a, b) = trim_range(chars, from, to);
    let ghost piece = trimmed(text@.subrange(from as int, to as int));
    assert(piece.len() == b - a);
    assert(forall|i: int| 0 <= i < b - a ==> #[trigger] piece[i] == chars@[a + i]);
    let negative = a < b && chars[a] == '-';
    let signed = a < b && (chars[a] == '-' || chars[a] == '+');
    let start: usize = if signed {
        a + 1
    } else {
        a
    };
    if b - start == 1 {
        let c = chars[start];
        assert(c == piece[start - a]);
        let axis: i8 = if c == 'x' || c == 'X' {
            1
        } else if c == 'y' || c == 'Y' {
            2
        } else if c == 'z' || c == 'Z' {
            3
        } else {
            0
        };
        if axis != 0 {
            return if negative {
                Ok(-axis)
            } else {
                Ok(axis)
            };
        }
    }
    Err(Error::Invalid(joined("invalid axis ", text.substring_char(a, b))))
}

/// The component of `v` along a signed axis.
pub open spec fn component(v: Vector, axis: i8) -> int {
    let raw = if axis_index(axis) == 0 {
        v.x
    } else if axis_index(axis) == 1 {
        v.y
    } else {
        v.z
    };
    if axis < 0 {
        -raw
    } else {
        raw
    }
}

/// A valid mounting is a proper rotation: it keeps lengths and angles, and it
/// keeps the handedness of cross products.
pub proof fn mounting_is_rotation(m: Mounting, a: Vector, b: Vector)
    requires
        m.problem() is None,
    ensures
        dot(m.rotate(a), m.rotate(b)) == dot(a, b),
        cross(m.rotate(a), m.rotate(b)) == m.rotate(cross(a, b)),
{
    lemma_component(m, a);
    lemma_component(m, b);
    lemma_component(m, cross(a, b));
    lemma_product(a, b, m.right, m.right);
    lemma_product(a, b, m.right, m.forward);
    lemma_product(a, b, m.right, m.up);
    lemma_product(a, b, m.forward, m.right);
    lemma_product(a, b, m.forward, m.forward);
    lemma_product(a, b, m.forward, m.up);
    lemma_product(a, b, m.up, m.right);
    lemma_product(a, b, m.up, m.forward);
    lemma_product(a, b, m.up, m.up);
    lemma_handed(m);
}

/// A right-handed mounting has an even number of reversed axes in cyclic order,
/// and an odd number otherwise.
proof fn lemma_handed(m: Mounting)
    requires
        m.problem() is None,
    ensures
        ((m.right < 0) == ((m.forward < 0) == (m.up < 0))) != ((axis_index(m.forward) - axis_index(
            m.right,
        )) % 3 == 1),
{
    let r = entry(m.right, axis_index(m.right));
    let f = entry(m.forward, axis_index(m.forward));
    let u = entry(m.up, axis_index(m.up));
    assert(r == 1 || r == -1);
    assert(f == 1 || f == -1);
    assert(u == 1 || u == -1);
    let i = axis_index(m.right);
    let j = axis_index(m.forward);
    let k = axis_index(m.up);
    if i == 0 && j == 1 {
        assert(m.spec_determinant() == r * (f * u));
    } else if i == 0 {
        assert(m.spec_determinant() == r * (-(f * u)));
    } else if i == 1 && j == 0 {
        assert(m.spec_determinant() == -(r * (f * u)));
    } else if i == 1 {
        assert(m.spec_determinant() == -(r * (-(f * u))));
    } else if j == 0 {
        assert(m.spec_determinant() == r * (f * u));
    } else {
        assert(m.spec_determinant() == r * (-(f * u)));
    }
}

proof fn lemma_component(m: Mounting, v: Vector)
    requires
        m.uses_each_axis(),
    ensures
        m.rotate(v) == (Vector {
            x: component(v, m.right),
            y: component(v, m.forward),
            z: component(v, m.up),
        }),
{
    lemma_row_component(m.right, v);
    lemma_row_component(m.forward, v);
    lemma_row_component(m.up, v);
}

proof fn lemma_row_component(axis: i8, v: Vector)
    requires
        0 <= axis_index(axis) < 3,
    ensures
        entry(axis, 0) * v.x + entry(axis, 1) * v.y + entry(axis, 2) * v.z == component(v, axis),
{
    let e = entry(axis, axis_index(axis));
    assert(e == 1 || e == -1);
    assert(1 * v.x == v.x && 1 * v.y == v.y && 1 * v.z == v.z);
    assert((-1) * v.x == -v.x && (-1) * v.y == -v.y && (-1) * v.z == -v.z);
    assert(0 * v.x == 0 && 0 * v.y == 0 && 0 * v.z == 0);
}

proof fn lemma_product(a: Vector, b: Vector, p: i8, q: i8)
    requires
        0 <= axis_index(p) < 3,
        0 <= axis_index(q) < 3,
    ensures
        component(a, p) * component(b, q) == {
            let u = if axis_index(p) == 0 {
                a.x
            } else if axis_index(p) == 1 {
                a.y
            } else {
                a.z
            };
            let v = if axis_index(q) == 0 {
                b.x
            } else if axis_index(q) == 1 {
                b.y
            } else {
                b.z
            };
            if (p < 0) == (q < 0) {
                u * v
            } else {
                -(u * v)
            }
        },
{
    let x = component(a, p);
    let y = component(b, q);
    assert((-x) * y == -(x * y)) by (nonlinear_arith);
    assert(x * (-y) == -(x * y)) by (nonlinear_arith);
    assert((-x) * (-y) == x * y) by (nonlinear_arith);
}

/// The unit vector along a signed sensor axis.
pub open spec fn unit_along(axis: i8) -> Vector {
    let s: int = if axis < 0 {
        -1
    } else {
        1
    };
    Vector {
        x: if axis == 1 || axis == -1 {
            s
        } else {
            0
        },
        y: if axis == 2 || axis == -2 {
            s
        } else {
            0
        },
        z: if axis == 3 || axis == -3 {
            s
        } else {
            0
        },
    }
}

/// The sensor axis that a mounting names for right becomes the head's x axis, the
/// one for forward its y axis, and the one for up its z axis.
pub proof fn mountings_turn_their_axes_to_the_heads(m: Mounting)
    requires
        m.uses_each_axis(),
    ensures
        m.rotate(unit_along(m.right)) == (Vector { x: 1, y: 0, z: 0 }),
        m.rotate(unit_along(m.forward)) == (Vector { x: 0, y: 1, z: 0 }),
        m.rotate(unit_along(m.up)) == (Vector { x: 0, y: 0, z: 1 }),
{
    lemma_component(m, unit_along(m.right));
    lemma_component(m, unit_along(m.forward));
    lemma_component(m, unit_along(m.up));
}

/// A mounting uses each of the three sensor axes once, in either direction, so
/// that right, forward and up are right-handed; any other is refused.
pub proof fn mountings_are_right_handed_bases(m: Mounting)
    ensures
        m.problem() is None <==> {
            &&& -3 <= m.right <= 3 && m.right != 0
            &&& -3 <= m.forward <= 3 && m.forward != 0
            &&& -3 <= m.up <= 3 && m.up != 0
            &&& unit_along(m.up) == cross(unit_along(m.right), unit_along(m.forward))
        },
{
    let r = unit_along(m.right);
    let f = unit_along(m.forward);
    lemma_unit_product(r.y, f.z);
    lemma_unit_product(r.z, f.y);
    lemma_unit_product(r.z, f.x);
    lemma_unit_product(r.x, f.z);
    lemma_unit_product(r.x, f.y);
    lemma_unit_product(r.y, f.x);
    lemma_minor(m, 1, 2);
    lemma_minor(m, 0, 2);
    lemma_minor(m, 0, 1);
}

proof fn lemma_unit_product(a: int, b: int)
    requires
        -1 <= a <= 1,
    ensures
        a * b == (if a == 0 {
            0
        } else if a == 1 {
            b
        } else {
            -b
        }),
{
    assert(0 * b == 0 && 1 * b == b && (-1) * b == -b) by (nonlinear_arith);
    assert(a == 0 || a == 1 || a == -1);
}

proof fn lemma_minor(m: Mounting, p: int, q: int)
    ensures
        ({
            let fp = entry(m.forward, p);
            let fq = entry(m.forward, q);
            let up = entry(m.up, p);
            let uq = entry(m.up, q);
            let minor = fp * uq - fq * up;
            &&& minor == (if fp == 0 {
                0
            } else if fp == 1 {
                uq
            } else {
                -uq
            }) - (if fq == 0 {
                0
            } else if fq == 1 {
                up
            } else {
                -up
            })
            &&& forall|k: int|
                #[trigger] entry(m.right, k) * minor == (if entry(m.right, k) == 0 {
                    0
                } else if entry(m.right, k) == 1 {
                    minor
                } else {
                    -minor
                })
        }),
{
    let fp = entry(m.forward, p);
    let fq = entry(m.forward, q);
    let up = entry(m.up, p);
    let uq = entry(m.up, q);
    let minor = fp * uq - fq * up;
    lemma_unit_product(fp, uq);
    lemma_unit_product(fq, up);
    assert forall|k: int| #[trigger] entry(m.right, k) * minor == (if entry(m.right, k) == 0 {
        0
    } else if entry(m.right, k) == 1 {
        minor
    } else {
        -minor
    }) by {
        lemma_unit_product(entry(m.right, k), minor);
    }
}

/// A vector is turned component by component: the head's x is the component along
/// the axis named for right, with its sign, and so on.
pub proof fn vectors_are_turned_by_axes(m: Mounting, sensor: [Number; 3], k: int)
    requires
        m.problem() is None,
        0 <= k < 3,
    ensures
        m.right == k + 1 ==> along(sensor, m.right) == sensor[k],
        m.right == -k - 1 ==> along(sensor, m.right) == sensor[k].spec_negated(),
        m.forward == k + 1 ==> along(sensor, m.forward) == sensor[k],
        m.forward == -k - 1 ==> along(sensor, m.forward) == sensor[k].spec_negated(),
        m.up == k + 1 ==> along(sensor, m.up) == sensor[k],
        m.up == -k - 1 ==> along(sensor, m.up) == sensor[k].spec_negated(),
        sensor[k].spec_negated().value() == -sensor[k].value(),
{
}

/// An axis as a person writes it.
pub open spec fn axis_text(axis: i8, plus: bool, upper: bool) -> Seq<char> {
    let letter = if axis == 1 || axis == -1 {
        if upper {
            'X'
        } else {
            'x'
        }
    } else if axis == 2 || axis == -2 {
        if upper {
            'Y'
        } else {
            'y'
        }
    } else {
        if upper {
            'Z'
        } else {
            'z'
        }
    };
    if axis < 0 {
        seq!['-', letter]
    } else if plus {
        seq!['+', letter]
    } else {
        seq![letter]
    }
}

/// A mounting as a person writes it: its axes with commas between, and spaces
/// around each.
pub open spec fn mounting_text(m: Mounting, plus: bool, upper: bool, space: Seq<char>) -> Seq<
    char,
> {
    (space + axis_text(m.right, plus, upper) + space) + seq![','] + ((space + axis_text(
        m.forward,
        plus,
        upper,
    ) + space) + seq![','] + (space + axis_text(m.up, plus, upper) + space))
}

proof fn lemma_axis_text(axis: i8, plus: bool, upper: bool)
    requires
        -3 <= axis <= 3,
        axis != 0,
    ensures
        axis_named(axis_text(axis, plus, upper)) == Some(axis),
        axis_text(axis, plus, upper).len() > 0,
        !crate::text::is_white(axis_text(axis, plus, upper)[0]),
        !crate::text::is_white(axis_text(axis, plus, upper).last()),
        forall|i: int|
            0 <= i < axis_text(axis, plus, upper).len() ==> #[trigger] axis_text(
                axis,
                plus,
                upper,
            )[i] != ',',
{
    let t = axis_text(axis, plus, upper);
    if axis < 0 || plus {
        assert(t.skip(1) =~= seq![t[1]]);
    }
}

proof fn lemma_first_comma(s: Seq<char>, rest: Seq<char>)
    requires
        forall|i: int| 0 <= i < s.len() ==> #[trigger] s[i] != ',',
    ensures
        first_comma(s + seq![','] + rest) == s.len(),
        first_comma(s) == s.len(),
    decreases s.len(),
{
    let t = s + seq![','] + rest;
    if s.len() > 0 {
        assert(t[0] == s[0]);
        assert(t.skip(1) =~= s.skip(1) + seq![','] + rest);
        assert forall|i: int| 0 <= i < s.skip(1).len() implies #[trigger] s.skip(1)[i] != ',' by {
            assert(s.skip(1)[i] == s[i + 1]);
        }
        lemma_first_comma(s.skip(1), rest);
    } else {
        assert(t[0] == ',');
    }
}

proof fn lemma_split(s: Seq<char>, rest: Seq<char>)
    requires
        forall|i: int| 0 <= i < s.len() ==> #[trigger] s[i] != ',',
    ensures
        split_commas(s + seq![','] + rest) == seq![s] + split_commas(rest),
        split_commas(s) == seq![s],
{
    lemma_first_comma(s, rest);
    let t = s + seq![','] + rest;
    assert(t.take(s.len() as int) =~= s);
    assert(t.skip(s.len() as int + 1) =~= rest);
}

proof fn lemma_piece(axis: i8, plus: bool, upper: bool, space: Seq<char>)
    requires
        -3 <= axis <= 3,
        axis != 0,
        crate::text::is_blank(space),
    ensures
        ({
            let piece = space + axis_text(axis, plus, upper) + space;
            &&& axis_named(trimmed(piece)) == Some(axis)
            &&& forall|i: int| 0 <= i < piece.len() ==> #[trigger] piece[i] != ','
        }),
{
    lemma_axis_text(axis, plus, upper);
    let name = axis_text(axis, plus, upper);
    crate::text::whitespace_around_text_is_trimmed(space, name, space);
    let piece = space + name + space;
    assert forall|i: int| 0 <= i < piece.len() implies #[trigger] piece[i] != ',' by {
        if i < space.len() {
            assert(piece[i] == space[i]);
            assert(crate::text::is_white(space[i]));
        } else if i < space.len() + name.len() {
            assert(piece[i] == name[i - space.len()]);
        } else {
            assert(piece[i] == space[i - space.len() - name.len()]);
            assert(crate::text::is_white(space[i - space.len() - name.len()]));
        }
    }
}

/// A mounting that a person writes, with or without plus signs, in either letter
/// case and with any whitespace around its axes, is read as it was meant: right,
/// forward, up.
pub proof fn mountings_read_back(m: Mounting, plus: bool, upper: bool, space: Seq<char>)
    requires
        m.problem() is None,
        crate::text::is_blank(space),
    ensures
        parsed(mounting_text(m, plus, upper, space)) == Ok::<Mounting, Seq<char>>(m),
{
    mountings_are_right_handed_bases(m);
    let r = space + axis_text(m.right, plus, upper) + space;
    let f = space + axis_text(m.forward, plus, upper) + space;
    let u = space + axis_text(m.up, plus, upper) + space;
    lemma_piece(m.right, plus, upper, space);
    lemma_piece(m.forward, plus, upper, space);
    lemma_piece(m.up, plus, upper, space);
    lemma_split(r, f + seq![','] + u);
    lemma_split(f, u);
    lemma_split(u, u);
    let parts = split_commas(mounting_text(m, plus, upper, space));
    assert(parts =~= seq![r, f, u]);
}

} // verus!

//! The shape-descriptor grammar: `Sphere(r)` or `Box(x,y,z)`, surrounded
//! by optional whitespace, with an optional `Sensor` marker token anywhere
//! in the string (case-insensitive) toggling sensor mode. The numeric
//! parts carry the engine's continuous scalars and are held as IEEE-754
//! bit patterns.

use vstd::prelude::*;
use crate::engine::parse_real_of;

verus! {

/// A supported collider shape; extents are IEEE-754 bit patterns.
#[derive(Clone, Copy, Debug, PartialEq, Eq, Structural)]
pub enum ColliderShape {
    Sphere { radius: u32 },
    Cuboid { x: u32, y: u32, z: u32 },
}

/// Errors during shape parsing: the descriptor does not match the
/// grammar, or a numeric part does not spell a scalar.
#[derive(Clone, Copy, Debug, PartialEq, Eq, Structural)]
pub enum ShapeParseError {
    InvalidFormat,
    ParseFloat,
}

/// Whitespace stripped around the descriptor and around each extent.
pub open spec fn spec_is_ws(c: char) -> bool {
    c == ' ' || c == '\t' || c == '\n' || c == '\r'
}

/// The text with leading whitespace removed.
pub open spec fn spec_trim_front(s: Seq<char>) -> Seq<char>
    decreases s.len(),
{
    if s.len() > 0 && spec_is_ws(s[0]) {
        spec_trim_front(s.drop_first())
    } else {
        s
    }
}

/// The text with trailing whitespace removed.
pub open spec fn spec_trim_back(s: Seq<char>) -> Seq<char>
    decreases s.len(),
{
    if s.len() > 0 && spec_is_ws(s.last()) {
        spec_trim_back(s.drop_last())
    } else {
        s
    }
}

/// The text with whitespace removed on both sides.
pub open spec fn spec_trim(s: Seq<char>) -> Seq<char> {
    spec_trim_back(spec_trim_front(s))
}

/// The positions of every comma in the text, in order.
pub open spec fn spec_commas(s: Seq<char>) -> Seq<int>
    decreases s.len(),
{
    if s.len() == 0 {
        Seq::empty()
    } else if s.last() == ',' {
        spec_commas(s.drop_last()).push(s.len() - 1)
    } else {
        spec_commas(s.drop_last())
    }
}

/// The parse of one cuboid extent: the part is trimmed, then must spell
/// a scalar.
pub open spec fn spec_extent_of(part: Seq<char>) -> Option<u32> {
    parse_real_of(spec_trim(part))
}

/// The parse of a whole descriptor, after trimming: a `Sphere(...)` form
/// whose inner text must spell a scalar; otherwise a `Box(..,..,..)`
/// form with exactly three comma-separated extents; otherwise the format
/// is invalid. A sphere or box form whose numeric part does not spell a
/// scalar is a float error.
pub open spec fn spec_parse_shape(t: Seq<char>) -> Result<ColliderShape, ShapeParseError> {
    if t.len() >= 8 && t.subrange(0, 7) == "Sphere("@ && t.last() == ')' {
        match parse_real_of(t.subrange(7, t.len() - 1)) {
            Some(r) => Ok(ColliderShape::Sphere { radius: r }),
            None => Err(ShapeParseError::ParseFloat),
        }
    } else if t.len() >= 5 && t.subrange(0, 4) == "Box("@ && t.last() == ')' {
        let v = t.subrange(4, t.len() - 1);
        let cs = spec_commas(v);
        if cs.len() == 2 {
            let p0 = v.subrange(0, cs[0]);
            let p1 = v.subrange(cs[0] + 1, cs[1]);
            let p2 = v.subrange(cs[1] + 1, v.len() as int);
            match (spec_extent_of(p0), spec_extent_of(p1), spec_extent_of(p2)) {
                (Some(x), Some(y), Some(z)) => Ok(ColliderShape::Cuboid { x, y, z }),
                _ => Err(ShapeParseError::ParseFloat),
            }
        } else {
            Err(ShapeParseError::InvalidFormat)
        }
    } else {
        Err(ShapeParseError::InvalidFormat)
    }
}

/// The ASCII-lowered form of a character.
pub open spec fn spec_lower(c: char) -> char {
    if 'A' <= c <= 'Z' {
        ((c as u8) + 32) as char
    } else {
        c
    }
}

/// The descriptor carries the sensor marker: some window of the text,
/// lowered, reads `sensor`.
pub open spec fn spec_has_sensor_marker(s: Seq<char>) -> bool {
    exists|p: int|
        0 <= p <= s.len() - 6 && (#[trigger] s.subrange(p, p + 6)).map_values(
            |c: char| spec_lower(c),
        ) == "sensor"@
}


/// Bounds of the trimmed window of a text: the window that
/// [`spec_trim`] leaves.
fn trim_bounds(s: &str) -> (r: (usize, usize))
    ensures
        r.0 <= r.1 <= s@.len(),
        spec_trim(s@) == s@.subrange(r.0 as int, r.1 as int),
{
    let n = s.unicode_len();
    let mut a: usize = 0;
    proof {
        assert(s@.skip(0) =~= s@);
    }
    while a < n && is_ws_char(s.get_char(a))
        invariant
            0 <= a <= n,
            n == s@.len(),
            spec_trim_front(s@) == spec_trim_front(s@.skip(a as int)),
        decreases n - a,
    {
        proof {
            assert(s@.skip(a as int)[0] == s@[a as int]);
            assert(s@.skip(a as int).drop_first() =~= s@.skip(a as int + 1));
        }
        a = a + 1;
    }
    proof {
        if a == n {
            assert(s@.skip(a as int) =~= Seq::<char>::empty());
        }
        assert(spec_trim_front(s@) == s@.skip(a as int));
    }
    let mut b: usize = n;
    proof {
        assert(s@.skip(a as int).take(n as int - a as int) =~= s@.skip(a as int));
    }
    while b > a && is_ws_char(s.get_char(b - 1))
        invariant
            a <= b <= n,
            n == s@.len(),
            spec_trim_front(s@) == s@.skip(a as int),
            spec_trim_back(s@.skip(a as int)) == spec_trim_back(
                s@.skip(a as int).take(b as int - a as int),
            ),
        decreases b,
    {
        proof {
            let w = s@.skip(a as int).take(b as int - a as int);
            assert(w.last() == s@[b as int - 1]);
            assert(w.drop_last() =~= s@.skip(a as int).take(b as int - 1 - a as int));
        }
        b = b - 1;
    }
    proof {
        let w = s@.skip(a as int).take(b as int - a as int);
        if b == a {
            assert(w =~= Seq::<char>::empty());
        } else {
            assert(w.last() == s@[b as int - 1]);
        }
        assert(spec_trim_back(s@.skip(a as int)) == w);
        assert(w =~= s@.subrange(a as int, b as int));
    }
    (a, b)
}

/// Whether a character is whitespace for this grammar.
fn is_ws_char(c: char) -> (r: bool)
    ensures
        r == spec_is_ws(c),
{
    c == ' ' || c == '\t' || c == '\n' || c == '\r'
}

/// The ASCII-lowered form of a character.
fn lower_char(c: char) -> (r: char)
    ensures
        r == spec_lower(c),
{
    if 'A' <= c && c <= 'Z' {
        (((c as u8) + 32) as char)
    } else {
        c
    }
}

impl ColliderShape {
    /// Parse a shape descriptor: the text is trimmed, then must read
    /// `Sphere(r)` or `Box(x,y,z)`; the extents of a box are trimmed
    /// individually. Malformed text is an invalid format; a numeric part
    /// that does not spell a scalar is a float error.
    pub fn from_str(s: &str) -> (r: Result<ColliderShape, ShapeParseError>)
        ensures
            r == spec_parse_shape(spec_trim(s@)),
    {
        let n = s.unicode_len();
        let (a, b) = trim_bounds(s);
        let ghost t = spec_trim(s@);
        proof {
            assert(s@.len() <= usize::MAX);
        }
        if b - a >= 8 && is_prefix_sphere(s, a) && s.get_char(b - 1) == ')' {
            proof {
                assert(t.subrange(0, 7) =~= "Sphere("@);
                assert(t.last() == s@[b as int - 1]);
            }
            let inner = s.substring_char(a + 7, b - 1);
            proof {
                assert(inner@ =~= t.subrange(7, t.len() - 1));
            }
            match crate::engine::parse_real_bits(inner) {
                Some(bits) => Ok(ColliderShape::Sphere { radius: bits }),
                None => Err(ShapeParseError::ParseFloat),
            }
        } else if b - a >= 5 && is_prefix_box(s, a) && s.get_char(b - 1) == ')' {
            proof {
                assert(t.subrange(0, 4) =~= "Box("@);
                assert(t.last() == s@[b as int - 1]);
                if t.len() >= 8 && t.subrange(0, 7) == "Sphere("@ {
                    reveal_strlit("Sphere(");
                    reveal_strlit("Box(");
                    assert(t.subrange(0, 7)[0] == t.subrange(0, 4)[0]);
                    assert(false);
                }
            }
            let ghost v = t.subrange(4, t.len() - 1);
            let commas = comma_positions(s, a + 4, b - 1);
            proof {
                assert(s@.subrange(a as int + 4, b as int - 1) =~= v);
            }
            if commas.len() == 2 {
                let c0 = commas[0];
                let c1 = commas[1];
                let e0 = parse_extent(s, a + 4, c0);
                let e1 = parse_extent(s, c0 + 1, c1);
                let e2 = parse_extent(s, c1 + 1, b - 1);
                proof {
                    let cs = spec_commas(v);
                    assert(cs[0] == c0 - (a + 4) && cs[1] == c1 - (a + 4));
                    assert(s@.subrange(a as int + 4, c0 as int) =~= v.subrange(0, cs[0]));
                    assert(s@.subrange(c0 as int + 1, c1 as int) =~= v.subrange(cs[0] + 1, cs[1]));
                    assert(s@.subrange(c1 as int + 1, b as int - 1) =~= v.subrange(
                        cs[1] + 1,
                        v.len() as int,
                    ));
                }
                match (e0, e1, e2) {
                    (Some(x), Some(y), Some(z)) => Ok(ColliderShape::Cuboid { x, y, z }),
                    _ => Err(ShapeParseError::ParseFloat),
                }
            } else {
                Err(ShapeParseError::InvalidFormat)
            }
        } else {
            proof {
                reveal_strlit("Sphere(");
                reveal_strlit("Box(");
                if t.len() >= 8 && t.subrange(0, 7) == "Sphere("@ && t.last() == ')' {
                    assert forall|i: int| 0 <= i < 7 implies t[i] == "Sphere("@[i] by {
                        assert(t.subrange(0, 7)[i] == t[i]);
                    }
                    assert(s@[b as int - 1] == t.last());
                    assert(false);
                }
                if t.len() >= 5 && t.subrange(0, 4) == "Box("@ && t.last() == ')' {
                    assert forall|i: int| 0 <= i < 4 implies t[i] == "Box("@[i] by {
                        assert(t.subrange(0, 4)[i] == t[i]);
                    }
                    assert(s@[b as int - 1] == t.last());
                    assert(false);
                }
            }
            Err(ShapeParseError::InvalidFormat)
        }
    }
}

/// Whether the seven characters at the window start read `Sphere(`.
fn is_prefix_sphere(s: &str, a: usize) -> (r: bool)
    requires
        a + 7 <= s@.len(),
        s@.len() <= usize::MAX,
    ensures
        r == (s@.subrange(a as int, a as int + 7) =~= "Sphere("@),
{
    proof {
        reveal_strlit("Sphere(");
    }
    let r = s.get_char(a) == 'S' && s.get_char(a + 1) == 'p' && s.get_char(a + 2) == 'h'
        && s.get_char(a + 3) == 'e' && s.get_char(a + 4) == 'r' && s.get_char(a + 5) == 'e'
        && s.get_char(a + 6) == '(';
    proof {
        let w = s@.subrange(a as int, a as int + 7);
        if r {
            assert(w =~= "Sphere("@);
        } else {
            if w =~= "Sphere("@ {
                assert(w[0] == s@[a as int] && w[1] == s@[a as int + 1] && w[2] == s@[a as int + 2]
                    && w[3] == s@[a as int + 3] && w[4] == s@[a as int + 4] && w[5] == s@[
                    a as int + 5
                ] && w[6] == s@[a as int + 6]);
                assert(w[0] == 'S' && w[1] == 'p' && w[2] == 'h' && w[3] == 'e' && w[4] == 'r'
                    && w[5] == 'e' && w[6] == '(');
                assert(false);
            }
        }
    }
    r
}

/// Whether the four characters at the window start read `Box(`.
fn is_prefix_box(s: &str, a: usize) -> (r: bool)
    requires
        a + 4 <= s@.len(),
        s@.len() <= usize::MAX,
    ensures
        r == (s@.subrange(a as int, a as int + 4) =~= "Box("@),
{
    proof {
        reveal_strlit("Box(");
    }
    let r = s.get_char(a) == 'B' && s.get_char(a + 1) == 'o' && s.get_char(a + 2) == 'x'
        && s.get_char(a + 3) == '(';
    proof {
        let w = s@.subrange(a as int, a as int + 4);
        if r {
            assert(w =~= "Box("@);
        } else {
            if w =~= "Box("@ {
                assert(w[0] == s@[a as int] && w[1] == s@[a as int + 1] && w[2] == s@[a as int + 2]
                    && w[3] == s@[a as int + 3]);
                assert(w[0] == 'B' && w[1] == 'o' && w[2] == 'x' && w[3] == '(');
                assert(false);
            }
        }
    }
    r
}

/// The positions of every comma between two character positions, as
/// absolute positions in the text, in order.
fn comma_positions(s: &str, from: usize, to: usize) -> (r: Vec<usize>)
    requires
        from <= to <= s@.len(),
    ensures
        r@.map_values(|u: usize| u as int - from as int) == spec_commas(
            s@.subrange(from as int, to as int),
        ),
        forall|k: int| 0 <= k < r@.len() ==> from <= #[trigger] r@[k] < to,
        forall|k1: int, k2: int| 0 <= k1 < k2 < r@.len() ==> r@[k1] < r@[k2],
{
    let ghost v = s@.subrange(from as int, to as int);
    let mut r: Vec<usize> = Vec::new();
    let mut i: usize = from;
    while i < to
        invariant
            from <= i <= to <= s@.len(),
            v == s@.subrange(from as int, to as int),
            r@.map_values(|u: usize| u as int - from as int) == spec_commas(
                v.take(i as int - from as int),
            ),
            forall|k: int| 0 <= k < r@.len() ==> from <= #[trigger] r@[k] < i,
            forall|k1: int, k2: int| 0 <= k1 < k2 < r@.len() ==> r@[k1] < r@[k2],
        decreases to - i,
    {
        proof {
            let w = v.take(i as int + 1 - from as int);
            assert(w.drop_last() =~= v.take(i as int - from as int));
            assert(w.last() == s@[i as int]);
        }
        if s.get_char(i) == ',' {
            r.push(i);
            proof {
                assert(r@.map_values(|u: usize| u as int - from as int) =~= spec_commas(
                    v.take(i as int + 1 - from as int),
                ));
            }
        } else {
            proof {
                assert(r@.map_values(|u: usize| u as int - from as int) =~= spec_commas(
                    v.take(i as int + 1 - from as int),
                ));
            }
        }
        i = i + 1;
    }
    proof {
        assert(v.take(to as int - from as int) =~= v);
    }
    r
}

/// Parse one cuboid extent between two character positions: the part is
/// trimmed, then must spell a scalar.
fn parse_extent(s: &str, from: usize, to: usize) -> (r: Option<u32>)
    requires
        from <= to <= s@.len(),
    ensures
        r == spec_extent_of(s@.subrange(from as int, to as int)),
{
    let part = s.substring_char(from, to);
    let (ta, tb) = trim_bounds(part);
    let inner = part.substring_char(ta, tb);
    proof {
        assert(inner@ =~= spec_trim(part@));
    }
    crate::engine::parse_real_bits(inner)
}

/// Whether the descriptor carries the sensor marker token, checked
/// case-insensitively.
pub fn is_sensor_string(shape: &str) -> (r: bool)
    ensures
        r == spec_has_sensor_marker(shape@),
{
    proof {
        reveal_strlit("sensor");
    }
    let n = shape.unicode_len();
    if n < 6 {
        return false;
    }
    let mut p: usize = 0;
    while p <= n - 6
        invariant
            n == shape@.len(),
            6 <= n,
            0 <= p <= n - 6 + 1,
            forall|q: int|
                0 <= q < p ==> (#[trigger] shape@.subrange(q, q + 6)).map_values(
                    |c: char| spec_lower(c),
                ) != "sensor"@,
        decreases n - p,
    {
        let m = lower_char(shape.get_char(p)) == 's' && lower_char(shape.get_char(p + 1)) == 'e'
            && lower_char(shape.get_char(p + 2)) == 'n' && lower_char(shape.get_char(p + 3)) == 's'
            && lower_char(shape.get_char(p + 4)) == 'o' && lower_char(shape.get_char(p + 5)) == 'r';
        proof {
            reveal_strlit("sensor");
            let w = shape@.subrange(p as int, p as int + 6).map_values(|c: char| spec_lower(c));
            if m {
                assert(w =~= "sensor"@);
            } else {
                if w =~= "sensor"@ {
                    assert(w[0] == spec_lower(shape@[p as int]) && w[1] == spec_lower(
                        shape@[p as int + 1],
                    ) && w[2] == spec_lower(shape@[p as int + 2]) && w[3] == spec_lower(
                        shape@[p as int + 3],
                    ) && w[4] == spec_lower(shape@[p as int + 4]) && w[5] == spec_lower(
                        shape@[p as int + 5],
                    ));
                    assert(w[0] == 's' && w[1] == 'e' && w[2] == 'n' && w[3] == 's' && w[4] == 'o'
                        && w[5] == 'r');
                    assert(false);
                }
            }
        }
        if m {
            return true;
        }
        p = p + 1;
    }
    proof {
        if spec_has_sensor_marker(shape@) {
            let q = choose|q: int|
                0 <= q <= shape@.len() - 6 && (#[trigger] shape@.subrange(q, q + 6)).map_values(
                    |c: char| spec_lower(c),
                ) == "sensor"@;
        }
    }
    false
}

} // verus!

//! Chunk coordinates: a validated pair on the chunk grid, and the canonical
//! object name a chunk is stored under.

use vstd::prelude::*;
use vstd::string::StringExecFns;

use crate::CHUNKS_IN_DIRECTION;

verus! {

/// The decimal digit character for a value below ten.
pub open spec fn spec_digit_char(d: int) -> char {
    if d == 0 {
        '0'
    } else if d == 1 {
        '1'
    } else if d == 2 {
        '2'
    } else if d == 3 {
        '3'
    } else if d == 4 {
        '4'
    } else if d == 5 {
        '5'
    } else if d == 6 {
        '6'
    } else if d == 7 {
        '7'
    } else if d == 8 {
        '8'
    } else {
        '9'
    }
}

/// The decimal digits of a non-negative number, most significant first.
pub open spec fn spec_decimal_digits(n: int) -> Seq<char>
    recommends
        n >= 0,
    decreases n,
{
    if n <= 9 {
        seq![spec_digit_char(n)]
    } else {
        spec_decimal_digits(n / 10).push(spec_digit_char(n % 10))
    }
}

/// The decimal rendering of a number, with a leading minus sign when
/// negative.
pub open spec fn spec_decimal(n: int) -> Seq<char> {
    if n < 0 {
        seq!['-'] + spec_decimal_digits(-n)
    } else {
        spec_decimal_digits(n)
    }
}

/// The canonical object name of the chunk at `(x, y)`.
pub open spec fn spec_object_name(x: int, y: int) -> Seq<char> {
    spec_decimal(x) + seq!['_'] + spec_decimal(y) + seq!['.', 'c', 'h', 'u', 'n', 'k']
}

/// The one-character string for a decimal digit.
fn digit_str(d: u8) -> (r: &'static str)
    requires
        d < 10,
    ensures
        r@ =~= seq![spec_digit_char(d as int)],
{
    proof {
        reveal_strlit("0");
        reveal_strlit("1");
        reveal_strlit("2");
        reveal_strlit("3");
        reveal_strlit("4");
        reveal_strlit("5");
        reveal_strlit("6");
        reveal_strlit("7");
        reveal_strlit("8");
        reveal_strlit("9");
    }
    match d {
        0 => "0",
        1 => "1",
        2 => "2",
        3 => "3",
        4 => "4",
        5 => "5",
        6 => "6",
        7 => "7",
        8 => "8",
        _ => "9",
    }
}

/// Appends the decimal digits of `n` to `s`, most significant first.
fn push_decimal_digits(s: &mut String, n: u64)
    ensures
        final(s)@ == old(s)@ + spec_decimal_digits(n as int),
    decreases n,
{
    if n <= 9 {
        s.append(digit_str(n as u8));
    } else {
        push_decimal_digits(s, n / 10);
        s.append(digit_str((n % 10) as u8));
        proof {
            assert(final(s)@ =~= old(s)@ + spec_decimal_digits(n as int));
        }
    }
}

/// Renders `n` in decimal.
fn decimal_string(n: i64) -> (r: String)
    requires
        n > i64::MIN,
    ensures
        r@ == spec_decimal(n as int),
{
    let mut s = String::new();
    if n < 0 {
        proof {
            reveal_strlit("-");
        }
        s.append("-");
        let m = -n;
        push_decimal_digits(&mut s, m as u64);
        proof {
            assert(s@ =~= spec_decimal(n as int));
        }
    } else {
        push_decimal_digits(&mut s, n as u64);
        proof {
            assert(s@ =~= spec_decimal(n as int));
        }
    }
    s
}

/// A pair of chunk coordinates that has been checked against the grid's
/// half-extent: construction fails outside it, so a value of this type is
/// always a real grid position.
#[derive(Debug, Clone, Copy, PartialEq, Eq, Hash, Structural)]
pub struct ChunkCoordinates {
    x: i64,
    y: i64,
}

impl Default for ChunkCoordinates {
    /// The origin chunk.
    fn default() -> (r: Self)
        ensures
            r.spec_x() == 0 && r.spec_y() == 0,
    {
        ChunkCoordinates { x: 0, y: 0 }
    }
}

impl ChunkCoordinates {
    /// The horizontal position.
    pub closed spec fn spec_x(self) -> i64 {
        self.x
    }

    /// The vertical position.
    pub closed spec fn spec_y(self) -> i64 {
        self.y
    }

    /// Whether `(x, y)` lies on a grid of half-extent `limit`.
    pub open spec fn spec_in_grid(x: i64, y: i64, limit: i64) -> bool {
        -limit <= x <= limit && -limit <= y <= limit
    }

    /// Accepts `(x, y)` exactly when both components lie within the given
    /// half-extent.
    pub fn with_limit(x: i64, y: i64, chunks_in_direction: i64) -> (r: Result<Self, ()>)
        requires
            chunks_in_direction >= 0,
        ensures
            r is Ok <==> Self::spec_in_grid(x, y, chunks_in_direction),
            r is Ok ==> r->Ok_0.spec_x() == x && r->Ok_0.spec_y() == y,
    {
        if x < -chunks_in_direction || x > chunks_in_direction || y < -chunks_in_direction || y
            > chunks_in_direction {
            return Err(());
        }
        Ok(ChunkCoordinates { x, y })
    }

    /// Accepts `(x, y)` exactly when both components lie within the grid's
    /// configured half-extent.
    pub fn new(x: i64, y: i64) -> (r: Result<Self, ()>)
        ensures
            r is Ok <==> Self::spec_in_grid(x, y, CHUNKS_IN_DIRECTION),
            r is Ok ==> r->Ok_0.spec_x() == x && r->Ok_0.spec_y() == y,
    {
        Self::with_limit(x, y, CHUNKS_IN_DIRECTION)
    }

    /// The horizontal position.
    pub fn x(&self) -> (r: i64)
        ensures
            r == self.spec_x(),
    {
        self.x
    }

    /// The vertical position.
    pub fn y(&self) -> (r: i64)
        ensures
            r == self.spec_y(),
    {
        self.y
    }

    /// The chunk's canonical object name, `{x}_{y}.chunk`.
    pub fn object_name(&self) -> (r: String)
        requires
            self.spec_x() > i64::MIN,
            self.spec_y() > i64::MIN,
        ensures
            r@ == spec_object_name(self.spec_x() as int, self.spec_y() as int),
    {
        proof {
            reveal_strlit("_");
            reveal_strlit(".chunk");
        }
        let mut s = decimal_string(self.x);
        s.append("_");
        let ys = decimal_string(self.y);
        s.append(ys.as_str());
        s.append(".chunk");
        proof {
            assert(s@ =~= spec_object_name(self.spec_x() as int, self.spec_y() as int));
        }
        s
    }
}

} // verus!

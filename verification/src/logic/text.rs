use vstd::prelude::*;
use vstd::string::StringExecFns;
use super::amove::Move;
use super::board::Board;
use super::board_side::BoardSide;
use super::index::Index;
use super::player_side::PlayerSide;
use super::position::Position;

verus! {

/// The character of a digit.
pub open spec fn digit(d: int) -> Seq<char> {
    if d == 0 {
        "0"@
    } else if d == 1 {
        "1"@
    } else if d == 2 {
        "2"@
    } else if d == 3 {
        "3"@
    } else if d == 4 {
        "4"@
    } else if d == 5 {
        "5"@
    } else if d == 6 {
        "6"@
    } else if d == 7 {
        "7"@
    } else if d == 8 {
        "8"@
    } else {
        "9"@
    }
}

/// The digits of a natural number, in base ten.
pub open spec fn digits(n: int) -> Seq<char>
    decreases n,
{
    if n < 10 {
        digit(n)
    } else {
        digits(n / 10) + digit(n % 10)
    }
}

/// A whole number written in base ten, with a minus sign if negative.
pub open spec fn decimal(v: int) -> Seq<char> {
    if v < 0 {
        "-"@ + digits(-v)
    } else {
        digits(v)
    }
}

/// The text of a digit.
fn digit_text(d: u8) -> (r: &'static str)
    requires
        d < 10,
    ensures
        r@ == digit(d as int),
{
    match d {
        0 => "0",
        1 => "1",
        2 => "2",
        3 => "3",
        4 => "4",
        5 => "5",
        6 => "6",
        7 => "7",
        8 => "8",
        _ => "9",
    }
}

/// Appends to `out` the number `v` written in base ten.
pub fn push_decimal(out: &mut String, v: i8)
    ensures
        final(out)@ == old(out)@ + decimal(v as int),
{
    let n: u8 = if v < 0 {
        out.append("-");
        (-(v as i16)) as u8
    } else {
        v as u8
    };
    let ghost start = out@;
    assert(start =~= old(out)@ + (if v < 0 {
        "-"@
    } else {
        Seq::<char>::empty()
    }));
    if n >= 100 {
        out.append(digit_text(n / 100));
        out.append(digit_text((n / 10) % 10));
        out.append(digit_text(n % 10));
        assert(digits(n as int) == digits(n as int / 10) + digit(n as int % 10));
        assert(digits(n as int / 10) == digits(n as int / 100) + digit((n as int / 10) % 10));
        assert(out@ =~= start + digits(n as int));
    } else if n >= 10 {
        out.append(digit_text(n / 10));
        out.append(digit_text(n % 10));
        assert(digits(n as int) == digits(n as int / 10) + digit(n as int % 10));
        assert(out@ =~= start + digits(n as int));
    } else {
        out.append(digit_text(n));
    }
    assert(out@ =~= old(out)@ + decimal(v as int));
}

impl BoardSide {
    /// The mark that stands for this region in a printed coordinate: an
    /// arrow for a reserve, nothing for the pyramid.
    pub open spec fn text(self) -> Seq<char> {
        match self {
            BoardSide::White => "\u{2198}"@,
            BoardSide::Center => ""@,
            BoardSide::Black => "\u{2199}"@,
        }
    }

    /// The mark that stands for this region in a printed coordinate.
    pub fn to_string(&self) -> (r: String)
        ensures
            r@ == self.text(),
    {
        match self {
            BoardSide::White => String::from_str("\u{2198}"),
            BoardSide::Center => String::from_str(""),
            BoardSide::Black => String::from_str("\u{2199}"),
        }
    }
}

impl Index {
    /// The coordinate in print: the mark of its region, then `x`, `y` and
    /// `z`.
    pub open spec fn text(self) -> Seq<char> {
        self.b.text() + decimal(self.x as int) + decimal(self.y as int) + decimal(self.z as int)
    }

    /// Appends to `out` the coordinate in print.
    pub fn push_text(&self, out: &mut String)
        ensures
            final(out)@ == old(out)@ + self.text(),
    {
        let mark = self.b.to_string();
        out.append(mark.as_str());
        push_decimal(out, self.x);
        push_decimal(out, self.y);
        push_decimal(out, self.z);
        assert(out@ =~= old(out)@ + self.text());
    }

    /// The coordinate in print.
    pub fn to_string(&self) -> (r: String)
        ensures
            r@ == self.text(),
    {
        let mut r = String::new();
        self.push_text(&mut r);
        assert(r@ =~= self.text());
        r
    }
}

impl Move {
    /// The move in print: a disc in the mover's colour, then where the
    /// ball comes from and where it goes.
    pub open spec fn text(self) -> Seq<char> {
        (match self.from.player {
            PlayerSide::White => "[\u{25ef} : "@,
            PlayerSide::Black => "[\u{25cf} : "@,
        }) + self.from.index.text() + " => "@ + self.to.index.text() + "]"@
    }

    /// The move in print.
    pub fn to_string(&self) -> (r: String)
        ensures
            r@ == self.text(),
    {
        let mut r = match self.from.player {
            PlayerSide::White => String::from_str("[\u{25ef} : "),
            PlayerSide::Black => String::from_str("[\u{25cf} : "),
        };
        self.from.index.push_text(&mut r);
        r.append(" => ");
        self.to.index.push_text(&mut r);
        r.append("]");
        assert(r@ =~= self.text());
        r
    }
}

/// What a cell of the picture shows: a white disc, a black disc or a dot,
/// and a blank.
pub open spec fn cell_mark(o: Option<PlayerSide>) -> Seq<char> {
    match o {
        Some(PlayerSide::White) => "\u{25ef} "@,
        Some(PlayerSide::Black) => "\u{25cf} "@,
        None => "\u{22c5} "@,
    }
}

impl Position {
    /// The first `n` cells of row `y` of level `z`, in print.
    pub open spec fn cells_text(self, y: int, z: int, n: int) -> Seq<char>
        decreases n,
    {
        if n <= 0 {
            Seq::empty()
        } else {
            self.cells_text(y, z, n - 1) + cell_mark(self.owner(Index::center(n - 1, y, z)))
        }
    }

    /// Row `y` of level `z` in print, between brackets.
    pub open spec fn level_row(self, y: int, z: int) -> Seq<char> {
        "[ "@ + self.cells_text(y, z, 4 - z) + "]  "@
    }

    /// Row `y` of the first `n` levels, side by side.
    pub open spec fn levels_text(self, y: int, n: int) -> Seq<char>
        decreases n,
    {
        if n <= 0 {
            Seq::empty()
        } else {
            self.levels_text(y, n - 1) + self.level_row(y, n - 1)
        }
    }

    /// Line `y` of the picture: row `y` of every level that has one, side
    /// by side, and a line end.
    pub open spec fn line(self, y: int) -> Seq<char> {
        self.levels_text(y, 4 - y) + "\n"@
    }

    /// The first `n` lines of the picture.
    pub open spec fn lines(self, n: int) -> Seq<char>
        decreases n,
    {
        if n <= 0 {
            Seq::empty()
        } else {
            self.lines(n - 1) + self.line(n - 1)
        }
    }

    /// The pyramid in print: an empty line, then four lines, each with one
    /// row of every level that has one, the base on the left.
    pub open spec fn picture(self) -> Seq<char> {
        "\n"@ + self.lines(4)
    }
}

impl Board {
    /// The pyramid in print.
    pub fn to_string(&self) -> (r: String)
        ensures
            r@ == self@.picture(),
    {
        let mut r = String::from_str("\n");
        let mut y: i8 = 0;
        while y < 4
            invariant
                0 <= y <= 4,
                r@ == "\n"@ + self@.lines(y as int),
            decreases 4 - y,
        {
            let ghost before_line = r@;
            let mut z: i8 = 0;
            while z < 4 - y
                invariant
                    0 <= y < 4,
                    0 <= z <= 4 - y,
                    r@ == before_line + self@.levels_text(y as int, z as int),
                decreases 4 - y - z,
            {
                let ghost before_row = r@;
                r.append("[ ");
                let mut x: i8 = 0;
                while x < 4 - z
                    invariant
                        0 <= y < 4,
                        0 <= z < 4 - y,
                        0 <= x <= 4 - z,
                        r@ == before_row + "[ "@ + self@.cells_text(y as int, z as int, x as int),
                    decreases 4 - z - x,
                {
                    let ghost before_cell = r@;
                    match self.get(Index { b: BoardSide::Center, x, y, z }) {
                        Some(PlayerSide::White) => {
                            r.append("\u{25ef} ");
                        },
                        Some(PlayerSide::Black) => {
                            r.append("\u{25cf} ");
                        },
                        None => {
                            r.append("\u{22c5} ");
                        },
                    }
                    assert(r@ == before_cell + cell_mark(
                        self@.owner(Index::center(x as int, y as int, z as int)),
                    ));
                    x += 1;
                    assert(r@ =~= before_row + "[ "@ + self@.cells_text(
                        y as int,
                        z as int,
                        x as int,
                    ));
                }
                r.append("]  ");
                z += 1;
                assert(r@ =~= before_line + self@.levels_text(y as int, z as int));
            }
            r.append("\n");
            y += 1;
            assert(r@ =~= "\n"@ + self@.lines(y as int));
        }
        r
    }
}

} // verus!

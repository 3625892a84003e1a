use vstd::prelude::*;
use vstd::string::StringExecFns;

use crate::fixed::{Fixed, SCALE};
use crate::vec3::Color;

verus! {

/// A colour component as an integer intensity level of the text image.
pub trait ToPPM3 {
    spec fn ppm3(&self) -> u16;

    fn to_ppm3(&self) -> (r: u16)
        ensures
            r == self.ppm3(),
    ;
}

/// Levels are written as they are.
impl ToPPM3 for u16 {
    open spec fn ppm3(&self) -> u16 {
        *self
    }

    fn to_ppm3(&self) -> (r: u16) {
        *self
    }
}

/// `x * 256` rounded toward zero, held into `[0, 65535]`.
impl ToPPM3 for Fixed {
    open spec fn ppm3(&self) -> u16 {
        if self.raw <= 0 {
            0
        } else if self.raw * 256 / (SCALE as int) > 65535 {
            65535
        } else {
            (self.raw * 256 / (SCALE as int)) as u16
        }
    }

    fn to_ppm3(&self) -> (r: u16) {
        if self.raw <= 0 {
            0
        } else {
            let q = self.raw as i128 * 256 / SCALE as i128;
            if q > 65535 {
                65535
            } else {
                q as u16
            }
        }
    }
}

pub open spec fn digit_char(d: int) -> char {
    if d == 0 {
        '0'
    } else if d == 1 {
        '1'
    } else if d == 2 {
        '2'
    } else if d == 3 {
        '3'
    } else if d == 4 {
        '4'
    } else if d == 5 {
        '5'
    } else if d == 6 {
        '6'
    } else if d == 7 {
        '7'
    } else if d == 8 {
        '8'
    } else {
        '9'
    }
}

/// Decimal digits of `n`, without leading zeros.
pub open spec fn decimal(n: nat) -> Seq<char>
    decreases n,
{
    if n < 10 {
        seq![digit_char(n as int)]
    } else {
        decimal(n / 10) + seq![digit_char((n % 10) as int)]
    }
}

fn digit_str(d: u64) -> (r: &'static str)
    requires
        d < 10,
    ensures
        r@ == seq![digit_char(d as int)],
{
    proof {
        reveal_strlit("0");
        reveal_strlit("1");
        reveal_strlit("2");
        reveal_strlit("3");
        reveal_strlit("4");
        reveal_strlit("5");
        reveal_strlit("6");
        reveal_strlit("7");
        reveal_strlit("8");
        reveal_strlit("9");
    }
    if d == 0 {
        "0"
    } else if d == 1 {
        "1"
    } else if d == 2 {
        "2"
    } else if d == 3 {
        "3"
    } else if d == 4 {
        "4"
    } else if d == 5 {
        "5"
    } else if d == 6 {
        "6"
    } else if d == 7 {
        "7"
    } else if d == 8 {
        "8"
    } else {
        "9"
    }
}

/// Appends the decimal digits of `n`.
fn push_decimal(s: &mut String, n: u64)
    ensures
        final(s)@ == old(s)@ + decimal(n as nat),
    decreases n,
{
    if n >= 10 {
        push_decimal(s, n / 10);
    }
    s.append(digit_str(n % 10));
    assert(final(s)@ =~= old(s)@ + decimal(n as nat));
}

fn push_str(s: &mut String, t: &str)
    ensures
        final(s)@ == old(s)@ + t@,
{
    s.append(t);
}

/// The line `r g b` of one pixel.
pub open spec fn line_text<T: ToPPM3>(c: Color<T>) -> Seq<char> {
    decimal(c.x.ppm3() as nat) + seq![' '] + decimal(c.y.ppm3() as nat) + seq![' '] + decimal(
        c.z.ppm3() as nat,
    ) + seq!['\n']
}

/// The lines of a row, left to right.
pub open spec fn row_text<T: ToPPM3>(row: Seq<Color<T>>) -> Seq<char>
    decreases row.len(),
{
    if row.len() == 0 {
        Seq::empty()
    } else {
        row_text(row.drop_last()) + line_text(row.last())
    }
}

/// The rows from the last to the first.
pub open spec fn rows_text<T: ToPPM3>(rows: Seq<Seq<Color<T>>>) -> Seq<char>
    decreases rows.len(),
{
    if rows.len() == 0 {
        Seq::empty()
    } else {
        rows_text(rows.drop_first()) + row_text(rows.first())
    }
}

pub open spec fn max16(a: u16, b: u16) -> u16 {
    if a >= b {
        a
    } else {
        b
    }
}

pub open spec fn color_max<T: ToPPM3>(c: Color<T>) -> u16 {
    max16(c.x.ppm3(), max16(c.y.ppm3(), c.z.ppm3()))
}

pub open spec fn row_max<T: ToPPM3>(row: Seq<Color<T>>) -> u16
    decreases row.len(),
{
    if row.len() == 0 {
        0
    } else {
        max16(row_max(row.drop_last()), color_max(row.last()))
    }
}

/// Largest level over all pixels (zero for none).
pub open spec fn rows_max<T: ToPPM3>(rows: Seq<Seq<Color<T>>>) -> u16
    decreases rows.len(),
{
    if rows.len() == 0 {
        0
    } else {
        max16(rows_max(rows.drop_first()), row_max(rows.first()))
    }
}

/// Plain-text portable pixmap: `P3`, the size, the largest level, then one
/// line per pixel with the top row first.
pub open spec fn ppm_text<T: ToPPM3>(width: nat, height: nat, rows: Seq<Seq<Color<T>>>) -> Seq<char> {
    seq!['P', '3', '\n'] + decimal(width) + seq![' '] + decimal(height) + seq!['\n'] + decimal(
        rows_max(rows) as nat,
    ) + seq!['\n'] + rows_text(rows)
}

/// An image of `HEIGHT` rows of `WIDTH` colours; row 0 is the bottom row.
pub struct PPM<T, const WIDTH: usize, const HEIGHT: usize> {
    pixels: Box<[[Color<T>; WIDTH]; HEIGHT]>,
}

impl<T: ToPPM3, const WIDTH: usize, const HEIGHT: usize> PPM<T, WIDTH, HEIGHT> {
    pub closed spec fn rows(&self) -> Seq<Seq<Color<T>>> {
        self.pixels@.map_values(|row: [Color<T>; WIDTH]| row@)
    }

    pub fn new(pixels: Box<[[Color<T>; WIDTH]; HEIGHT]>) -> (r: Self)
        ensures
            r.rows() == pixels@.map_values(|row: [Color<T>; WIDTH]| row@),
    {
        PPM { pixels }
    }

    /// The image as text.
    pub fn to_string(&self) -> (r: String)
        ensures
            r@ == ppm_text(WIDTH as nat, HEIGHT as nat, self.rows()),
    {
        let ghost rows = self.rows();
        let mut body = String::new();
        let mut max_color: u16 = 0;
        let mut r: usize = HEIGHT;
        while r > 0
            invariant
                r <= HEIGHT,
                rows == self.rows(),
                rows.len() == HEIGHT,
                forall|i: int| 0 <= i < HEIGHT ==> (#[trigger] rows[i]).len() == WIDTH,
                body@ == rows_text(rows.subrange(r as int, HEIGHT as int)),
                max_color == rows_max(rows.subrange(r as int, HEIGHT as int)),
            decreases r,
        {
            let ghost before = body@;
            let ghost max_before = max_color;
            let row = &self.pixels[r - 1];
            let mut row_max_color: u16 = 0;
            let mut c: usize = 0;
            while c < WIDTH
                invariant
                    c <= WIDTH,
                    r >= 1,
                    row@ == rows[r - 1],
                    rows[r - 1].len() == WIDTH,
                    body@ == before + row_text(rows[r - 1].subrange(0, c as int)),
                    row_max_color == row_max(rows[r - 1].subrange(0, c as int)),
                decreases WIDTH - c,
            {
                let px = &row[c];
                let red = px.x.to_ppm3();
                let green = px.y.to_ppm3();
                let blue = px.z.to_ppm3();
                let ghost body0 = body@;
                push_decimal(&mut body, red as u64);
                push_str(&mut body, " ");
                push_decimal(&mut body, green as u64);
                push_str(&mut body, " ");
                push_decimal(&mut body, blue as u64);
                push_str(&mut body, "\n");
                proof {
                    reveal_strlit(" ");
                    reveal_strlit("\n");
                    let sub = rows[r - 1].subrange(0, c + 1);
                    assert(sub.drop_last() =~= rows[r - 1].subrange(0, c as int));
                    assert(sub.last() == *px);
                    assert(body@ =~= body0 + line_text(*px));
                    assert(body@ =~= before + row_text(sub));
                }
                let m = if green >= blue { green } else { blue };
                let m = if red >= m { red } else { m };
                row_max_color = if row_max_color >= m { row_max_color } else { m };
                c = c + 1;
            }
            max_color = if max_color >= row_max_color { max_color } else { row_max_color };
            proof {
                let sub = rows.subrange(r - 1, HEIGHT as int);
                assert(sub.drop_first() =~= rows.subrange(r as int, HEIGHT as int));
                assert(sub.first() == rows[r - 1]);
                assert(rows[r - 1].subrange(0, WIDTH as int) =~= rows[r - 1]);
            }
            r = r - 1;
        }
        proof {
            assert(rows.subrange(0, HEIGHT as int) =~= rows);
            reveal_strlit("P3\n");
            reveal_strlit(" ");
            reveal_strlit("\n");
        }
        let mut out = String::new();
        push_str(&mut out, "P3\n");
        push_decimal(&mut out, WIDTH as u64);
        push_str(&mut out, " ");
        push_decimal(&mut out, HEIGHT as u64);
        push_str(&mut out, "\n");
        push_decimal(&mut out, max_color as u64);
        push_str(&mut out, "\n");
        push_str(&mut out, body.as_str());
        assert(out@ =~= ppm_text(WIDTH as nat, HEIGHT as nat, rows));
        out
    }
}

} // verus!

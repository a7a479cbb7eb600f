use crate::xy::{trunc_rem, Coord, XY};
use vstd::prelude::*;

verus! {

/// `line` without a carriage return at its end.
pub open spec fn strip_cr(line: Seq<char>) -> Seq<char> {
    if line.len() > 0 && line.last() == '\r' {
        line.drop_last()
    } else {
        line
    }
}

/// Reads `text` from the left: the lines already closed by a `'\n'` (each
/// without its terminator) and the characters of the line still open.
pub open spec fn split_lines(text: Seq<char>) -> (Seq<Seq<char>>, Seq<char>)
    decreases text.len(),
{
    if text.len() == 0 {
        (seq![], seq![])
    } else {
        let prev = split_lines(text.drop_last());
        if text.last() == '\n' {
            (prev.0.push(strip_cr(prev.1)), seq![])
        } else {
            (prev.0, prev.1.push(text.last()))
        }
    }
}

/// The lines of `text`: split at `"\n"` or `"\r\n"`, the final terminator
/// being optional.
pub open spec fn lines_of(text: Seq<char>) -> Seq<Seq<char>> {
    let parts = split_lines(text);
    if parts.1.len() > 0 {
        parts.0.push(parts.1)
    } else {
        parts.0
    }
}

/// The length of the longest row, 0 where there is none.
pub open spec fn max_len(rows: Seq<Seq<char>>) -> nat
    decreases rows.len(),
{
    if rows.len() == 0 {
        0
    } else {
        let m = max_len(rows.drop_last());
        if rows.last().len() > m {
            rows.last().len()
        } else {
            m
        }
    }
}

/// What the grid holds at a cell: coordinates are reduced by the truncating
/// remainder; a row that does not exist fails, a column past the end of its
/// row reads as a space.
pub open spec fn cell_at(rows: Seq<Seq<char>>, bounds: XY, x: int, y: int) -> Option<char> {
    if bounds.x == 0 || bounds.y == 0 {
        None
    } else {
        let wx = trunc_rem(x, bounds.x as int);
        let wy = trunc_rem(y, bounds.y as int);
        if 0 <= wy < rows.len() {
            if 0 <= wx < rows[wy].len() {
                Some(rows[wy][wx])
            } else {
                Some(' ')
            }
        } else {
            None
        }
    }
}

/// A program: its rows of characters, possibly ragged, and its bounds
/// (longest row, number of rows).
#[derive(Debug)]
pub struct Source {
    pub instrs: Vec<Vec<char>>,
    pub bounds: Coord,
}

impl View for Source {
    type V = Seq<Seq<char>>;

    open spec fn view(&self) -> Seq<Seq<char>> {
        self.instrs@.map_values(|r: Vec<char>| r@)
    }
}

impl Source {
    /// The bounds are those of the rows.
    pub open spec fn wf(&self) -> bool {
        &&& self.bounds.x == max_len(self@)
        &&& self.bounds.y == self@.len()
    }

    pub open spec fn lookup_spec(&self, x: int, y: int) -> Option<char> {
        cell_at(self@, self.bounds, x, y)
    }

    pub fn parse(src: &str) -> (r: Source)
        requires
            src@.len() <= isize::MAX,
        ensures
            r.wf(),
            r@ == lines_of(src@),
    {
        let mut rows: Vec<Vec<char>> = Vec::new();
        let mut cur: Vec<char> = Vec::new();
        let ghost text = src@;
        for c in it: src.chars()
            invariant
                it.seq() == text,
                rows@.map_values(|r: Vec<char>| r@) == split_lines(text.take(it.index() as int)).0,
                cur@ == split_lines(text.take(it.index() as int)).1,
                rows@.len() + cur@.len() <= it.index(),
                forall|k: int| 0 <= k < rows@.len() ==> #[trigger] rows@[k]@.len() <= it.index(),
        {
            assert(text.take(it.index() + 1).drop_last() == text.take(it.index() as int));
            if c == '\n' {
                if cur.len() > 0 && cur[cur.len() - 1] == '\r' {
                    cur.pop();
                }
                rows.push(cur);
                cur = Vec::new();
            } else {
                cur.push(c);
            }
            assert(rows@.map_values(|r: Vec<char>| r@) == split_lines(text.take(it.index() + 1)).0);
        }
        assert(text.take(text.len() as int) == text);
        if cur.len() > 0 {
            rows.push(cur);
        }
        assert(rows@.map_values(|r: Vec<char>| r@) == lines_of(text));
        let n: usize = rows.len();
        let mut widest: usize = 0;
        let mut i: usize = 0;
        while i < n
            invariant
                n == rows@.len(),
                i <= n,
                n <= text.len(),
                forall|k: int| 0 <= k < rows@.len() ==> #[trigger] rows@[k]@.len() <= text.len(),
                widest == max_len(rows@.map_values(|r: Vec<char>| r@).take(i as int)),
                widest <= text.len(),
            decreases n - i,
        {
            assert(rows@.map_values(|r: Vec<char>| r@).take(i + 1).drop_last()
                == rows@.map_values(|r: Vec<char>| r@).take(i as int));
            if rows[i].len() > widest {
                widest = rows[i].len();
            }
            i = i + 1;
        }
        assert(rows@.map_values(|r: Vec<char>| r@).take(n as int) == rows@.map_values(|r: Vec<char>| r@));
        let bounds = XY::new(widest as isize, n as isize);
        Source { instrs: rows, bounds }
    }

    pub fn lookup(&self, coord: &Coord) -> (r: Option<char>)
        requires
            self.wf(),
        ensures
            r == self.lookup_spec(coord.x as int, coord.y as int),
    {
        if self.bounds.x == 0 || self.bounds.y == 0 {
            return None;
        }
        let wrapped = coord.modulo(&self.bounds);
        if wrapped.y < 0 || wrapped.y as usize >= self.instrs.len() {
            return None;
        }
        let row = &self.instrs[wrapped.y as usize];
        assert(row@ == self@[wrapped.y as int]);
        if wrapped.x < 0 || wrapped.x as usize >= row.len() {
            Some(' ')
        } else {
            Some(row[wrapped.x as usize])
        }
    }
}

/// A non-empty grid repeats with its bounds as period along each axis, for
/// a coordinate on that axis that stays on one side of zero under the shift.
pub proof fn lemma_lookup_periodic(src: Source, x: int, y: int)
    requires
        src.wf(),
        src.bounds.x > 0,
        src.bounds.y > 0,
    ensures
        x >= 0 || x + src.bounds.x <= 0 ==> src.lookup_spec(x, y) == src.lookup_spec(
            x + src.bounds.x,
            y,
        ),
        y >= 0 || y + src.bounds.y <= 0 ==> src.lookup_spec(x, y) == src.lookup_spec(
            x,
            y + src.bounds.y,
        ),
{
    if x >= 0 || x + src.bounds.x <= 0 {
        lemma_trunc_rem_shift(x, src.bounds.x as int);
    }
    if y >= 0 || y + src.bounds.y <= 0 {
        lemma_trunc_rem_shift(y, src.bounds.y as int);
    }
}

proof fn lemma_trunc_rem_shift(a: int, b: int)
    requires
        b > 0,
        a >= 0 || a + b <= 0,
    ensures
        trunc_rem(a + b, b) == trunc_rem(a, b),
{
    if a >= 0 {
        vstd::arithmetic::div_mod::lemma_mod_add_multiples_vanish(a, b);
        assert((b + a) % b == a % b);
        assert(a + b == b + a);
    } else if a + b == 0 {
        vstd::arithmetic::div_mod::lemma_mod_self_0(b);
        assert(-a == b);
    } else {
        vstd::arithmetic::div_mod::lemma_mod_add_multiples_vanish(-a - b, b);
        assert((b + (-a - b)) % b == (-a - b) % b);
        assert(b + (-a - b) == -a);
        assert(-(a + b) == -a - b);
    }
}

/// A grid with an empty dimension holds nothing at any coordinate.
pub proof fn lemma_lookup_empty_fails(src: Source, x: int, y: int)
    requires
        src.bounds.x == 0 || src.bounds.y == 0,
    ensures
        src.lookup_spec(x, y) is None,
{
}

} // verus!

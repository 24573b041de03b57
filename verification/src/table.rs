//! Lines of text in columns.

use vstd::prelude::*;
use vstd::string::*;

use crate::text::{owned, push_char};

verus! {

/// `n` spaces.
pub open spec fn spaces(n: int) -> Seq<char> {
    Seq::new(
        (if n < 0 {
            0
        } else {
            n
        }) as nat,
        |i: int| ' ',
    )
}

/// `s` at the left of a column.
pub open spec fn left_in(s: Seq<char>, width: nat) -> Seq<char> {
    s + spaces(width - s.len())
}

/// `s` at the right of a column.
pub open spec fn right_in(s: Seq<char>, width: nat) -> Seq<char> {
    spaces(width - s.len()) + s
}

fn spaces_string(n: usize) -> (r: String)
    ensures
        r@ == spaces(n as int),
{
    let mut out = String::new();
    let mut i: usize = 0;
    assert(out@ =~= spaces(0));
    while i < n
        invariant
            i <= n,
            out@ == spaces(i as int),
        decreases n - i,
    {
        push_char(&mut out, ' ');
        assert(out@ =~= spaces(i as int + 1));
        i = i + 1;
    }
    out
}

/// Puts a text at the left of a column.
pub fn pad_right(s: &str, width: usize) -> (r: String)
    ensures
        r@ == left_in(s@, width as nat),
{
    let n: usize = s.unicode_len();
    let mut out = owned(s);
    if n < width {
        out.append(spaces_string(width - n).as_str());
    } else {
        assert(out@ =~= left_in(s@, width as nat));
    }
    out
}

/// Puts a text at the right of a column.
pub fn pad_left(s: &str, width: usize) -> (r: String)
    ensures
        r@ == right_in(s@, width as nat),
{
    let n: usize = s.unicode_len();
    if n < width {
        let mut out = spaces_string(width - n);
        out.append(s);
        out
    } else {
        let out = owned(s);
        assert(out@ =~= right_in(s@, width as nat));
        out
    }
}

/// A cell of a line: so many spaces, then a text in a column.
pub struct CellView {
    pub gap: nat,
    pub text: Seq<char>,
    pub width: nat,
    /// Whether the text stands at the right of the column.
    pub right: bool,
}

/// A cell with its text at the left.
pub open spec fn left_cell(gap: nat, text: Seq<char>, width: nat) -> CellView {
    CellView { gap, text, width, right: false }
}

/// A cell with its text at the right.
pub open spec fn right_cell(gap: nat, text: Seq<char>, width: nat) -> CellView {
    CellView { gap, text, width, right: true }
}

/// The text of a cell.
pub open spec fn cell_text(c: CellView) -> Seq<char> {
    spaces(c.gap as int) + (if c.right {
        right_in(c.text, c.width)
    } else {
        left_in(c.text, c.width)
    })
}

/// The line that cells make.
pub open spec fn line_of(cells: Seq<CellView>) -> Seq<char>
    decreases cells.len(),
{
    if cells.len() == 0 {
        Seq::empty()
    } else {
        line_of(cells.drop_last()) + cell_text(cells.last())
    }
}

/// A line that is made cell by cell.
pub struct Line {
    text: String,
    cells: Ghost<Seq<CellView>>,
}

impl View for Line {
    type V = Seq<CellView>;

    closed spec fn view(&self) -> Seq<CellView> {
        self.cells@
    }
}

impl Line {
    /// The text is that of the cells.
    pub closed spec fn wf(&self) -> bool {
        self.text@ == line_of(self.cells@)
    }

    /// A line without cells.
    pub fn new() -> (r: Self)
        ensures
            r.wf(),
            r@ == Seq::<CellView>::empty(),
    {
        let text = String::new();
        assert(text@ =~= Seq::empty());
        Line { text, cells: Ghost(Seq::empty()) }
    }

    /// Adds a cell with its text at the left.
    pub fn left(self, gap: usize, text: &str, width: usize) -> (r: Self)
        requires
            self.wf(),
        ensures
            r.wf(),
            r@ == self@.push(left_cell(gap as nat, text@, width as nat)),
    {
        let ghost c = left_cell(gap as nat, text@, width as nat);
        let ghost before = self.cells@;
        let mut s = self.text;
        s.append(spaces_string(gap).as_str());
        s.append(pad_right(text, width).as_str());
        proof {
            assert(before.push(c).drop_last() =~= before);
            assert(s@ =~= line_of(before.push(c)));
        }
        Line { text: s, cells: Ghost(before.push(c)) }
    }

    /// Adds a cell with its text at the right.
    pub fn right(self, gap: usize, text: &str, width: usize) -> (r: Self)
        requires
            self.wf(),
        ensures
            r.wf(),
            r@ == self@.push(right_cell(gap as nat, text@, width as nat)),
    {
        let ghost c = right_cell(gap as nat, text@, width as nat);
        let ghost before = self.cells@;
        let mut s = self.text;
        s.append(spaces_string(gap).as_str());
        s.append(pad_left(text, width).as_str());
        proof {
            assert(before.push(c).drop_last() =~= before);
            assert(s@ =~= line_of(before.push(c)));
        }
        Line { text: s, cells: Ghost(before.push(c)) }
    }

    /// The text of the line.
    pub fn into_text(self) -> (r: String)
        requires
            self.wf(),
        ensures
            r@ == line_of(self@),
    {
        self.text
    }
}

/// A text in a column keeps all its characters. What it lacks in width is made
/// up with spaces, behind it or before it.
pub proof fn columns_are_filled_with_spaces(s: Seq<char>, width: nat)
    ensures
        left_in(s, width).len() == (if s.len() < width {
            width
        } else {
            s.len()
        }),
        right_in(s, width).len() == left_in(s, width).len(),
        left_in(s, width).take(s.len() as int) == s,
        right_in(s, width).skip(right_in(s, width).len() - s.len()) == s,
        forall|i: int| s.len() <= i < left_in(s, width).len() ==> #[trigger] left_in(s, width)[i] == ' ',
        forall|i: int|
            0 <= i < right_in(s, width).len() - s.len() ==> #[trigger] right_in(s, width)[i] == ' ',
{
    assert(left_in(s, width).take(s.len() as int) =~= s);
    assert(right_in(s, width).skip(right_in(s, width).len() - s.len()) =~= s);
}

/// A line is its cells from left to right, each behind its gap.
pub proof fn cells_stand_from_left_to_right(a: Seq<CellView>, gap: nat, text: Seq<char>, width: nat)
    ensures
        line_of(a.push(left_cell(gap, text, width))) == line_of(a) + left_in(Seq::empty(), gap)
            + left_in(text, width),
        line_of(a.push(right_cell(gap, text, width))) == line_of(a) + left_in(Seq::empty(), gap)
            + right_in(text, width),
        line_of(Seq::empty()) == Seq::<char>::empty(),
{
    assert(a.push(left_cell(gap, text, width)).drop_last() =~= a);
    assert(a.push(right_cell(gap, text, width)).drop_last() =~= a);
    assert(left_in(Seq::empty(), gap) =~= spaces(gap as int));
    assert(line_of(a.push(left_cell(gap, text, width))) =~= line_of(a) + left_in(Seq::empty(), gap)
        + left_in(text, width));
    assert(line_of(a.push(right_cell(gap, text, width))) =~= line_of(a) + left_in(Seq::empty(), gap)
        + right_in(text, width));
}

} // verus!

use vstd::prelude::*;
use crate::render::{decimal, push_decimal};

verus! {

/// A point in a source text.
///
/// `line` and `column` are 1-based presentation coordinates, so the start of
/// a text is `(1, 1)`. `index` is the absolute 0-based position counted in
/// elements; it is the only coordinate that readers and matchers compare.
///
/// Adding a `usize` to a `Location` moves it along the current line.
#[derive(Debug, Copy, Clone, PartialEq, Eq)]
pub struct Location {
    pub line: usize,
    pub column: usize,
    pub index: usize,
}

impl Location {
    /// The location of the first element of a text.
    pub open spec fn origin() -> Location {
        Location { line: 1, column: 1, index: 0 }
    }

    /// The location `n` elements further on the same line.
    pub open spec fn shifted(self, n: nat) -> Location {
        Location {
            line: self.line,
            column: (self.column + n) as usize,
            index: (self.index + n) as usize,
        }
    }

    /// The location at the start of the following line, one element further.
    pub open spec fn next_line(self) -> Location {
        Location { line: (self.line + 1) as usize, column: 1, index: (self.index + 1) as usize }
    }

    /// The location just after the element `c` read at `self`.
    pub open spec fn after(self, c: char) -> Location {
        if c == '\n' {
            self.next_line()
        } else {
            self.shifted(1)
        }
    }

    /// The location after a text with `lines` line breaks whose last line
    /// holds `columns` elements, `elements` elements in all. A line break
    /// restarts the column count at 1.
    pub open spec fn moved(self, lines: nat, columns: nat, elements: nat) -> Location {
        Location {
            line: (self.line + lines) as usize,
            column: ((if lines > 0 {
                1
            } else {
                self.column as int
            }) + columns) as usize,
            index: (self.index + elements) as usize,
        }
    }

    /// Whether `self.moved(lines, columns, elements)` stays within `usize`.
    pub open spec fn can_move(self, lines: nat, columns: nat, elements: nat) -> bool {
        &&& self.line + lines <= usize::MAX
        &&& (if lines > 0 {
            1
        } else {
            self.column as int
        }) + columns <= usize::MAX
        &&& self.index + elements <= usize::MAX
    }

    /// How a location is written: its line and its column, with a colon
    /// between them.
    pub open spec fn rendering(self) -> Seq<char> {
        decimal(self.line as nat) + seq![':'] + decimal(self.column as nat)
    }

    /// Appends the location, as it is written, to `out`.
    pub fn render_into(&self, out: &mut String)
        ensures
            final(out)@ == old(out)@ + self.rendering(),
    {
        push_decimal(out, self.line);
        out.push(':');
        push_decimal(out, self.column);
        assert(out@ =~= old(out)@ + self.rendering());
    }

    /// The location as it is written.
    pub fn to_string(&self) -> (text: String)
        ensures
            text@ == self.rendering(),
    {
        let mut out = String::new();
        self.render_into(&mut out);
        assert(out@ =~= self.rendering());
        out
    }

    pub fn new(line: usize, column: usize, index: usize) -> (loc: Self)
        ensures
            loc == (Location { line, column, index }),
    {
        Self { line, column, index }
    }

    /// The beginning of a text: line 1, column 1, index 0.
    pub fn beginning() -> (loc: Self)
        ensures
            loc == Location::origin(),
    {
        Self::new(1, 1, 0)
    }

    pub fn line(&self) -> (line: usize)
        ensures
            line == self.line,
    {
        self.line
    }

    pub fn column(&self) -> (column: usize)
        ensures
            column == self.column,
    {
        self.column
    }

    pub fn index(&self) -> (index: usize)
        ensures
            index == self.index,
    {
        self.index
    }

    /// The start of the next line, reached by reading one line break.
    pub fn add_line(&self) -> (loc: Self)
        requires
            self.line < usize::MAX,
            self.index < usize::MAX,
        ensures
            loc == self.next_line(),
    {
        Self { line: self.line + 1, column: 1, index: self.index + 1 }
    }

    /// Moves the location, in place, past the element `c`.
    pub fn increment_for(&mut self, c: char)
        requires
            old(self).index < usize::MAX,
            c == '\n' ==> old(self).line < usize::MAX,
            c != '\n' ==> old(self).column < usize::MAX,
        ensures
            *final(self) == old(self).after(c),
    {
        if c == '\n' {
            self.line = self.line + 1;
            self.index = self.index + 1;
            self.column = 1;
        } else {
            self.column = self.column + 1;
            self.index = self.index + 1;
        }
    }

    /// The location after a text of known shape: `delta_lines` line breaks,
    /// `delta_columns` elements on its last line, `delta_index` elements in
    /// all.
    pub fn add_delta(&self, delta_lines: usize, delta_columns: usize, delta_index: usize) -> (loc:
        Self)
        requires
            self.can_move(delta_lines as nat, delta_columns as nat, delta_index as nat),
        ensures
            loc == self.moved(delta_lines as nat, delta_columns as nat, delta_index as nat),
    {
        let index = self.index + delta_index;
        let line = self.line + delta_lines;
        let base: usize = if delta_lines > 0 {
            1
        } else {
            self.column
        };
        let column = base + delta_columns;
        Self::new(line, column, index)
    }
}

impl core::ops::Add<usize> for Location {
    type Output = Location;

    fn add(self, nb: usize) -> (loc: Location) {
        Location { line: self.line, column: self.column + nb, index: self.index + nb }
    }
}

impl vstd::std_specs::ops::AddSpecImpl<usize> for Location {
    open spec fn obeys_add_spec() -> bool {
        true
    }

    open spec fn add_req(self, nb: usize) -> bool {
        self.column + nb <= usize::MAX && self.index + nb <= usize::MAX
    }

    open spec fn add_spec(self, nb: usize) -> Location {
        self.shifted(nb as nat)
    }
}

} // verus!

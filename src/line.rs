use vstd::prelude::*;

verus! {

/// Columns that a blank row covers beyond an item's text: the glyph, the
/// space after it and the one column that a selected item moves forward.
pub const ERASE_MARGIN: usize = 3;

/// `n` spaces.
pub open spec fn spaces(n: nat) -> Seq<char> {
    Seq::new(n, |i: int| ' ')
}

/// One row of the dialog: an item's text and how it is shown.
pub struct Line {
    pub text: String,
    pub pointer: char,
    pub not_selected_pointer: char,
    pub selected: bool,
    pub underlined: bool,
    pub indent: u32,
}

impl Line {
    /// What the row shows: the selected row starts with the pointer, every
    /// other row with the not-selected glyph; then `indent` spaces, one more
    /// space and the text. Underlining is a style on top of these characters.
    pub open spec fn shown(&self) -> Seq<char> {
        seq![if self.selected { self.pointer } else { self.not_selected_pointer }]
            + spaces(self.indent as nat) + seq![' '] + self.text@
    }

    /// A row that covers what this line showed: its text's length plus the margin.
    pub open spec fn blank_spec(&self) -> Seq<char> {
        spaces((self.text@.len() + ERASE_MARGIN) as nat)
    }

    /// A row for `text`, not selected, not underlined, not indented.
    pub fn new(text: String, pointer: char, not_selected_pointer: char) -> (r: Line)
        ensures
            r.text@ == text@,
            r.pointer == pointer,
            r.not_selected_pointer == not_selected_pointer,
            !r.selected,
            !r.underlined,
            r.indent == 0,
    {
        Line { text, pointer, not_selected_pointer, selected: false, underlined: false, indent: 0 }
    }

    /// Back to the plain style: not selected, not underlined, not indented.
    pub fn default(&mut self)
        ensures
            final(self).text == old(self).text,
            final(self).pointer == old(self).pointer,
            final(self).not_selected_pointer == old(self).not_selected_pointer,
            !final(self).selected,
            !final(self).underlined,
            final(self).indent == 0,
    {
        self.selected = false;
        self.underlined = false;
        self.indent = 0;
    }

    pub fn select(&mut self)
        ensures
            *final(self) == (Line { selected: true, ..*old(self) }),
    {
        self.selected = true;
    }

    pub fn underline(&mut self)
        ensures
            *final(self) == (Line { underlined: true, ..*old(self) }),
    {
        self.underlined = true;
    }

    /// Put `n` spaces between the glyph and the text.
    pub fn space_from_pointer(&mut self, n: u32)
        ensures
            *final(self) == (Line { indent: n, ..*old(self) }),
    {
        self.indent = n;
    }

    /// The characters of the row, as `shown` gives them.
    pub fn to_chars(&self) -> (r: Vec<char>)
        ensures
            r@ == self.shown(),
    {
        let mut out: Vec<char> = Vec::new();
        if self.selected {
            out.push(self.pointer);
        } else {
            out.push(self.not_selected_pointer);
        }
        let ghost head = out@;
        let mut k: u32 = 0;
        while k < self.indent
            invariant
                k <= self.indent,
                out@ == head + spaces(k as nat),
            decreases self.indent - k,
        {
            out.push(' ');
            k += 1;
            assert(out@ =~= head + spaces(k as nat));
        }
        out.push(' ');
        let text = self.text.as_str();
        let n = text.unicode_len();
        let ghost body = out@;
        let mut i: usize = 0;
        while i < n
            invariant
                n == self.text@.len(),
                text@ == self.text@,
                i <= n,
                out@ == body + self.text@.subrange(0, i as int),
            decreases n - i,
        {
            out.push(text.get_char(i));
            i += 1;
            assert(out@ =~= body + self.text@.subrange(0, i as int));
        }
        assert(self.text@.subrange(0, n as int) =~= self.text@);
        assert(out@ =~= self.shown());
        out
    }

    /// Spaces enough to wipe the row: the text's length plus the margin.
    pub fn blank(&self) -> (r: Vec<char>)
        ensures
            r@ == self.blank_spec(),
    {
        let n = self.text.as_str().unicode_len();
        let mut out: Vec<char> = Vec::new();
        let mut i: usize = 0;
        while i < n
            invariant
                n == self.text@.len(),
                i <= n,
                out@ == spaces(i as nat),
            decreases n - i,
        {
            out.push(' ');
            i += 1;
            assert(out@ =~= spaces(i as nat));
        }
        let mut j: usize = 0;
        while j < ERASE_MARGIN
            invariant
                n == self.text@.len(),
                j <= ERASE_MARGIN,
                out@ == spaces((n + j) as nat),
            decreases ERASE_MARGIN - j,
        {
            out.push(' ');
            j += 1;
            assert(out@ =~= spaces((n + j) as nat));
        }
        out
    }
}

} // verus!

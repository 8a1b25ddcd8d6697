//! Plain text-attribute values carried through the pipeline and mapped to
//! the terminal library's styles by the front end.

use vstd::prelude::*;

verus! {

/// A terminal colour name, or `Unset` for the terminal default.
#[derive(Clone, Copy, Debug, PartialEq, Eq, Structural)]
pub enum TextColor {
    Unset,
    Red,
    Yellow,
    Blue,
    Green,
    Gray,
    LightBlue,
    Black,
}

/// Text attributes of a rendered span.
#[derive(Clone, Copy, Debug, PartialEq, Eq, Structural)]
pub struct TextStyle {
    pub fg: TextColor,
    pub bg: TextColor,
    pub bold: bool,
    pub dim: bool,
}

impl TextStyle {
    /// The default style: no colour, no attribute.
    pub open spec fn plain_spec() -> TextStyle {
        TextStyle { fg: TextColor::Unset, bg: TextColor::Unset, bold: false, dim: false }
    }

    /// The default style: no colour, no attribute.
    pub fn plain() -> (r: TextStyle)
        ensures
            r == TextStyle::plain_spec(),
    {
        TextStyle { fg: TextColor::Unset, bg: TextColor::Unset, bold: false, dim: false }
    }

    /// A bold style in the given foreground colour.
    pub open spec fn bold_spec(fg: TextColor) -> TextStyle {
        TextStyle { fg, bg: TextColor::Unset, bold: true, dim: false }
    }

    /// A bold style in the given foreground colour.
    pub fn bold(fg: TextColor) -> (r: TextStyle)
        ensures
            r == TextStyle::bold_spec(fg),
    {
        TextStyle { fg, bg: TextColor::Unset, bold: true, dim: false }
    }

    /// The dimmed default style.
    pub open spec fn dim_spec() -> TextStyle {
        TextStyle { fg: TextColor::Unset, bg: TextColor::Unset, bold: false, dim: true }
    }

    /// The dimmed default style.
    pub fn dimmed() -> (r: TextStyle)
        ensures
            r == TextStyle::dim_spec(),
    {
        TextStyle { fg: TextColor::Unset, bg: TextColor::Unset, bold: false, dim: true }
    }
}

/// One styled run of text in a display line.
#[derive(Clone, Debug, PartialEq)]
pub struct TextSpan {
    pub text: Vec<u8>,
    pub style: TextStyle,
}

/// Mathematical view of a [`TextSpan`].
pub ghost struct SpanModel {
    pub text: Seq<u8>,
    pub style: TextStyle,
}

impl View for TextSpan {
    type V = SpanModel;

    open spec fn view(&self) -> SpanModel {
        SpanModel { text: self.text@, style: self.style }
    }
}

impl TextSpan {
    /// Build a span from its text and style.
    pub fn new(text: Vec<u8>, style: TextStyle) -> (r: TextSpan)
        ensures
            r@ == (SpanModel { text: text@, style }),
    {
        TextSpan { text, style }
    }
}

/// One formatted display line: a sequence of styled spans and a line-wide
/// style the spans are drawn over.
#[derive(Clone, Debug, PartialEq)]
pub struct DisplayLine {
    pub spans: Vec<TextSpan>,
    pub style: TextStyle,
}

/// Mathematical view of a [`DisplayLine`].
pub ghost struct LineModel {
    pub spans: Seq<SpanModel>,
    pub style: TextStyle,
}

impl View for DisplayLine {
    type V = LineModel;

    open spec fn view(&self) -> LineModel {
        LineModel { spans: self.spans@.map_values(|s: TextSpan| s@), style: self.style }
    }
}

impl DisplayLine {
    /// An empty line with the default style.
    pub fn empty() -> (r: DisplayLine)
        ensures
            r@ == (LineModel { spans: Seq::empty(), style: TextStyle::plain_spec() }),
    {
        let r = DisplayLine { spans: Vec::new(), style: TextStyle::plain() };
        proof {
            assert(r@.spans =~= Seq::<SpanModel>::empty());
        }
        r
    }

    /// Append a span to the line.
    pub fn push_span(&mut self, s: TextSpan)
        ensures
            final(self)@.spans == old(self)@.spans.push(s@),
            final(self)@.style == old(self)@.style,
    {
        let ghost before = self@.spans;
        self.spans.push(s);
        proof {
            assert(self@.spans =~= before.push(s@));
        }
    }

    /// A deep copy.
    pub fn duplicate(&self) -> (r: Self)
        ensures
            r@ == self@,
    {
        let mut spans: Vec<TextSpan> = Vec::new();
        let n = self.spans.len();
        let mut i: usize = 0;
        while i < n
            invariant
                0 <= i <= n == self.spans@.len(),
                spans@.len() == i,
                forall|j: int| 0 <= j < i ==> (#[trigger] spans@[j])@ == self@.spans[j],
            decreases n - i,
        {
            let s = TextSpan {
                text: crate::bytes::clone_bytes(&self.spans[i].text),
                style: self.spans[i].style,
            };
            spans.push(s);
            i = i + 1;
        }
        let r = DisplayLine { spans, style: self.style };
        proof {
            assert forall|j: int| 0 <= j < n implies r@.spans[j] == self@.spans[j] by {}
            assert(r@.spans =~= self@.spans);
        }
        r
    }
}

} // verus!

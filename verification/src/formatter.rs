//! The formatter's running context and its style rulers.

use vstd::prelude::*;

verus! {

/// What the formatter expects to emit before the next token.
#[derive(Debug, Clone, Copy, PartialEq, Eq, Structural)]
pub enum TokenExpected {
    Space,
    LineBreak,
}

/// The text without its trailing spaces.
pub open spec fn spec_without_trailing_spaces(s: Seq<char>) -> Seq<char>
    decreases s.len(),
{
    if s.len() == 0 {
        s
    } else if s.last() == ' ' {
        spec_without_trailing_spaces(s.drop_last())
    } else {
        s
    }
}

/// The formatter's running state: what is expected next, whether the
/// next token opens its line, and the text emitted so far.
#[derive(Debug)]
pub struct FormatterContext {
    pub current_expected: Option<TokenExpected>,
    pub is_line_first_token: bool,
    pub text: Vec<char>,
}

impl FormatterContext {
    pub fn new() -> (r: FormatterContext)
        ensures
            r.current_expected is None,
            r.is_line_first_token == true,
            r.text@.len() == 0,
    {
        FormatterContext { current_expected: None, is_line_first_token: true, text: Vec::new() }
    }

    /// Remove every trailing space from the emitted text, in place.
    pub fn reset_whitespace(&mut self)
        ensures
            final(self).text@ == spec_without_trailing_spaces(old(self).text@),
            final(self).current_expected == old(self).current_expected,
            final(self).is_line_first_token == old(self).is_line_first_token,
    {
        while self.text.len() > 0 && self.text[self.text.len() - 1] == ' '
            invariant
                spec_without_trailing_spaces(old(self).text@) == spec_without_trailing_spaces(
                    self.text@,
                ),
                self.current_expected == old(self).current_expected,
                self.is_line_first_token == old(self).is_line_first_token,
            decreases self.text@.len(),
        {
            self.text.pop();
        }
    }

    /// The emitted text.
    pub fn formatted_text(&self) -> (r: String)
        ensures
            r@ == self.text@,
    {
        crate::strutil::chars_to_string(&self.text)
    }
}

/// The formatter over one syntax node, reduced here to the emission
/// context the style rulers adjust.
#[derive(Debug)]
pub struct XmakeFormatter {
    pub context: FormatterContext,
}

impl XmakeFormatter {
    pub fn new() -> (r: XmakeFormatter)
        ensures
            r.context.text@.len() == 0,
    {
        XmakeFormatter { context: FormatterContext::new() }
    }

    /// The formatted text accumulated so far.
    pub fn get_formatted_text(&self) -> (r: String)
        ensures
            r@ == self.context.text@,
    {
        self.context.formatted_text()
    }
}

/// A style rule applied over the whole formatter.
pub trait StyleRuler {
    /// Apply the style rules to the formatter.
    fn apply_style(formatter: &mut XmakeFormatter);
}

/// The basic whitespace ruler: no spaces are left dangling at the end
/// of the emitted text.
pub struct BasicSpaceRuler;

impl StyleRuler for BasicSpaceRuler {
    fn apply_style(formatter: &mut XmakeFormatter) {
        formatter.context.reset_whitespace();
    }
}

/// Apply every registered style ruler.
pub fn apply_styles(formatter: &mut XmakeFormatter) {
    apply_style::<BasicSpaceRuler>(formatter);
}

/// Apply one style ruler.
pub fn apply_style<T: StyleRuler>(formatter: &mut XmakeFormatter) {
    T::apply_style(formatter)
}

} // verus!

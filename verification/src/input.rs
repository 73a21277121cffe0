//! What a text field holds.

use vstd::prelude::*;
use crate::text;
use crate::ui::Span;

verus! {

/// A text being edited: the characters, what is selected, and the part an
/// input method is still composing. Positions count characters; the caret
/// stands at the end of the selection.
#[derive(Debug)]
pub struct TextDocument {
    chars: Vec<char>,
    start: usize,
    end: usize,
    composing: Option<Span>,
}

/// [`TextDocument`] as it is seen from outside.
pub ghost struct Doc {
    pub text: Seq<char>,
    pub selection: Span,
    pub composing: Option<Span>,
}

impl Doc {
    /// A field with nothing in it.
    pub open spec fn empty() -> Doc {
        Doc { text: seq![], selection: Span { start: 0, end: 0 }, composing: None }
    }

    pub open spec fn has_selection(self) -> bool {
        self.selection.start != self.selection.end
    }

    /// The text with the characters from `at.start` to `at.end` replaced.
    pub open spec fn replaced(self, at: Span, s: Seq<char>) -> Seq<char> {
        self.text.take(at.start as int) + s + self.text.skip(at.end as int)
    }

    /// `s` in place of the selection, the caret behind it.
    pub open spec fn inserted(self, s: Seq<char>) -> Doc {
        let caret = (self.selection.start + s.len()) as usize;
        Doc {
            text: self.replaced(self.selection, s),
            selection: Span { start: caret, end: caret },
            composing: None,
        }
    }

    pub open spec fn all_selected(self) -> Doc {
        Doc { selection: Span { start: 0, end: self.text.len() as usize }, ..self }
    }

    /// What a composition takes the place of: the one before it, else the
    /// selection.
    pub open spec fn composed_over(self) -> Span {
        match self.composing {
            Some(c) => c,
            None => self.selection,
        }
    }

    pub open spec fn composed(self, s: Seq<char>) -> Doc {
        let at = self.composed_over();
        let caret = (at.start + s.len()) as usize;
        Doc {
            text: self.replaced(at, s),
            selection: Span { start: caret, end: caret },
            composing: Some(Span { start: at.start, end: caret }),
        }
    }
}

impl View for TextDocument {
    type V = Doc;

    closed spec fn view(&self) -> Doc {
        Doc {
            text: self.chars@,
            selection: Span { start: self.start, end: self.end },
            composing: self.composing,
        }
    }
}

impl TextDocument {
    #[verifier::type_invariant]
    spec fn valid(self) -> bool {
        &&& self.start <= self.end <= self.chars@.len()
        &&& match self.composing {
            Some(c) => c.start <= c.end <= self.chars@.len(),
            None => true,
        }
    }

    pub fn new() -> (r: TextDocument)
        ensures
            r@ == Doc::empty(),
    {
        TextDocument { chars: Vec::new(), start: 0, end: 0, composing: None }
    }

    pub fn text(&self) -> (r: String)
        ensures
            r@ == self@.text,
    {
        text::string(self.chars.as_slice())
    }

    pub fn is_empty(&self) -> (r: bool)
        ensures
            r == (self@.text.len() == 0),
    {
        self.chars.len() == 0
    }

    pub fn selection(&self) -> (r: Span)
        ensures
            r == self@.selection,
            r.start <= r.end <= self@.text.len(),
    {
        proof {
            use_type_invariant(self);
        }
        Span { start: self.start, end: self.end }
    }

    pub fn has_selection(&self) -> (r: bool)
        ensures
            r == self@.has_selection(),
    {
        self.start != self.end
    }

    /// Where the caret stands.
    pub fn caret(&self) -> (r: usize)
        ensures
            r == self@.selection.end,
    {
        self.end
    }

    pub fn composing(&self) -> (r: Option<Span>)
        ensures
            r == self@.composing,
            r matches Some(c) ==> c.start <= c.end <= self@.text.len(),
    {
        proof {
            use_type_invariant(self);
        }
        self.composing
    }

    /// The text with `at` replaced, and where `s` ends in it.
    fn replaced(&self, at: Span, s: &str) -> (r: (Vec<char>, usize))
        requires
            at.start <= at.end <= self@.text.len(),
        ensures
            r.0@ == self@.replaced(at, s@),
            r.1 == at.start + s@.len(),
            r.1 <= r.0@.len(),
    {
        let mut out: Vec<char> = Vec::new();
        let mut i: usize = 0;
        while i < at.start
            invariant
                i <= at.start <= self.chars@.len(),
                out@ =~= self.chars@.take(i as int),
            decreases at.start - i,
        {
            out.push(self.chars[i]);
            i += 1;
        }
        let added = text::chars(s);
        let mut k: usize = 0;
        while k < added.len()
            invariant
                k <= added@.len(),
                added@ == s@,
                at.start <= self.chars@.len(),
                out@ =~= self.chars@.take(at.start as int) + s@.take(k as int),
            decreases added@.len() - k,
        {
            out.push(added[k]);
            k += 1;
        }
        let end = out.len();
        let mut j: usize = at.end;
        while j < self.chars.len()
            invariant
                at.start <= at.end <= j <= self.chars@.len(),
                out@ =~= self.chars@.take(at.start as int) + s@ + self.chars@.subrange(
                    at.end as int,
                    j as int,
                ),
            decreases self.chars@.len() - j,
        {
            out.push(self.chars[j]);
            j += 1;
        }
        assert(out@ =~= self@.replaced(at, s@));
        (out, end)
    }

    /// Types `s`: it takes the place of the selection.
    pub fn insert(&mut self, s: &str)
        ensures
            final(self)@ == old(self)@.inserted(s@),
    {
        proof {
            use_type_invariant(&*self);
        }
        let (chars, end) = self.replaced(Span { start: self.start, end: self.end }, s);
        *self = TextDocument { chars, start: end, end, composing: None };
    }

    pub fn select_all(&mut self)
        ensures
            final(self)@ == old(self)@.all_selected(),
    {
        proof {
            use_type_invariant(&*self);
        }
        let end = self.chars.len();
        self.end = end;
        self.start = 0;
    }

    /// Shows what an input method has so far. It takes the place of what it
    /// showed before, else of the selection.
    pub fn set_composition(&mut self, s: &str)
        ensures
            final(self)@ == old(self)@.composed(s@),
    {
        proof {
            use_type_invariant(&*self);
        }
        let at = match self.composing {
            Some(c) => c,
            None => Span { start: self.start, end: self.end },
        };
        let (chars, end) = self.replaced(at, s);
        *self = TextDocument {
            chars,
            start: end,
            end,
            composing: Some(Span { start: at.start, end }),
        };
    }

    /// Empties the field and hands out what it held.
    pub fn take(&mut self) -> (r: String)
        ensures
            r@ == old(self)@.text,
            final(self)@ == Doc::empty(),
    {
        let r = self.text();
        *self = TextDocument::new();
        r
    }
}

} // verus!

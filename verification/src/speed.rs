//! The speed a caller asks for: a signed decimal numeral.
//!
//! A speed is kept as the text that will go on the wire, split into its sign
//! and its unsigned part, so that reversing a direction is a change of sign
//! and nothing else.

use crate::numeral::{
    is_digit, is_magnitude, is_magnitude_text, is_number, lemma_number_alphabet,
    splits_as_magnitude, MINUS,
};
use vstd::prelude::*;
use vstd::string::*;

verus! {

/// A signed decimal numeral: the model of a [`Speed`].
pub struct Numeral {
    pub negative: bool,
    pub magnitude: Seq<char>,
}

impl Numeral {
    /// The unsigned part is an unsigned JSON number.
    pub open spec fn wf(self) -> bool {
        is_magnitude(self.magnitude)
    }

    /// The numeral as it is written.
    pub open spec fn text(self) -> Seq<char> {
        if self.negative {
            seq!['-'] + self.magnitude
        } else {
            self.magnitude
        }
    }

    /// The numeral of the opposite sign.
    pub open spec fn negated(self) -> Numeral {
        Numeral { negative: !self.negative, magnitude: self.magnitude }
    }
}

/// The numeral that `text` writes: a leading minus sign is the sign, the rest
/// the unsigned part.
pub open spec fn numeral_of(text: Seq<char>) -> Numeral {
    if text.len() > 0 && text[0] == '-' {
        Numeral { negative: true, magnitude: text.skip(1) }
    } else {
        Numeral { negative: false, magnitude: text }
    }
}

/// An unsigned numeral starts with a digit.
pub proof fn lemma_magnitude_starts_with_digit(s: Seq<char>)
    requires
        is_magnitude(s),
    ensures
        s.len() > 0,
        is_digit(s[0]),
{
    let (i, f) = choose|i: int, f: int| splits_as_magnitude(s, i, f);
    assert(is_digit(s[0]));
}

/// Text is a JSON number exactly when the numeral it writes is well formed,
/// and that numeral is written as the text.
pub proof fn lemma_numeral_of_text(text: Seq<char>)
    ensures
        is_number(text) <==> numeral_of(text).wf(),
        numeral_of(text).text() == text,
{
    if text.len() > 0 && text[0] == '-' {
        if is_magnitude(text) {
            lemma_magnitude_starts_with_digit(text);
        }
        assert(seq!['-'] + text.skip(1) =~= text);
    }
}

/// Writing a well-formed numeral and reading the text again gives the
/// numeral back, and the text is a JSON number.
pub proof fn lemma_text_of_numeral(n: Numeral)
    requires
        n.wf(),
    ensures
        is_number(n.text()),
        numeral_of(n.text()) == n,
{
    lemma_magnitude_starts_with_digit(n.magnitude);
    if n.negative {
        assert((seq!['-'] + n.magnitude).skip(1) =~= n.magnitude);
    }
}

/// Changing the sign twice changes nothing, and a change of sign keeps a
/// numeral well formed.
pub proof fn lemma_negated_twice(n: Numeral)
    ensures
        n.negated().negated() == n,
        n.negated().wf() == n.wf(),
        n.negated().negative != n.negative,
{
}

/// A speed: positive drives forward. Every value of this type is a
/// well-formed numeral, so it has a finite value and a JSON spelling, and
/// whatever hands one out says so.
pub struct Speed {
    negative: bool,
    magnitude: String,
}

impl View for Speed {
    type V = Numeral;

    closed spec fn view(&self) -> Numeral {
        Numeral { negative: self.negative, magnitude: self.magnitude@ }
    }
}

impl Speed {
    /// What holds of every speed: its unsigned part is an unsigned number.
    #[verifier::type_invariant]
    spec fn well_formed(&self) -> bool {
        is_magnitude(self.magnitude@)
    }

    /// Reads a speed from its JSON spelling. Text that is not a JSON number
    /// (`null`, `NaN`, the empty string) is no speed.
    pub fn parse(text: &str) -> (r: Option<Speed>)
        ensures
            r is Some <==> is_number(text@),
            r matches Some(speed) ==> speed@ == numeral_of(text@) && speed@.wf(),
    {
        proof {
            lemma_numeral_of_text(text@);
        }
        if !text.is_ascii() {
            proof {
                if is_number(text@) {
                    lemma_number_alphabet(text@);
                }
            }
            return None;
        }
        proof {
            vstd::utf8::is_ascii_chars_nat_bound(text@);
        }
        let n: usize = text.unicode_len();
        if n > 0 && text.get_ascii(0) == MINUS {
            let rest = text.substring_ascii(1, n);
            assert(rest@ =~= text@.skip(1));
            if is_magnitude_text(rest) {
                Some(Speed { negative: true, magnitude: String::from_str(rest) })
            } else {
                None
            }
        } else {
            if is_magnitude_text(text) {
                Some(Speed { negative: false, magnitude: String::from_str(text) })
            } else {
                None
            }
        }
    }

    /// The speed of the same size in the opposite direction.
    pub fn negated(&self) -> (r: Speed)
        ensures
            r@ == self@.negated(),
            r@.wf(),
    {
        proof {
            use_type_invariant(self);
        }
        Speed { negative: !self.negative, magnitude: self.magnitude.clone() }
    }

    /// Whether the speed carries a minus sign.
    pub fn is_negative(&self) -> (r: bool)
        ensures
            r == self@.negative,
    {
        self.negative
    }

    /// The JSON spelling of the speed.
    pub fn text(&self) -> (r: String)
        ensures
            r@ == self@.text(),
            is_number(r@),
    {
        proof {
            use_type_invariant(self);
            lemma_text_of_numeral(self@);
        }
        if self.negative {
            let mut t = String::from_str("-");
            proof {
                reveal_strlit("-");
            }
            t.append(self.magnitude.as_str());
            assert(t@ =~= seq!['-'] + self.magnitude@);
            t
        } else {
            self.magnitude.clone()
        }
    }
}

impl Clone for Speed {
    fn clone(&self) -> (r: Self)
        ensures
            r@ == self@,
            r@.wf(),
    {
        proof {
            use_type_invariant(self);
        }
        Speed { negative: self.negative, magnitude: self.magnitude.clone() }
    }
}

} // verus!

//! Reserved words.
use vstd::prelude::*;

verus! {

/// A reserved word of the language.
#[derive(Clone, Copy, Debug, PartialEq, Eq, Structural)]
pub enum Keyword {
    Function,
    Let,
    Ret,
    If,
    Else,
    Loop,
    Break,
    Type,
}

/// How each keyword is spelled.
pub open spec fn keyword_text(k: Keyword) -> Seq<char> {
    match k {
        Keyword::Function => seq!['f', 'n'],
        Keyword::Let => seq!['l', 'e', 't'],
        Keyword::Ret => seq!['r', 'e', 't'],
        Keyword::If => seq!['i', 'f'],
        Keyword::Else => seq!['e', 'l', 's', 'e'],
        Keyword::Loop => seq!['l', 'o', 'o', 'p'],
        Keyword::Break => seq!['b', 'r', 'e', 'a', 'k'],
        Keyword::Type => seq!['t', 'y', 'p', 'e'],
    }
}

/// True when `text` spells a keyword.
pub open spec fn is_keyword_text(text: Seq<char>) -> bool {
    exists|k: Keyword| keyword_text(k) == text
}

/// The keyword spelled by `text`, if any.
pub open spec fn spec_keyword_of(text: Seq<char>) -> Option<Keyword> {
    if is_keyword_text(text) {
        Some(choose|k: Keyword| keyword_text(k) == text)
    } else {
        None
    }
}

/// Distinct keywords are spelled differently.
pub proof fn lemma_keyword_text_injective(a: Keyword, b: Keyword)
    requires
        keyword_text(a) == keyword_text(b),
    ensures
        a == b,
{
    if a != b {
        match a {
            Keyword::Function => match b {
                _ => assert(keyword_text(b).len() != 2 || keyword_text(b)[0] != 'f'),
            },
            Keyword::Let => match b {
                _ => assert(keyword_text(b).len() != 3 || keyword_text(b)[0] != 'l'),
            },
            Keyword::Ret => match b {
                _ => assert(keyword_text(b).len() != 3 || keyword_text(b)[0] != 'r'),
            },
            Keyword::If => match b {
                _ => assert(keyword_text(b).len() != 2 || keyword_text(b)[0] != 'i'),
            },
            Keyword::Else => match b {
                _ => assert(keyword_text(b).len() != 4 || keyword_text(b)[0] != 'e'),
            },
            Keyword::Loop => match b {
                _ => assert(keyword_text(b).len() != 4 || keyword_text(b)[0] != 'l'),
            },
            Keyword::Break => match b {
                _ => assert(keyword_text(b).len() != 5 || keyword_text(b)[0] != 'b'),
            },
            Keyword::Type => match b {
                _ => assert(keyword_text(b).len() != 4 || keyword_text(b)[0] != 't'),
            },
        }
    }
}

/// The keyword read back from its own spelling is that keyword.
pub proof fn lemma_keyword_of_text(k: Keyword)
    ensures
        spec_keyword_of(keyword_text(k)) == Some(k),
{
    assert(is_keyword_text(keyword_text(k)));
    let c = choose|c: Keyword| keyword_text(c) == keyword_text(k);
    lemma_keyword_text_injective(c, k);
}

fn chars_equal(text: &Vec<char>, expected: &[char]) -> (b: bool)
    ensures
        b == (text@ == expected@),
{
    if text.len() != expected.len() {
        return false;
    }
    let mut i: usize = 0;
    while i < text.len()
        invariant
            text@.len() == expected@.len(),
            i <= text@.len(),
            forall|j: int| 0 <= j < i ==> text@[j] == expected@[j],
        decreases text@.len() - i,
    {
        if text[i] != expected[i] {
            return false;
        }
        i += 1;
    }
    assert(text@ =~= expected@);
    true
}

impl Keyword {
    /// The keyword spelled exactly by `text`, if any.
    pub fn build_from_chars(text: &Vec<char>) -> (r: Option<Keyword>)
        ensures
            r == spec_keyword_of(text@),
    {
        let candidates: [Keyword; 8] = [
            Keyword::Function,
            Keyword::Let,
            Keyword::Ret,
            Keyword::If,
            Keyword::Else,
            Keyword::Loop,
            Keyword::Break,
            Keyword::Type,
        ];
        let mut i: usize = 0;
        while i < 8
            invariant
                i <= 8,
                candidates@ == seq![
                    Keyword::Function,
                    Keyword::Let,
                    Keyword::Ret,
                    Keyword::If,
                    Keyword::Else,
                    Keyword::Loop,
                    Keyword::Break,
                    Keyword::Type,
                ],
                forall|j: int| 0 <= j < i ==> keyword_text(#[trigger] candidates@[j]) != text@,
            decreases 8 - i,
        {
            let k = candidates[i];
            let spelled = k.text_chars();
            if chars_equal(text, spelled.as_slice()) {
                proof {
                    lemma_keyword_of_text(k);
                }
                return Some(k);
            }
            i += 1;
        }
        proof {
            assert forall|k: Keyword| keyword_text(k) != text@ by {
                match k {
                    Keyword::Function => assert(candidates@[0] == k),
                    Keyword::Let => assert(candidates@[1] == k),
                    Keyword::Ret => assert(candidates@[2] == k),
                    Keyword::If => assert(candidates@[3] == k),
                    Keyword::Else => assert(candidates@[4] == k),
                    Keyword::Loop => assert(candidates@[5] == k),
                    Keyword::Break => assert(candidates@[6] == k),
                    Keyword::Type => assert(candidates@[7] == k),
                }
            }
        }
        None
    }

    /// The keyword spelled exactly by `text`, if any.
    pub fn build_from_string(text: &str) -> (r: Option<Keyword>)
        ensures
            r == spec_keyword_of(text@),
    {
        let chars = crate::text::str_chars(text);
        Keyword::build_from_chars(&chars)
    }

    /// The spelling of the keyword.
    pub fn text_chars(&self) -> (v: Vec<char>)
        ensures
            v@ == keyword_text(*self),
    {
        let v = match self {
            Keyword::Function => vec!['f', 'n'],
            Keyword::Let => vec!['l', 'e', 't'],
            Keyword::Ret => vec!['r', 'e', 't'],
            Keyword::If => vec!['i', 'f'],
            Keyword::Else => vec!['e', 'l', 's', 'e'],
            Keyword::Loop => vec!['l', 'o', 'o', 'p'],
            Keyword::Break => vec!['b', 'r', 'e', 'a', 'k'],
            Keyword::Type => vec!['t', 'y', 'p', 'e'],
        };
        assert(v@ =~= keyword_text(*self));
        v
    }
}

} // verus!

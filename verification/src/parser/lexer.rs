//! Splits Jang source text into tokens.
use vstd::prelude::*;
use crate::error::{JangError, JangErrorView, JangResult};
use crate::parser::token::ident::Ident;
use crate::parser::token::keyword::{keyword_text, lemma_keyword_of_text, spec_keyword_of, Keyword};
use crate::parser::token::literal::{
    spec_numeric_literal, Literal, LiteralView, NumericLiteral,
};
use crate::parser::token::operator::{op_char, spec_can_join, Op, Operator};
use crate::parser::token::{JangToken, TokenView};
use crate::source_location::SourceLocation;
use crate::text::{push_char, push_str, string_of_chars};

verus! {

/// ASCII whitespace: space, tab, line feed, form feed, carriage return.
pub open spec fn is_ascii_ws(c: char) -> bool {
    c == ' ' || c == '\t' || c == '\n' || c == '\x0C' || c == '\r'
}

/// The ASCII decimal digits.
pub open spec fn is_ascii_digit(c: char) -> bool {
    '0' <= c && c <= '9'
}

/// The ASCII letters.
pub open spec fn is_ascii_alpha(c: char) -> bool {
    ('a' <= c && c <= 'z') || ('A' <= c && c <= 'Z')
}

/// Characters that may continue an identifier.
pub open spec fn spec_is_ident_char(c: char) -> bool {
    is_ascii_alpha(c) || is_ascii_digit(c) || c == '_'
}

/// Characters that may continue a numeric literal.
pub open spec fn spec_is_numeric_char(c: char) -> bool {
    is_ascii_digit(c) || c == '.'
}

/// Characters that start an identifier or keyword.
pub open spec fn is_ident_start(c: char) -> bool {
    is_ascii_alpha(c) || c == '_'
}

/// The operator characters that the lexer accepts.
pub open spec fn is_lexer_op_char(c: char) -> bool {
    c == '=' || c == ',' || c == '(' || c == ')' || c == '{' || c == '}' || c == '-' || c == '<'
        || c == '>' || c == ':' || c == '.' || c == '+' || c == '*' || c == '/' || c == '%'
        || c == '|'
}

/// The character class that a run of characters is read with.
#[derive(Clone, Copy, Debug, PartialEq, Eq, Structural)]
pub enum CharClass {
    Ident,
    Numeric,
}

/// The character belongs to the class.
pub open spec fn in_class(class: CharClass, c: char) -> bool {
    match class {
        CharClass::Ident => spec_is_ident_char(c),
        CharClass::Numeric => spec_is_numeric_char(c),
    }
}

/// The first position at or after `i` that is not whitespace.
pub open spec fn skip_ws(s: Seq<char>, i: int) -> int
    decreases s.len() - i,
{
    if 0 <= i < s.len() && is_ascii_ws(s[i]) {
        skip_ws(s, i + 1)
    } else {
        i
    }
}

/// The end of the run of characters of `class` that starts at `i`.
pub open spec fn run_end(s: Seq<char>, i: int, class: CharClass) -> int
    decreases s.len() - i,
{
    if 0 <= i < s.len() && in_class(class, s[i]) {
        run_end(s, i + 1, class)
    } else {
        i
    }
}

/// The operator spelled by `c`.
pub open spec fn op_of_char(c: char) -> Op {
    choose|op: Op| op_char(op) == c
}

/// The message of the error for a character that starts no token.
pub open spec fn unexpected_symbol_message(c: char) -> Seq<char> {
    "Unexpected symbol '"@ + seq![c] + "'"@
}

/// One step of the lexer over the text `s`: from position `i`, with a joint
/// token pending or not, the token read (`None` at the end of the text), the
/// position after it and whether a joint token is pending after it.
pub open spec fn spec_next(s: Seq<char>, i: int, joint: bool) -> (
    Option<Result<TokenView, JangErrorView>>,
    int,
    bool,
) {
    if joint {
        (Some(Ok(TokenView::Joint)), i, false)
    } else {
        let j = skip_ws(s, i);
        if j >= s.len() {
            (None, j, false)
        } else {
            let c = s[j];
            if is_ident_start(c) {
                let e = run_end(s, j + 1, CharClass::Ident);
                let text = s.subrange(j, e);
                match spec_keyword_of(text) {
                    Some(k) => (Some(Ok(TokenView::Keyword(k))), e, false),
                    None => (Some(Ok(TokenView::Ident(text))), e, e < s.len() && s[e] == '('),
                }
            } else if is_ascii_digit(c) || (c == '.' && j + 1 < s.len() && is_ascii_digit(
                s[j + 1],
            )) {
                let e = run_end(s, j + 1, CharClass::Numeric);
                (
                    Some(
                        Ok(
                            TokenView::Literal(
                                LiteralView::Numeric(spec_numeric_literal(s.subrange(j, e))),
                            ),
                        ),
                    ),
                    e,
                    false,
                )
            } else if is_lexer_op_char(c) {
                let op = op_of_char(c);
                (
                    Some(Ok(TokenView::Operator(op))),
                    j + 1,
                    j + 1 < s.len() && spec_can_join(op, s[j + 1]),
                )
            } else {
                (Some(Err(JangErrorView::Parse((unexpected_symbol_message(c), 0)))), j + 1, false)
            }
        }
    }
}

/// The measure that each step of the lexer decreases.
pub open spec fn lex_measure(s: Seq<char>, i: int, joint: bool) -> int {
    2 * (s.len() - i) + if joint { 1int } else { 0int }
}

/// Skipping whitespace stops within the text, after whitespace only, at a
/// character that is not whitespace or at the end.
pub proof fn lemma_skip_ws_bounds(s: Seq<char>, i: int)
    requires
        0 <= i <= s.len(),
    ensures
        i <= skip_ws(s, i) <= s.len(),
        forall|k: int| i <= k < skip_ws(s, i) ==> is_ascii_ws(#[trigger] s[k]),
        skip_ws(s, i) < s.len() ==> !is_ascii_ws(s[skip_ws(s, i)]),
    decreases s.len() - i,
{
    if i < s.len() && is_ascii_ws(s[i]) {
        lemma_skip_ws_bounds(s, i + 1);
    }
}

/// A run of a class stops within the text, after characters of the class
/// only, at a character outside it or at the end.
pub proof fn lemma_run_end_bounds(s: Seq<char>, i: int, class: CharClass)
    requires
        0 <= i <= s.len(),
    ensures
        i <= run_end(s, i, class) <= s.len(),
        forall|k: int| i <= k < run_end(s, i, class) ==> in_class(class, #[trigger] s[k]),
        run_end(s, i, class) < s.len() ==> !in_class(class, s[run_end(s, i, class)]),
    decreases s.len() - i,
{
    if i < s.len() && in_class(class, s[i]) {
        lemma_run_end_bounds(s, i + 1, class);
    }
}

/// Every step that reads a token stays within the text and decreases the
/// measure.
pub proof fn lemma_next_progress(s: Seq<char>, i: int, joint: bool)
    requires
        0 <= i <= s.len(),
    ensures
        0 <= spec_next(s, i, joint).1 <= s.len(),
        spec_next(s, i, joint).0 is Some ==> lex_measure(
            s,
            spec_next(s, i, joint).1,
            spec_next(s, i, joint).2,
        ) < lex_measure(s, i, joint),
{
    lemma_skip_ws_bounds(s, i);
    if !joint {
        let j = skip_ws(s, i);
        if j < s.len() {
            lemma_run_end_bounds(s, j + 1, CharClass::Ident);
            lemma_run_end_bounds(s, j + 1, CharClass::Numeric);
        }
    }
}

/// The whole text lexed from position `i`: the tokens up to the end of the
/// text, or the first error.
pub open spec fn spec_lex(s: Seq<char>, i: int, joint: bool) -> Result<
    Seq<TokenView>,
    JangErrorView,
>
    decreases lex_measure(s, i, joint),
    when 0 <= i <= s.len()
    via lex_decreases
{
    let step = spec_next(s, i, joint);
    match step.0 {
        None => Ok(Seq::empty()),
        Some(Err(e)) => Err(e),
        Some(Ok(t)) => match spec_lex(s, step.1, step.2) {
            Ok(ts) => Ok(seq![t] + ts),
            Err(e) => Err(e),
        },
    }
}

#[via_fn]
proof fn lex_decreases(s: Seq<char>, i: int, joint: bool) {
    lemma_next_progress(s, i, joint);
}

/// The tokens of the whole text `s`, or the first error.
pub open spec fn spec_tokens(s: Seq<char>) -> Result<Seq<TokenView>, JangErrorView> {
    spec_lex(s, 0, false)
}

/// A joint token only comes right after an identifier or an operator: the
/// tokens that can join what follows them.
pub open spec fn joints_follow_joinable(ts: Seq<TokenView>) -> bool {
    forall|k: int|
        0 <= k < ts.len() && (#[trigger] ts[k]) is Joint ==> k > 0 && (ts[k - 1] is Ident
            || ts[k - 1] is Operator)
}

/// No identifier token spells a keyword.
pub open spec fn idents_not_keywords(ts: Seq<TokenView>) -> bool {
    forall|k: int|
        0 <= k < ts.len() ==> ((#[trigger] ts[k]) matches TokenView::Ident(t) ==> spec_keyword_of(
            t,
        ) is None)
}

proof fn lemma_lex_shape(s: Seq<char>, i: int, joint: bool)
    requires
        0 <= i <= s.len(),
    ensures
        spec_lex(s, i, joint) matches Ok(ts) ==> {
            &&& forall|k: int|
                1 <= k < ts.len() && (#[trigger] ts[k]) is Joint ==> (ts[k - 1] is Ident
                    || ts[k - 1] is Operator)
            &&& (ts.len() > 0 && ts[0] is Joint ==> joint)
            &&& idents_not_keywords(ts)
        },
    decreases lex_measure(s, i, joint),
{
    lemma_next_progress(s, i, joint);
    let step = spec_next(s, i, joint);
    if let Some(Ok(t)) = step.0 {
        lemma_lex_shape(s, step.1, step.2);
        if let Ok(rest) = spec_lex(s, step.1, step.2) {
            let ts = seq![t] + rest;
            assert(spec_lex(s, i, joint) == Ok::<Seq<TokenView>, JangErrorView>(ts));
            assert(step.2 ==> (t is Ident || t is Operator));
            assert(joint ==> !step.2);
            assert forall|k: int|
                1 <= k < ts.len() && (#[trigger] ts[k]) is Joint implies (ts[k - 1] is Ident
                || ts[k - 1] is Operator) by {
                assert(ts[k] == rest[k - 1]);
                if k > 1 {
                    assert(ts[k - 1] == rest[k - 2]);
                }
            }
            assert forall|k: int| 0 <= k < ts.len() implies ((#[trigger] ts[k]) matches TokenView::Ident(
                txt,
            ) ==> spec_keyword_of(txt) is None) by {
                if k > 0 {
                    assert(ts[k] == rest[k - 1]);
                }
            }
        }
    }
}

/// The shape of every token sequence the lexer yields: a joint token comes
/// only right after an identifier or an operator, and no identifier spells
/// a keyword.
pub proof fn lemma_token_sequence_shape(s: Seq<char>)
    ensures
        spec_tokens(s) matches Ok(ts) ==> joints_follow_joinable(ts) && idents_not_keywords(ts),
{
    lemma_lex_shape(s, 0, false);
}

/// Whether `ch` may continue an identifier.
pub fn is_ident_char(ch: &char) -> (b: bool)
    ensures
        b == spec_is_ident_char(*ch),
{
    let c = *ch;
    ('a' <= c && c <= 'z') || ('A' <= c && c <= 'Z') || ('0' <= c && c <= '9') || c == '_'
}

/// Whether `ch` may continue a numeric literal.
pub fn is_numeric_char(ch: &char) -> (b: bool)
    ensures
        b == spec_is_numeric_char(*ch),
{
    let c = *ch;
    ('0' <= c && c <= '9') || c == '.'
}

fn is_whitespace(c: char) -> (b: bool)
    ensures
        b == is_ascii_ws(c),
{
    c == ' ' || c == '\t' || c == '\n' || c == '\x0C' || c == '\r'
}

fn char_in_class(class: CharClass, c: char) -> (b: bool)
    ensures
        b == in_class(class, c),
{
    match class {
        CharClass::Ident => is_ident_char(&c),
        CharClass::Numeric => is_numeric_char(&c),
    }
}

/// A lexer over a text: reads one token at a time.
pub struct TokenIter {
    chars: Vec<char>,
    pos: usize,
    should_emit_joint: bool,
}

impl TokenIter {
    /// The text being read.
    pub closed spec fn text(&self) -> Seq<char> {
        self.chars@
    }

    /// The position of the next character to read.
    pub closed spec fn position(&self) -> int {
        self.pos as int
    }

    /// Whether a joint token is due before the next token.
    pub closed spec fn joint_pending(&self) -> bool {
        self.should_emit_joint
    }

    pub closed spec fn wf(&self) -> bool {
        self.pos <= self.chars@.len() <= usize::MAX
    }

    fn peek(&self) -> (r: Option<char>)
        requires
            self.wf(),
        ensures
            r == if self.pos < self.chars@.len() {
                Some(self.chars@[self.pos as int])
            } else {
                None::<char>
            },
    {
        if self.pos < self.chars.len() {
            Some(self.chars[self.pos])
        } else {
            None
        }
    }

    fn consume_all_whitespace(&mut self)
        requires
            old(self).wf(),
        ensures
            final(self).wf(),
            final(self).chars@ == old(self).chars@,
            final(self).should_emit_joint == old(self).should_emit_joint,
            final(self).pos == skip_ws(old(self).chars@, old(self).pos as int),
    {
        proof {
            lemma_skip_ws_bounds(self.chars@, self.pos as int);
        }
        while self.pos < self.chars.len() && is_whitespace(self.chars[self.pos])
            invariant
                self.chars@ == old(self).chars@,
                self.should_emit_joint == old(self).should_emit_joint,
                old(self).pos <= self.pos <= self.chars@.len(),
                skip_ws(self.chars@, self.pos as int) == skip_ws(
                    old(self).chars@,
                    old(self).pos as int,
                ),
            decreases self.chars@.len() - self.pos,
        {
            self.pos = self.pos + 1;
        }
    }

    /// Reads the run of characters of `class` that follows, after `first_char`.
    fn collect_while(&mut self, first_char: char, class: CharClass) -> (r: String)
        requires
            old(self).wf(),
        ensures
            final(self).wf(),
            final(self).chars@ == old(self).chars@,
            final(self).should_emit_joint == old(self).should_emit_joint,
            final(self).pos == run_end(old(self).chars@, old(self).pos as int, class),
            r@ == seq![first_char] + old(self).chars@.subrange(
                old(self).pos as int,
                final(self).pos as int,
            ),
    {
        let start = self.pos;
        proof {
            lemma_run_end_bounds(self.chars@, self.pos as int, class);
        }
        let mut text: Vec<char> = Vec::new();
        text.push(first_char);
        while self.pos < self.chars.len() && char_in_class(class, self.chars[self.pos])
            invariant
                self.chars@ == old(self).chars@,
                self.should_emit_joint == old(self).should_emit_joint,
                start == old(self).pos,
                start <= self.pos <= self.chars@.len(),
                run_end(self.chars@, self.pos as int, class) == run_end(
                    self.chars@,
                    start as int,
                    class,
                ),
                text@ == seq![first_char] + self.chars@.subrange(start as int, self.pos as int),
            decreases self.chars@.len() - self.pos,
        {
            text.push(self.chars[self.pos]);
            self.pos = self.pos + 1;
            assert(text@ =~= seq![first_char] + self.chars@.subrange(
                start as int,
                self.pos as int,
            ));
        }
        string_of_chars(&text)
    }

    fn parse_ident_or_keyword(&mut self, first_char: char) -> (r: JangResult<JangToken>)
        requires
            old(self).wf(),
            old(self).pos >= 1,
            old(self).chars@[old(self).pos - 1] == first_char,
            !old(self).should_emit_joint,
        ensures
            final(self).wf(),
            final(self).chars@ == old(self).chars@,
            ({
                let s = old(self).chars@;
                let j = old(self).pos - 1;
                let e = run_end(s, j + 1, CharClass::Ident);
                let text = s.subrange(j, e);
                &&& final(self).pos == e
                &&& match spec_keyword_of(text) {
                    Some(k) => r == Ok::<JangToken, JangError>(JangToken::Keyword(k))
                        && !final(self).should_emit_joint,
                    None => r matches Ok(t) && t@ == TokenView::Ident(text)
                        && final(self).should_emit_joint == (e < s.len() && s[e] == '('),
                }
            }),
    {
        let ghost s = self.chars@;
        let ghost j = self.pos - 1;
        let ident = self.collect_while(first_char, CharClass::Ident);
        proof {
            lemma_run_end_bounds(s, j + 1, CharClass::Ident);
            assert(ident@ =~= s.subrange(j, self.pos as int));
        }
        let chars = crate::text::str_chars(ident.as_str());
        if let Some(keyword) = Keyword::build_from_chars(&chars) {
            Ok(JangToken::Keyword(keyword))
        } else {
            if let Some(next) = self.peek() {
                if next == '(' {
                    // Identifiers join to open parenthesis, to disambiguate function calls
                    // from an expression on one line that ends with an ident, followed by
                    // an expression on the next line that starts with open parenthesis.
                    self.should_emit_joint = true;
                }
            }
            Ok(JangToken::Ident(Ident::new(ident)))
        }
    }

    fn parse_numeric(&mut self, first_char: char) -> (r: JangToken)
        requires
            old(self).wf(),
            old(self).pos >= 1,
            old(self).chars@[old(self).pos - 1] == first_char,
        ensures
            final(self).wf(),
            final(self).chars@ == old(self).chars@,
            final(self).should_emit_joint == old(self).should_emit_joint,
            ({
                let s = old(self).chars@;
                let j = old(self).pos - 1;
                let e = run_end(s, j + 1, CharClass::Numeric);
                &&& final(self).pos == e
                &&& r@ == TokenView::Literal(
                    LiteralView::Numeric(spec_numeric_literal(s.subrange(j, e))),
                )
            }),
    {
        let ghost s = self.chars@;
        let ghost j = self.pos - 1;
        let numeric = self.collect_while(first_char, CharClass::Numeric);
        proof {
            lemma_run_end_bounds(s, j + 1, CharClass::Numeric);
            assert(numeric@ =~= s.subrange(j, self.pos as int));
        }
        JangToken::Literal(Literal::from(NumericLiteral::from_str(numeric)))
    }

    fn parse_operator(&mut self, first_char: char) -> (r: JangToken)
        requires
            old(self).wf(),
            !old(self).should_emit_joint,
            exists|op: Op| op_char(op) == first_char,
        ensures
            final(self).wf(),
            final(self).chars@ == old(self).chars@,
            final(self).pos == old(self).pos,
            r@ == TokenView::Operator(op_of_char(first_char)),
            final(self).should_emit_joint == (old(self).pos < old(self).chars@.len()
                && spec_can_join(op_of_char(first_char), old(self).chars@[old(self).pos as int])),
    {
        let op = match Op::from_char(first_char) {
            Some(op) => op,
            None => {
                proof {
                    let w = choose|op: Op| op_char(op) == first_char;
                }
                return JangToken::Joint;
            },
        };
        proof {
            let w = choose|o: Op| op_char(o) == first_char;
            crate::parser::token::operator::lemma_op_char_injective(op, w);
        }
        if let Some(next_char) = self.peek() {
            if op.can_join(next_char) {
                self.should_emit_joint = true;
            }
        }
        JangToken::Operator(Operator::new(op))
    }

    fn parse_next(&mut self) -> (r: JangResult<Option<JangToken>>)
        requires
            old(self).wf(),
            !old(self).should_emit_joint,
        ensures
            final(self).wf(),
            final(self).chars@ == old(self).chars@,
            ({
                let step = spec_next(old(self).chars@, old(self).pos as int, false);
                &&& final(self).pos == step.1
                &&& final(self).should_emit_joint == step.2
                &&& match step.0 {
                    None => r matches Ok(None),
                    Some(Ok(t)) => r matches Ok(Some(tok)) && tok@ == t,
                    Some(Err(e)) => r matches Err(err) && err@ == e,
                }
            }),
    {
        let ghost s = self.chars@;
        self.consume_all_whitespace();
        proof {
            lemma_skip_ws_bounds(s, old(self).pos as int);
        }
        let first_char = match self.peek() {
            None => return Ok(None),
            Some(c) => c,
        };
        assert(self.pos < self.chars@.len());
        self.pos = self.pos + 1;
        if ('a' <= first_char && first_char <= 'z') || ('A' <= first_char && first_char <= 'Z')
            || first_char == '_' {
            let tok = self.parse_ident_or_keyword(first_char)?;
            Ok(Some(tok))
        } else if '0' <= first_char && first_char <= '9' {
            Ok(Some(self.parse_numeric(first_char)))
        } else if first_char == '.' {
            let next_is_digit = match self.peek() {
                Some(c) => '0' <= c && c <= '9',
                None => false,
            };
            if next_is_digit {
                Ok(Some(self.parse_numeric('.')))
            } else {
                proof {
                    assert(op_char(Op::Dot) == '.');
                }
                Ok(Some(self.parse_operator('.')))
            }
        } else if first_char == '=' || first_char == ',' || first_char == '(' || first_char == ')'
            || first_char == '{' || first_char == '}' || first_char == '-' || first_char == '<'
            || first_char == '>' || first_char == ':' || first_char == '+' || first_char == '*'
            || first_char == '/' || first_char == '%' || first_char == '|' {
            proof {
                lemma_lexer_op_char_is_op(first_char);
            }
            Ok(Some(self.parse_operator(first_char)))
        } else {
            let mut message = String::new();
            push_str(&mut message, "Unexpected symbol '");
            push_char(&mut message, first_char);
            push_str(&mut message, "'");
            assert(message@ =~= unexpected_symbol_message(first_char));
            Err(JangError::parse_error(message, SourceLocation::new(0)))
        }
    }

    /// The next token, `None` at the end of the text.
    pub fn next(&mut self) -> (r: Option<JangResult<JangToken>>)
        requires
            old(self).wf(),
        ensures
            final(self).wf(),
            final(self).text() == old(self).text(),
            ({
                let step = spec_next(old(self).text(), old(self).position(), old(self).joint_pending());
                &&& view_item(r) == step.0
                &&& final(self).position() == step.1
                &&& final(self).joint_pending() == step.2
            }),
    {
        if self.should_emit_joint {
            self.should_emit_joint = false;
            Some(Ok(JangToken::Joint))
        } else {
            match self.parse_next() {
                Ok(Some(tok)) => Some(Ok(tok)),
                Ok(None) => None,
                Err(e) => Some(Err(e)),
            }
        }
    }
}

/// The model of one item read from the lexer.
pub open spec fn view_item(r: Option<JangResult<JangToken>>) -> Option<Result<TokenView, JangErrorView>> {
    match r {
        None => None,
        Some(Ok(t)) => Some(Ok(t@)),
        Some(Err(e)) => Some(Err(e@)),
    }
}

/// The models of a sequence of tokens.
pub open spec fn token_views(v: Seq<JangToken>) -> Seq<TokenView> {
    v.map_values(|t: JangToken| t@)
}

proof fn lemma_lexer_op_char_is_op(c: char)
    requires
        is_lexer_op_char(c),
        c != '.',
    ensures
        exists|op: Op| op_char(op) == c,
{
    if c == '=' { assert(op_char(Op::Equal) == c); }
    else if c == ',' { assert(op_char(Op::Comma) == c); }
    else if c == '(' { assert(op_char(Op::OpenParen) == c); }
    else if c == ')' { assert(op_char(Op::CloseParen) == c); }
    else if c == '{' { assert(op_char(Op::OpenBracket) == c); }
    else if c == '}' { assert(op_char(Op::CloseBracket) == c); }
    else if c == '-' { assert(op_char(Op::Dash) == c); }
    else if c == '<' { assert(op_char(Op::LessThan) == c); }
    else if c == '>' { assert(op_char(Op::GreaterThan) == c); }
    else if c == ':' { assert(op_char(Op::Colon) == c); }
    else if c == '+' { assert(op_char(Op::Plus) == c); }
    else if c == '*' { assert(op_char(Op::Star) == c); }
    else if c == '/' { assert(op_char(Op::Slash) == c); }
    else if c == '%' { assert(op_char(Op::Percent) == c); }
    else { assert(op_char(Op::Bar) == c); }
}

/// A lexer positioned at the start of `text`.
pub fn lex_stream(text: &str) -> (it: TokenIter)
    ensures
        it.wf(),
        it.text() == text@,
        it.position() == 0,
        !it.joint_pending(),
{
    let chars = crate::text::str_chars(text);
    // Reading the length records that it fits in a `usize`.
    let _len = chars.len();
    TokenIter { chars, pos: 0, should_emit_joint: false }
}

/// All tokens of `text`, or the first error met.
pub fn tokenize(text: &str) -> (r: JangResult<Vec<JangToken>>)
    ensures
        match spec_tokens(text@) {
            Ok(ts) => r matches Ok(v) && token_views(v@) == ts,
            Err(e) => r matches Err(err) && err@ == e,
        },
{
    let mut it = lex_stream(text);
    let mut tokens: Vec<JangToken> = Vec::new();
    let ghost s = text@;
    loop
        invariant
            s == text@,
            it.wf(),
            it.text() == s,
            0 <= it.position() <= s.len(),
            spec_tokens(s) == match spec_lex(s, it.position(), it.joint_pending()) {
                Ok(ts) => Ok(token_views(tokens@) + ts),
                Err(e) => Err::<Seq<TokenView>, JangErrorView>(e),
            },
        decreases lex_measure(s, it.position(), it.joint_pending()),
    {
        let ghost before_pos = it.position();
        let ghost before_joint = it.joint_pending();
        proof {
            lemma_next_progress(s, before_pos, before_joint);
        }
        let item = it.next();
        proof {
            let step = spec_next(s, before_pos, before_joint);
            assert(spec_lex(s, before_pos, before_joint) == match step.0 {
                None => Ok(Seq::empty()),
                Some(Err(e)) => Err(e),
                Some(Ok(t)) => match spec_lex(s, step.1, step.2) {
                    Ok(ts) => Ok(seq![t] + ts),
                    Err(e) => Err(e),
                },
            });
        }
        match item {
            None => {
                proof {
                    let step = spec_next(s, before_pos, before_joint);
                    assert(step.0 is None);
                    assert(spec_lex(s, before_pos, before_joint) == Ok::<Seq<TokenView>, JangErrorView>(Seq::empty()));
                    assert(token_views(tokens@) + Seq::<TokenView>::empty() =~= token_views(tokens@));
                }
                return Ok(tokens);
            },
            Some(Err(e)) => {
                proof {
                    let step = spec_next(s, before_pos, before_joint);
                    assert(step.0 == Some(Err::<TokenView, JangErrorView>(e@)));
                    assert(spec_lex(s, before_pos, before_joint) == Err::<Seq<TokenView>, JangErrorView>(e@));
                    assert(spec_tokens(s) == Err::<Seq<TokenView>, JangErrorView>(e@));
                }
                return Err(e);
            },
            Some(Ok(tok)) => {
                let ghost tv = tok@;
                let ghost prev = tokens@;
                tokens.push(tok);
                proof {
                    assert(token_views(tokens@) =~= token_views(prev).push(tv));
                    match spec_lex(s, it.position(), it.joint_pending()) {
                        Ok(ts) => {
                            assert(token_views(prev) + (seq![tv] + ts) =~= token_views(tokens@)
                                + ts);
                        },
                        Err(e) => {},
                    }
                }
            },
        }
    }
}


/// The tokens `t` before the outcome `r` of lexing what follows them.
pub open spec fn prepend(t: Seq<TokenView>, r: Result<Seq<TokenView>, JangErrorView>) -> Result<
    Seq<TokenView>,
    JangErrorView,
> {
    match r {
        Ok(ts) => Ok(t + ts),
        Err(e) => Err(e),
    }
}

/// Putting `a` before what `b` is put before puts `a + b` there.
pub proof fn lemma_prepend_assoc(
    a: Seq<TokenView>,
    b: Seq<TokenView>,
    r: Result<Seq<TokenView>, JangErrorView>,
)
    ensures
        prepend(a, prepend(b, r)) == prepend(a + b, r),
{
    if let Ok(ts) = r {
        assert(a + (b + ts) =~= (a + b) + ts);
    }
}

/// A run of a class that is known to stop at `k` ends there.
pub proof fn lemma_run_end_exact(s: Seq<char>, i: int, k: int, class: CharClass)
    requires
        0 <= i <= k <= s.len(),
        forall|j: int| i <= j < k ==> in_class(class, #[trigger] s[j]),
        k == s.len() || !in_class(class, s[k]),
    ensures
        run_end(s, i, class) == k,
    decreases k - i,
{
    if i < k {
        lemma_run_end_exact(s, i + 1, k, class);
    }
}

/// Whitespace between tokens yields nothing: lexing from its start is
/// lexing from its end.
pub proof fn lemma_lex_skips_ws(s: Seq<char>, i: int, k: int)
    requires
        0 <= i <= k <= s.len(),
        forall|j: int| i <= j < k ==> is_ascii_ws(#[trigger] s[j]),
    ensures
        spec_lex(s, i, false) == spec_lex(s, k, false),
    decreases k - i,
{
    if i < k {
        assert(is_ascii_ws(s[i]));
        assert(skip_ws(s, i) == skip_ws(s, i + 1));
        assert(spec_next(s, i, false) == spec_next(s, i + 1, false));
        lemma_lex_skips_ws(s, i + 1, k);
    }
}

/// An operator character that joins nothing to what follows it is read as
/// that operator.
pub proof fn lemma_lex_operator(s: Seq<char>, i: int, op: Op)
    requires
        0 <= i < s.len(),
        s[i] == op_char(op),
        is_lexer_op_char(s[i]),
        s[i] != '.',
        !(i + 1 < s.len() && spec_can_join(op, s[i + 1])),
    ensures
        spec_lex(s, i, false) == prepend(seq![TokenView::Operator(op)], spec_lex(s, i + 1, false)),
{
    assert(skip_ws(s, i) == i);
    let chosen = op_of_char(s[i]);
    assert(op_char(chosen) == s[i]) by {
        assert(op_char(op) == s[i]);
    }
    crate::parser::token::operator::lemma_op_char_injective(chosen, op);
}

/// The pairs of characters that are read as one joint operator ("==",
/// "<=", ">=", "->", ")(") give the first operator and then a `Joint`
/// token, so that they lex otherwise than the same characters apart.
pub proof fn lemma_lex_joint_operator(s: Seq<char>, i: int, op: Op)
    requires
        0 <= i,
        i + 1 < s.len(),
        s[i] == op_char(op),
        (s[i] == '=' && s[i + 1] == '=') || (s[i] == '<' && s[i + 1] == '=') || (s[i] == '>'
            && s[i + 1] == '=') || (s[i] == '-' && s[i + 1] == '>') || (s[i] == ')' && s[i + 1]
            == '('),
    ensures
        spec_lex(s, i, false) == prepend(
            seq![TokenView::Operator(op), TokenView::Joint],
            spec_lex(s, i + 1, false),
        ),
{
    assert(skip_ws(s, i) == i);
    let chosen = op_of_char(s[i]);
    assert(op_char(chosen) == s[i]) by {
        assert(op_char(op) == s[i]);
    }
    crate::parser::token::operator::lemma_op_char_injective(chosen, op);
    assert(spec_next(s, i, false) == (
        Some(Ok::<TokenView, JangErrorView>(TokenView::Operator(op))),
        i + 1,
        true,
    ));
    assert(spec_lex(s, i + 1, true) == prepend(seq![TokenView::Joint], spec_lex(s, i + 1, false)));
    assert(spec_lex(s, i, false) == prepend(seq![TokenView::Operator(op)], spec_lex(s, i + 1, true)));
    lemma_prepend_assoc(
        seq![TokenView::Operator(op)],
        seq![TokenView::Joint],
        spec_lex(s, i + 1, false),
    );
    assert(seq![TokenView::Operator(op)] + seq![TokenView::Joint] =~= seq![
        TokenView::Operator(op),
        TokenView::Joint,
    ]);
}

/// A name that the lexer reads as one identifier: a letter or '_', then
/// letters, digits and '_', spelling no keyword.
pub open spec fn is_ident_text(n: Seq<char>) -> bool {
    &&& n.len() > 0
    &&& is_ident_start(n[0])
    &&& forall|k: int| 0 <= k < n.len() ==> spec_is_ident_char(#[trigger] n[k])
    &&& spec_keyword_of(n) is None
}

/// A text that the lexer reads as one numeric literal: digits and dots,
/// starting with a digit or with a dot before a digit.
pub open spec fn is_numeric_text(t: Seq<char>) -> bool {
    &&& t.len() > 0
    &&& forall|k: int| 0 <= k < t.len() ==> spec_is_numeric_char(#[trigger] t[k])
    &&& (is_ascii_digit(t[0]) || (t[0] == '.' && t.len() > 1 && is_ascii_digit(t[1])))
}

/// Position `k` ends a word that runs up to it: the end of the text, or a
/// character that neither continues a name nor opens a call.
pub open spec fn ends_word(s: Seq<char>, k: int) -> bool {
    k == s.len() || (0 <= k < s.len() && !spec_is_ident_char(s[k]) && s[k] != '(')
}

/// Position `k` ends a numeric literal that runs up to it.
pub open spec fn ends_numeric(s: Seq<char>, k: int) -> bool {
    k == s.len() || (0 <= k < s.len() && !spec_is_numeric_char(s[k]))
}

proof fn lemma_lex_word(s: Seq<char>, i: int, n: Seq<char>)
    requires
        0 <= i,
        i + n.len() <= s.len(),
        s.subrange(i, i + n.len()) == n,
        n.len() > 0,
        is_ident_start(n[0]),
        forall|k: int| 0 <= k < n.len() ==> spec_is_ident_char(#[trigger] n[k]),
        ends_word(s, i + n.len()),
    ensures
        spec_next(s, i, false) == (
            Some(
                Ok::<TokenView, JangErrorView>(
                    match spec_keyword_of(n) {
                        Some(k) => TokenView::Keyword(k),
                        None => TokenView::Ident(n),
                    },
                ),
            ),
            i + n.len(),
            false,
        ),
{
    assert forall|k: int| 0 <= k < n.len() implies s[i + k] == n[k] by {
        assert(s.subrange(i, i + n.len())[k] == n[k]);
    }
    assert(s[i] == n[0]);
    assert(skip_ws(s, i) == i);
    assert forall|j: int| i + 1 <= j < i + n.len() implies in_class(CharClass::Ident, #[trigger] s[j]) by {
        assert(s[i + (j - i)] == n[j - i]);
    }
    lemma_run_end_exact(s, i + 1, i + n.len(), CharClass::Ident);
}

/// A name that runs up to a position that ends it is read as one
/// identifier.
pub proof fn lemma_lex_ident(s: Seq<char>, i: int, n: Seq<char>)
    requires
        0 <= i,
        i + n.len() <= s.len(),
        s.subrange(i, i + n.len()) == n,
        is_ident_text(n),
        ends_word(s, i + n.len()),
    ensures
        spec_lex(s, i, false) == prepend(seq![TokenView::Ident(n)], spec_lex(s, i + n.len(), false)),
{
    lemma_lex_word(s, i, n);
}

/// A name right before '(' is read as that identifier and then a `Joint`
/// token: a call "f(" lexes otherwise than "f (".
pub proof fn lemma_lex_call_name(s: Seq<char>, i: int, n: Seq<char>)
    requires
        0 <= i,
        i + n.len() < s.len(),
        s.subrange(i, i + n.len()) == n,
        is_ident_text(n),
        s[i + n.len()] == '(',
    ensures
        spec_lex(s, i, false) == prepend(
            seq![TokenView::Ident(n), TokenView::Joint],
            spec_lex(s, i + n.len(), false),
        ),
{
    let e = i + n.len();
    assert forall|k: int| 0 <= k < n.len() implies s[i + k] == n[k] by {
        assert(s.subrange(i, i + n.len())[k] == n[k]);
    }
    assert(s[i] == n[0]);
    assert(skip_ws(s, i) == i);
    assert forall|j: int| i + 1 <= j < e implies in_class(CharClass::Ident, #[trigger] s[j]) by {
        assert(s[i + (j - i)] == n[j - i]);
    }
    lemma_run_end_exact(s, i + 1, e, CharClass::Ident);
    assert(s.subrange(i, e) == n);
    assert(spec_next(s, i, false) == (
        Some(Ok::<TokenView, JangErrorView>(TokenView::Ident(n))),
        e,
        true,
    ));
    assert(spec_lex(s, e, true) == prepend(seq![TokenView::Joint], spec_lex(s, e, false)));
    assert(spec_lex(s, i, false) == prepend(seq![TokenView::Ident(n)], spec_lex(s, e, true)));
    lemma_prepend_assoc(seq![TokenView::Ident(n)], seq![TokenView::Joint], spec_lex(s, e, false));
    assert(seq![TokenView::Ident(n)] + seq![TokenView::Joint] =~= seq![
        TokenView::Ident(n),
        TokenView::Joint,
    ]);
}

/// A keyword that runs up to a position that ends it is read as that
/// keyword.
pub proof fn lemma_lex_keyword(s: Seq<char>, i: int, k: Keyword)
    requires
        0 <= i,
        i + keyword_text(k).len() <= s.len(),
        s.subrange(i, i + keyword_text(k).len()) == keyword_text(k),
        ends_word(s, i + keyword_text(k).len()),
    ensures
        spec_lex(s, i, false) == prepend(
            seq![TokenView::Keyword(k)],
            spec_lex(s, i + keyword_text(k).len(), false),
        ),
{
    lemma_keyword_of_text(k);
    let n = keyword_text(k);
    assert(n.len() > 0 && is_ident_start(n[0]));
    assert(forall|j: int| 0 <= j < n.len() ==> spec_is_ident_char(#[trigger] n[j]));
    lemma_lex_word(s, i, n);
}

/// A numeric text that runs up to a position that ends it is read as one
/// literal, of the kind its text is read as.
pub proof fn lemma_lex_numeric(s: Seq<char>, i: int, t: Seq<char>)
    requires
        0 <= i,
        i + t.len() <= s.len(),
        s.subrange(i, i + t.len()) == t,
        is_numeric_text(t),
        ends_numeric(s, i + t.len()),
    ensures
        spec_lex(s, i, false) == prepend(
            seq![TokenView::Literal(LiteralView::Numeric(spec_numeric_literal(t)))],
            spec_lex(s, i + t.len(), false),
        ),
{
    assert forall|k: int| 0 <= k < t.len() implies s[i + k] == t[k] by {
        assert(s.subrange(i, i + t.len())[k] == t[k]);
    }
    assert(s[i] == t[0]);
    if t.len() > 1 {
        assert(s[i + 1] == t[1]);
    }
    assert(skip_ws(s, i) == i);
    assert forall|j: int| i + 1 <= j < i + t.len() implies in_class(CharClass::Numeric, #[trigger] s[j]) by {
        assert(s[i + (j - i)] == t[j - i]);
    }
    lemma_run_end_exact(s, i + 1, i + t.len(), CharClass::Numeric);
}

} // verus!

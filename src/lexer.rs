//! Splitting a source text into tokens.
use vstd::prelude::*;
use crate::diagnostics::DiagnosticBuilder;
use crate::keyword::{keyword_of, Keyword};
use crate::span::{FixedTokenSpan, Span};
use crate::token::{BinOp, Token};

verus! {

/// The character classes that the lexer reads runs of.
pub enum CharClass {
    /// Anything but a double quote.
    NotQuote,
    /// Decimal digits and the dot.
    Number,
    /// Letters, digits and the underscore.
    IdentTail,
    /// Anything but a line feed.
    NotNewline,
}

pub open spec fn in_class(c: char, class: CharClass) -> bool {
    match class {
        CharClass::NotQuote => c != '"',
        CharClass::Number => c == '.' || ('0' <= c && c <= '9'),
        CharClass::IdentTail => ('a' <= c && c <= 'z') || ('A' <= c && c <= 'Z') || ('0' <= c
            && c <= '9') || c == '_',
        CharClass::NotNewline => c != '\n',
    }
}

fn is_in_class(c: char, class: &CharClass) -> (r: bool)
    ensures
        r == in_class(c, *class),
{
    match class {
        CharClass::NotQuote => c != '"',
        CharClass::Number => c == '.' || ('0' <= c && c <= '9'),
        CharClass::IdentTail => ('a' <= c && c <= 'z') || ('A' <= c && c <= 'Z') || ('0' <= c
            && c <= '9') || c == '_',
        CharClass::NotNewline => c != '\n',
    }
}

/// The end of the longest run of `class` characters that starts at `from`.
pub fn scan_while(chars: &Vec<char>, from: usize, class: CharClass) -> (r: usize)
    requires
        from <= chars.len(),
    ensures
        from <= r <= chars.len(),
        forall|i: int| from <= i < r ==> in_class(chars@[i], class),
        r < chars.len() ==> !in_class(chars@[r as int], class),
{
    let mut i = from;
    while i < chars.len() && is_in_class(chars[i], &class)
        invariant
            from <= i <= chars.len(),
            forall|j: int| from <= j < i ==> in_class(chars@[j], class),
        decreases chars.len() - i,
    {
        i = i + 1;
    }
    i
}

/// The characters of `input`, one by one.
fn chars_of(input: &str) -> (r: Vec<char>)
    ensures
        r@ == input@,
{
    let n = input.unicode_len();
    let mut out: Vec<char> = Vec::new();
    let mut i: usize = 0;
    while i < n
        invariant
            n == input@.len(),
            i <= n,
            out@ == input@.subrange(0, i as int),
        decreases n - i,
    {
        out.push(input.get_char(i));
        i = i + 1;
        assert(out@ =~= input@.subrange(0, i as int));
    }
    assert(out@ =~= input@);
    out
}

/// The characters of `input` from `from` up to `to` as a string.
fn slice_text(input: &str, from: usize, to: usize) -> (r: String)
    requires
        from <= to <= input@.len(),
    ensures
        r@ == input@.subrange(from as int, to as int),
{
    input.substring_char(from, to).to_owned()
}

/// What `lex` promises of each token it returns, against the characters of the input.
pub open spec fn token_matches_text(t: Token, chars: Seq<char>) -> bool {
    &&& t.wf()
    &&& match t {
        Token::Ident(sp, s) => sp.start <= sp.end <= chars.len() && s@ == chars.subrange(
            sp.start as int,
            sp.end as int,
        ) && keyword_of(s@) is None,
        Token::Keyword(sp, k) => sp.start <= sp.end <= chars.len() && keyword_of(
            chars.subrange(sp.start as int, sp.end as int),
        ) == Some(k),
        Token::NumLit(sp, s) => sp.start <= sp.end <= chars.len() && s@ == chars.subrange(
            sp.start as int,
            sp.end as int,
        ),
        Token::StrLit(sp, s) => sp.start < sp.end <= chars.len() && s@ == chars.subrange(
            sp.start + 1,
            sp.end as int,
        ),
        Token::EOF(sp) => sp.0 == chars.len(),
        Token::OpenParen(sp) => sp.0 < chars.len() && chars[sp.0 as int] == '(',
        Token::ClosedParen(sp) => sp.0 < chars.len() && chars[sp.0 as int] == ')',
        Token::OpenCurly(sp) => sp.0 < chars.len() && chars[sp.0 as int] == '{',
        Token::ClosedCurly(sp) => sp.0 < chars.len() && chars[sp.0 as int] == '}',
        Token::OpenBracket(sp) => sp.0 < chars.len() && chars[sp.0 as int] == '[',
        Token::ClosedBracket(sp) => sp.0 < chars.len() && chars[sp.0 as int] == ']',
        Token::OpenAngle(sp) => sp.0 < chars.len() && chars[sp.0 as int] == '<',
        Token::ClosedAngle(sp) => sp.0 < chars.len() && chars[sp.0 as int] == '>',
        Token::Colon(sp) => sp.0 < chars.len() && chars[sp.0 as int] == ':',
        Token::Semi(sp) => sp.0 < chars.len() && chars[sp.0 as int] == ';',
        Token::Comma(sp) => sp.0 < chars.len() && chars[sp.0 as int] == ',',
        Token::Hashtag(sp) => sp.0 < chars.len() && chars[sp.0 as int] == '#',
        Token::Apostrophe(sp) => sp.0 < chars.len() && chars[sp.0 as int] == '\'',
        Token::Question(sp) => sp.0 < chars.len() && chars[sp.0 as int] == '?',
        Token::Dot(sp) => sp.0 < chars.len() && chars[sp.0 as int] == '.',
        Token::Arrow(sp) => sp.0 + 1 < chars.len() && chars[sp.0 as int] == '-' && chars[sp.0 + 1] == '>',
        Token::Invalid(sp, c) => sp.0 < chars.len() && chars[sp.0 as int] == c,
        Token::BinOp(sp, op) => sp.start < chars.len() && chars[sp.start as int] == op_char(op),
        Token::Comment(sp, s) => sp.start + 1 < chars.len() && chars[sp.start as int] == '/' && chars[sp.start + 1]
            == '/',
        _ => true,
    }
}

/// Spaces and line breaks, which separate tokens.
pub open spec fn is_blank(c: char) -> bool {
    c == ' ' || c == '\r' || c == '\n'
}

/// Whether an operator is spelled with two characters.
pub open spec fn compound(op: BinOp) -> bool {
    op == BinOp::AddEq || op == BinOp::SubEq || op == BinOp::MulEq || op == BinOp::DivEq
}

/// Where the characters a token was read from end (the span of a string literal leaves out
/// its closing quote, that of a comment its last character, that of a two-character
/// operator its second character).
pub open spec fn extent_end(t: Token, len: int) -> int {
    match t {
        Token::Ident(sp, _) => sp.end as int,
        Token::Keyword(sp, _) => sp.end as int,
        Token::NumLit(sp, _) => sp.end as int,
        Token::StrLit(sp, _) => if sp.end < len {
            sp.end + 1
        } else {
            sp.end as int
        },
        Token::Comment(sp, _) => sp.end + 1,
        Token::BinOp(sp, op) => if compound(op) {
            sp.start + 2
        } else {
            sp.start + 1
        },
        Token::EOF(sp) => sp.0 as int,
        _ => t.span_spec().1,
    }
}

/// Whether the character at `i` was read into the token `t`.
pub open spec fn reads(t: Token, i: int, len: int) -> bool {
    t.span_spec().0 <= i < extent_end(t, len)
}

/// The first character of an operator's spelling.
pub open spec fn op_char(op: BinOp) -> char {
    match op {
        BinOp::Add | BinOp::AddEq => '+',
        BinOp::Sub | BinOp::SubEq => '-',
        BinOp::Mul | BinOp::MulEq => '*',
        BinOp::Div | BinOp::DivEq => '/',
        BinOp::Eq => '=',
        BinOp::Mod => '%',
        BinOp::AndEq | BinOp::AndAnd => '&',
        BinOp::OrEq | BinOp::OrOr => '|',
    }
}

/// Splits a source text into tokens, comments included, and closes the sequence with an
/// end-of-input token at the text's length. Characters the language does not know become
/// `Invalid` tokens; lexing itself never fails.
pub fn lex(input: String) -> (r: Result<Vec<Token>, DiagnosticBuilder>)
    requires
        input@.len() < usize::MAX,
    ensures
        r is Ok,
        r matches Ok(tokens) ==> {
            &&& tokens.len() > 0
            &&& tokens@.last() matches Token::EOF(sp) && sp.0 == input@.len()
            &&& forall|i: int| 0 <= i < tokens.len() ==> token_matches_text(#[trigger] tokens@[i], input@)
            &&& forall|i: int| 0 <= i < tokens.len() - 1 ==> !(#[trigger] tokens@[i] is EOF)
            &&& forall|i: int, j: int| 0 <= i < j < tokens.len() ==> (#[trigger] tokens@[i]).span_spec().0
                < (#[trigger] tokens@[j]).span_spec().0
            &&& forall|i: int| 0 <= i < input@.len() && !is_blank(#[trigger] input@[i]) ==> exists|j: int|
                0 <= j < tokens.len() && reads(#[trigger] tokens@[j], i, input@.len() as int)
        },
{
    let text = input.as_str();
    let input = chars_of(text);
    let len = input.len();
    let mut cursor: usize = 0;
    let diagnostics_builder = DiagnosticBuilder::new();
    let mut tokens: Vec<Token> = Vec::new();
    let ghost mut owner: Seq<int> = Seq::empty();

    while cursor < len
        invariant
            len == input@.len(),
            input@ == text@,
            len < usize::MAX,
            cursor <= len + 1,
            diagnostics_builder.is_empty_spec(),
            forall|i: int| 0 <= i < tokens.len() ==> token_matches_text(#[trigger] tokens@[i], text@)
                && !(tokens@[i] is EOF),
            forall|i: int| 0 <= i < tokens.len() ==> (#[trigger] tokens@[i]).span_spec().0 < cursor
                && tokens@[i].span_spec().0 < len,
            forall|i: int, j: int| 0 <= i < j < tokens.len() ==> (#[trigger] tokens@[i]).span_spec().0
                < (#[trigger] tokens@[j]).span_spec().0,
            owner.len() == if cursor < len {
                cursor as int
            } else {
                len as int
            },
            forall|i: int| 0 <= i < owner.len() && !is_blank(#[trigger] text@[i]) ==> 0 <= owner[i] < tokens.len()
                && reads(tokens@[owner[i]], i, len as int),
        decreases len + 1 - cursor,
    {
        let ghost start = cursor;
        let mut curr_token: Option<Token> = None;
        let curr = input[cursor];
        let next: Option<char> = if cursor + 1 < len {
            Some(input[cursor + 1])
        } else {
            None
        };
        if curr == ' ' || curr == '\r' || curr == '\n' {
        } else if curr == '"' {
            let new_cursor = scan_while(&input, cursor + 1, CharClass::NotQuote);
            let buffer = slice_text(text, cursor + 1, new_cursor);
            curr_token = Some(Token::StrLit(Span::multi_token(cursor, new_cursor), buffer));
            // skip the closing quote as well
            cursor = new_cursor;
        } else if '0' <= curr && curr <= '9' {
            let new_cursor = scan_while(&input, cursor, CharClass::Number);
            let buffer = slice_text(text, cursor, new_cursor);
            curr_token = Some(Token::NumLit(Span::multi_token(cursor, new_cursor), buffer));
            cursor = new_cursor - 1;
        } else if ('a' <= curr && curr <= 'z') || ('A' <= curr && curr <= 'Z') || curr == '_' {
            let new_cursor = scan_while(&input, cursor, CharClass::IdentTail);
            let word = text.substring_char(cursor, new_cursor);
            let kw = Keyword::from_str(word);
            if let Some(kw) = kw {
                curr_token = Some(Token::Keyword(Span::multi_token(cursor, new_cursor), kw));
            } else {
                curr_token = Some(
                    Token::Ident(Span::multi_token(cursor, new_cursor), word.to_owned()),
                );
            }
            cursor = new_cursor - 1;
        } else if curr == '(' {
            curr_token = Some(Token::OpenParen(FixedTokenSpan::new(cursor)));
        } else if curr == ')' {
            curr_token = Some(Token::ClosedParen(FixedTokenSpan::new(cursor)));
        } else if curr == '{' {
            curr_token = Some(Token::OpenCurly(FixedTokenSpan::new(cursor)));
        } else if curr == '}' {
            curr_token = Some(Token::ClosedCurly(FixedTokenSpan::new(cursor)));
        } else if curr == '[' {
            curr_token = Some(Token::OpenBracket(FixedTokenSpan::new(cursor)));
        } else if curr == ']' {
            curr_token = Some(Token::ClosedBracket(FixedTokenSpan::new(cursor)));
        } else if curr == '<' {
            curr_token = Some(Token::OpenAngle(FixedTokenSpan::new(cursor)));
        } else if curr == '>' {
            curr_token = Some(Token::ClosedAngle(FixedTokenSpan::new(cursor)));
        } else if curr == ':' {
            curr_token = Some(Token::Colon(FixedTokenSpan::new(cursor)));
        } else if curr == ';' {
            curr_token = Some(Token::Semi(FixedTokenSpan::new(cursor)));
        } else if curr == ',' {
            curr_token = Some(Token::Comma(FixedTokenSpan::new(cursor)));
        } else if curr == '#' {
            curr_token = Some(Token::Hashtag(FixedTokenSpan::new(cursor)));
        } else if curr == '\'' {
            curr_token = Some(Token::Apostrophe(FixedTokenSpan::new(cursor)));
        } else if curr == '?' {
            curr_token = Some(Token::Question(FixedTokenSpan::new(cursor)));
        } else if curr == '.' {
            curr_token = Some(Token::Dot(FixedTokenSpan::new(cursor)));
        } else if curr == '=' {
            curr_token = Some(Token::BinOp(Span::single_token(cursor), BinOp::Eq));
        } else if curr == '/' && next == Some('/') {
            let span_start = cursor;
            let end = scan_while(&input, cursor + 2, CharClass::NotNewline);
            let buffer = slice_text(text, cursor + 2, end);
            cursor = end - 1;
            curr_token = Some(Token::Comment(Span::multi_token(span_start, cursor), buffer));
        } else if curr == '/' && next == Some('=') {
            curr_token = Some(Token::BinOp(Span::multi_token(cursor, cursor + 1), BinOp::DivEq));
            cursor = cursor + 1;
        } else if curr == '/' {
            curr_token = Some(Token::BinOp(Span::single_token(cursor), BinOp::Div));
        } else if curr == '+' && next == Some('=') {
            curr_token = Some(Token::BinOp(Span::multi_token(cursor, cursor + 1), BinOp::AddEq));
            cursor = cursor + 1;
        } else if curr == '+' {
            curr_token = Some(Token::BinOp(Span::single_token(cursor), BinOp::Add));
        } else if curr == '-' && next == Some('=') {
            curr_token = Some(Token::BinOp(Span::multi_token(cursor, cursor + 1), BinOp::SubEq));
            cursor = cursor + 1;
        } else if curr == '-' && next == Some('>') {
            curr_token = Some(Token::Arrow(FixedTokenSpan::new(cursor)));
            cursor = cursor + 1;
        } else if curr == '-' {
            curr_token = Some(Token::BinOp(Span::single_token(cursor), BinOp::Sub));
        } else if curr == '*' && next == Some('=') {
            curr_token = Some(Token::BinOp(Span::multi_token(cursor, cursor + 1), BinOp::MulEq));
            cursor = cursor + 1;
        } else if curr == '*' {
            curr_token = Some(Token::BinOp(Span::single_token(cursor), BinOp::Mul));
        } else {
            curr_token = Some(Token::Invalid(FixedTokenSpan::new(cursor), curr));
        }
        let ghost end = if cursor + 1 < len {
            cursor + 1
        } else {
            len as int
        };
        assert(curr_token is None ==> is_blank(curr) && end == start + 1);
        if curr_token.is_some() {
            let token = curr_token.unwrap();
            let ghost before = tokens@;
            let ghost pushed = token;
            assert(token_matches_text(pushed, text@) && !(pushed is EOF));
            assert(pushed.span_spec().0 == start);
            assert(extent_end(pushed, len as int) == end);
            tokens.push(token);
            proof {
                let old_owner = owner;
                owner = owner + Seq::new((end - start) as nat, |k: int| (tokens.len() - 1) as int);
                assert forall|i: int| 0 <= i < owner.len() && !is_blank(#[trigger] text@[i]) implies 0 <= owner[i]
                    < tokens.len() && reads(tokens@[owner[i]], i, len as int) by {
                    if i < old_owner.len() {
                        assert(owner[i] == old_owner[i]);
                        assert(tokens@[owner[i]] == before[owner[i]]);
                    }
                }
            }
            assert forall|i: int| 0 <= i < tokens.len() implies (#[trigger] tokens@[i]).span_spec().0 <= start
                && tokens@[i].span_spec().0 < len by {
                if i < before.len() {
                    assert(tokens@[i] == before[i]);
                }
            }
            assert forall|i: int| 0 <= i < tokens.len() implies token_matches_text(
                #[trigger] tokens@[i],
                text@,
            ) && !(tokens@[i] is EOF) by {
                if i < before.len() {
                    assert(tokens@[i] == before[i]);
                }
            }
        } else {
            proof {
                owner = owner.push(0);
            }
        }
        cursor = cursor + 1;
    }

    let ghost before = tokens@;
    tokens.push(Token::EOF(FixedTokenSpan::new(len)));
    assert(tokens@.last() matches Token::EOF(sp) && sp.0 == len);
    assert forall|i: int| 0 <= i < tokens.len() - 1 implies (#[trigger] tokens@[i]).span_spec().0 < len by {
        assert(tokens@[i] == before[i]);
    }
    assert forall|i: int| 0 <= i < input@.len() && !is_blank(#[trigger] input@[i]) implies exists|j: int|
        0 <= j < tokens.len() && reads(#[trigger] tokens@[j], i, input@.len() as int) by {
        assert(tokens@[owner[i]] == before[owner[i]]);
        assert(reads(tokens@[owner[i]], i, input@.len() as int));
    }

    if diagnostics_builder.is_empty() {
        Ok(tokens)
    } else {
        Err(diagnostics_builder)
    }
}

} // verus!

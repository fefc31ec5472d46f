//! A comment-free token sequence with a cursor and lookahead.
use vstd::prelude::*;
use crate::token::{Token, TokenType};

verus! {

/// The tokens of `s` that are not comments, in order.
pub open spec fn without_comments(s: Seq<Token>) -> Seq<Token>
    decreases s.len(),
{
    if s.len() == 0 {
        s
    } else {
        let rest = without_comments(s.drop_last());
        if s.last().kind() == TokenType::Comment {
            rest
        } else {
            rest.push(s.last())
        }
    }
}

/// A sequence of tokens without comments and a cursor into it.
pub struct TokenStream {
    tokens: Vec<Token>,
    cursor: usize,
}

impl View for TokenStream {
    /// The tokens, and the index of the next token to hand out.
    type V = (Seq<Token>, int);

    closed spec fn view(&self) -> (Seq<Token>, int) {
        (self.tokens@, self.cursor as int)
    }
}

impl TokenStream {
    /// Drops the comments of `tokens`; the cursor starts at the first token.
    pub fn new(tokens: Vec<Token>) -> (r: Self)
        ensures
            r@ == (without_comments(tokens@), 0int),
    {
        let mut filtered_tokens: Vec<Token> = Vec::new();
        let n = tokens.len();
        let mut i: usize = 0;
        while i < n
            invariant
                n == tokens.len(),
                i <= n,
                filtered_tokens@ == without_comments(tokens@.subrange(0, i as int)),
            decreases n - i,
        {
            let ghost prefix = tokens@.subrange(0, i as int + 1);
            assert(prefix.drop_last() =~= tokens@.subrange(0, i as int));
            if tokens[i].to_type() != TokenType::Comment {
                filtered_tokens.push(tokens[i].clone());
            }
            i = i + 1;
        }
        assert(tokens@.subrange(0, n as int) =~= tokens@);
        TokenStream { tokens: filtered_tokens, cursor: 0 }
    }

    /// The next token, if the cursor is still within the sequence.
    pub fn get_next(&self) -> (r: Option<&Token>)
        ensures
            self@.1 < self@.0.len() ==> r == Some(&self@.0[self@.1]),
            self@.1 >= self@.0.len() ==> r is None,
    {
        if self.cursor < self.tokens.len() {
            Some(&self.tokens[self.cursor])
        } else {
            None
        }
    }

    /// Moves the cursor on and hands out the token it stood on.
    pub fn get_next_and_advance(&mut self) -> (r: Option<&Token>)
        requires
            old(self)@.1 < usize::MAX,
        ensures
            final(self)@ == (old(self)@.0, old(self)@.1 + 1),
            old(self)@.1 < old(self)@.0.len() ==> r == Some(&old(self)@.0[old(self)@.1]),
            old(self)@.1 >= old(self)@.0.len() ==> r is None,
    {
        self.advance();
        if self.cursor - 1 < self.tokens.len() {
            Some(&self.tokens[self.cursor - 1])
        } else {
            None
        }
    }

    /// Moves the cursor over the next token if it is of kind `token_type`.
    pub fn eat(&mut self, token_type: TokenType) -> (r: bool)
        requires
            old(self)@.1 < usize::MAX,
        ensures
            r == (old(self)@.1 < old(self)@.0.len() && old(self)@.0[old(self)@.1].kind()
                == token_type),
            final(self)@ == (old(self)@.0, if r {
                old(self)@.1 + 1
            } else {
                old(self)@.1
            }),
    {
        if self.cursor < self.tokens.len() && self.tokens[self.cursor].to_type() == token_type {
            self.advance();
            return true;
        }
        false
    }

    pub fn advance(&mut self)
        requires
            old(self)@.1 < usize::MAX,
        ensures
            final(self)@ == (old(self)@.0, old(self)@.1 + 1),
    {
        self.cursor = self.cursor + 1;
    }

    /// Whether a token is left at the cursor.
    pub fn can_advance(&self) -> (r: bool)
        ensures
            r == (self@.1 < self@.0.len()),
    {
        self.tokens.len() > self.cursor
    }

    /// Applies `func` to the token `dist` places ahead (a distance of 0 counts as 1; the
    /// next token is 1 place ahead); false where there is no such token.
    pub fn look_ahead<F: Fn(&Token) -> bool>(&self, dist: usize, func: F) -> (r: bool)
        requires
            forall|t: &Token| #[trigger] func.requires((t,)),
        ensures
            ({
                let idx = self@.1 + if dist == 0 {
                    0
                } else {
                    dist - 1
                };
                &&& idx < self@.0.len() ==> func.ensures((&self@.0[idx],), r)
                &&& idx >= self@.0.len() ==> !r
            }),
    {
        let dist = if dist == 0 {
            0
        } else {
            dist - 1
        };
        let n = self.tokens.len();
        if self.cursor > usize::MAX - dist {
            assert(self@.0.len() == n);
            return false;
        }
        let idx = self.cursor + dist;
        if idx < self.tokens.len() {
            func(&self.tokens[idx])
        } else {
            false
        }
    }
}

/// The input ended where more was expected.
#[derive(Debug, Copy, Clone)]
pub struct UnexpectedEOI;

} // verus!

//! The reserved words of the language.
use vstd::prelude::*;
use crate::text::same_text;

verus! {
#[derive(Debug, Copy, Clone, PartialEq, Eq, Structural)]
pub enum Keyword {
    Pub,
    Static,
    Const,
    /// The runtime modifier, i.e. not const.
    Rt,
    Let,
    Fn,
    Mut,
    Enum,
    Struct,
    Mod,
    SelfUpper,
    SelfLower,
    Impl,
    If,
    Else,
    Match,
    For,
    While,
    Loop,
    In,
    Async,
    Unsafe,
    Extern,
    Trait,
    Type,
}

/// The keyword spelled by `s`, if any.
pub open spec fn keyword_of(s: Seq<char>) -> Option<Keyword> {
    if s == seq!['p', 'u', 'b'] {
        Some(Keyword::Pub)
    } else if s == seq!['s', 't', 'a', 't', 'i', 'c'] {
        Some(Keyword::Static)
    } else if s == seq!['c', 'o', 'n', 's', 't'] {
        Some(Keyword::Const)
    } else if s == seq!['r', 'u', 'n', 't', 'i', 'm', 'e'] {
        Some(Keyword::Rt)
    } else if s == seq!['l', 'e', 't'] {
        Some(Keyword::Let)
    } else if s == seq!['f', 'n'] {
        Some(Keyword::Fn)
    } else if s == seq!['m', 'u', 't'] {
        Some(Keyword::Mut)
    } else if s == seq!['e', 'n', 'u', 'm'] {
        Some(Keyword::Enum)
    } else if s == seq!['s', 't', 'r', 'u', 'c', 't'] {
        Some(Keyword::Struct)
    } else if s == seq!['m', 'o', 'd'] {
        Some(Keyword::Mod)
    } else if s == seq!['S', 'e', 'l', 'f'] {
        Some(Keyword::SelfUpper)
    } else if s == seq!['s', 'e', 'l', 'f'] {
        Some(Keyword::SelfLower)
    } else if s == seq!['i', 'm', 'p', 'l'] {
        Some(Keyword::Impl)
    } else if s == seq!['i', 'f'] {
        Some(Keyword::If)
    } else if s == seq!['e', 'l', 's', 'e'] {
        Some(Keyword::Else)
    } else if s == seq!['m', 'a', 't', 'c', 'h'] {
        Some(Keyword::Match)
    } else if s == seq!['f', 'o', 'r'] {
        Some(Keyword::For)
    } else if s == seq!['w', 'h', 'i', 'l', 'e'] {
        Some(Keyword::While)
    } else if s == seq!['l', 'o', 'o', 'p'] {
        Some(Keyword::Loop)
    } else if s == seq!['i', 'n'] {
        Some(Keyword::In)
    } else if s == seq!['t', 'r', 'a', 'i', 't'] {
        Some(Keyword::Trait)
    } else if s == seq!['t', 'y', 'p', 'e'] {
        Some(Keyword::Type)
    } else {
        None
    }
}

impl Keyword {
    /// The keyword spelled by `s`, if any.
    pub fn from_str(s: &str) -> (r: Option<Self>)
        ensures
            r == keyword_of(s@),
    {
        proof {
            reveal_strlit("pub");
            assert("pub"@ =~= seq!['p', 'u', 'b']);
            reveal_strlit("static");
            assert("static"@ =~= seq!['s', 't', 'a', 't', 'i', 'c']);
            reveal_strlit("const");
            assert("const"@ =~= seq!['c', 'o', 'n', 's', 't']);
            reveal_strlit("runtime");
            assert("runtime"@ =~= seq!['r', 'u', 'n', 't', 'i', 'm', 'e']);
            reveal_strlit("let");
            assert("let"@ =~= seq!['l', 'e', 't']);
            reveal_strlit("fn");
            assert("fn"@ =~= seq!['f', 'n']);
            reveal_strlit("mut");
            assert("mut"@ =~= seq!['m', 'u', 't']);
            reveal_strlit("enum");
            assert("enum"@ =~= seq!['e', 'n', 'u', 'm']);
            reveal_strlit("struct");
            assert("struct"@ =~= seq!['s', 't', 'r', 'u', 'c', 't']);
            reveal_strlit("mod");
            assert("mod"@ =~= seq!['m', 'o', 'd']);
            reveal_strlit("Self");
            assert("Self"@ =~= seq!['S', 'e', 'l', 'f']);
            reveal_strlit("self");
            assert("self"@ =~= seq!['s', 'e', 'l', 'f']);
            reveal_strlit("impl");
            assert("impl"@ =~= seq!['i', 'm', 'p', 'l']);
            reveal_strlit("if");
            assert("if"@ =~= seq!['i', 'f']);
            reveal_strlit("else");
            assert("else"@ =~= seq!['e', 'l', 's', 'e']);
            reveal_strlit("match");
            assert("match"@ =~= seq!['m', 'a', 't', 'c', 'h']);
            reveal_strlit("for");
            assert("for"@ =~= seq!['f', 'o', 'r']);
            reveal_strlit("while");
            assert("while"@ =~= seq!['w', 'h', 'i', 'l', 'e']);
            reveal_strlit("loop");
            assert("loop"@ =~= seq!['l', 'o', 'o', 'p']);
            reveal_strlit("in");
            assert("in"@ =~= seq!['i', 'n']);
            reveal_strlit("trait");
            assert("trait"@ =~= seq!['t', 'r', 'a', 'i', 't']);
            reveal_strlit("type");
            assert("type"@ =~= seq!['t', 'y', 'p', 'e']);
        }
        if same_text(s, "pub") {
            return Some(Keyword::Pub);
        }
        if same_text(s, "static") {
            return Some(Keyword::Static);
        }
        if same_text(s, "const") {
            return Some(Keyword::Const);
        }
        if same_text(s, "runtime") {
            return Some(Keyword::Rt);
        }
        if same_text(s, "let") {
            return Some(Keyword::Let);
        }
        if same_text(s, "fn") {
            return Some(Keyword::Fn);
        }
        if same_text(s, "mut") {
            return Some(Keyword::Mut);
        }
        if same_text(s, "enum") {
            return Some(Keyword::Enum);
        }
        if same_text(s, "struct") {
            return Some(Keyword::Struct);
        }
        if same_text(s, "mod") {
            return Some(Keyword::Mod);
        }
        if same_text(s, "Self") {
            return Some(Keyword::SelfUpper);
        }
        if same_text(s, "self") {
            return Some(Keyword::SelfLower);
        }
        if same_text(s, "impl") {
            return Some(Keyword::Impl);
        }
        if same_text(s, "if") {
            return Some(Keyword::If);
        }
        if same_text(s, "else") {
            return Some(Keyword::Else);
        }
        if same_text(s, "match") {
            return Some(Keyword::Match);
        }
        if same_text(s, "for") {
            return Some(Keyword::For);
        }
        if same_text(s, "while") {
            return Some(Keyword::While);
        }
        if same_text(s, "loop") {
            return Some(Keyword::Loop);
        }
        if same_text(s, "in") {
            return Some(Keyword::In);
        }
        if same_text(s, "trait") {
            return Some(Keyword::Trait);
        }
        if same_text(s, "type") {
            return Some(Keyword::Type);
        }
        None
    }
}

} // verus!

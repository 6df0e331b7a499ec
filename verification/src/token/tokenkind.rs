//! The classification of tokens.

use vstd::prelude::*;
use crate::text::same_text;
use crate::token::delimiterkind::DelimiterKind;
use crate::token::keywords::{Keywords, TypeKind};
use crate::token::literals::{Literals, LiteralsView};
use crate::token::operators::arithmetic::ArithmeticOps;
use crate::token::operators::assignment::AssignmentOperator;
use crate::token::operators::bitwise::BitwiseOps;
use crate::token::operators::logical::LogicalOperator;
use crate::token::operators::relational::RelationalOperator;
use crate::token::operators::SpecialOps;

verus! {

/// What a token is.
#[derive(Debug, Clone, PartialEq, Eq)]
pub enum TokenKind {
    /// A reserved word.
    Keyword(Keywords),
    /// A name that is no reserved word.
    Identifier(String),
    /// A literal with its decoded value.
    Literal(Literals),
    /// A punctuation mark.
    Delimiter(DelimiterKind),
    /// An arithmetic operator.
    ArithmeticOperator(ArithmeticOps),
    /// A relational operator.
    RelationalOperator(RelationalOperator),
    /// A logical operator.
    LogicalOperator(LogicalOperator),
    /// An assignment operator.
    AssignmentOperator(AssignmentOperator),
    /// A bitwise operator.
    BitwiseOperator(BitwiseOps),
    /// `->` or `::`.
    SpecialOperator(SpecialOps),
    /// The end of the input.
    Eof,
}

/// The mathematical value of a [`TokenKind`].
pub enum TokenKindView {
    Keyword(Keywords),
    Identifier(Seq<char>),
    Literal(LiteralsView),
    Delimiter(DelimiterKind),
    ArithmeticOperator(ArithmeticOps),
    RelationalOperator(RelationalOperator),
    LogicalOperator(LogicalOperator),
    AssignmentOperator(AssignmentOperator),
    BitwiseOperator(BitwiseOps),
    SpecialOperator(SpecialOps),
    Eof,
}

impl View for TokenKind {
    type V = TokenKindView;

    open spec fn view(&self) -> TokenKindView {
        match *self {
            TokenKind::Keyword(k) => TokenKindView::Keyword(k),
            TokenKind::Identifier(s) => TokenKindView::Identifier(s@),
            TokenKind::Literal(l) => TokenKindView::Literal(l@),
            TokenKind::Delimiter(d) => TokenKindView::Delimiter(d),
            TokenKind::ArithmeticOperator(o) => TokenKindView::ArithmeticOperator(o),
            TokenKind::RelationalOperator(o) => TokenKindView::RelationalOperator(o),
            TokenKind::LogicalOperator(o) => TokenKindView::LogicalOperator(o),
            TokenKind::AssignmentOperator(o) => TokenKindView::AssignmentOperator(o),
            TokenKind::BitwiseOperator(o) => TokenKindView::BitwiseOperator(o),
            TokenKind::SpecialOperator(o) => TokenKindView::SpecialOperator(o),
            TokenKind::Eof => TokenKindView::Eof,
        }
    }
}

/// The reserved word that `text` spells, if it spells one.
pub open spec fn keyword_of(text: Seq<char>) -> Option<Keywords> {
    if text == "func"@ {
        Some(Keywords::Func)
    } else if text == "return"@ {
        Some(Keywords::Return)
    } else if text == "if"@ {
        Some(Keywords::If)
    } else if text == "else"@ {
        Some(Keywords::Else)
    } else if text == "elif"@ {
        Some(Keywords::Elif)
    } else if text == "loop"@ {
        Some(Keywords::Loop)
    } else if text == "switch"@ {
        Some(Keywords::Switch)
    } else if text == "case"@ {
        Some(Keywords::Case)
    } else if text == "var"@ {
        Some(Keywords::Var)
    } else if text == "const"@ {
        Some(Keywords::Const)
    } else if text == "final"@ {
        Some(Keywords::Final)
    } else if text == "i8"@ {
        Some(Keywords::Type(TypeKind::Int8))
    } else if text == "i16"@ {
        Some(Keywords::Type(TypeKind::Int16))
    } else if text == "i32"@ {
        Some(Keywords::Type(TypeKind::Int32))
    } else if text == "i64"@ {
        Some(Keywords::Type(TypeKind::Int64))
    } else if text == "u8"@ {
        Some(Keywords::Type(TypeKind::Unsigned8))
    } else if text == "u16"@ {
        Some(Keywords::Type(TypeKind::Unsigned16))
    } else if text == "u32"@ {
        Some(Keywords::Type(TypeKind::Unsigned32))
    } else if text == "u64"@ {
        Some(Keywords::Type(TypeKind::Unsigned64))
    } else if text == "f32"@ {
        Some(Keywords::Type(TypeKind::Float32))
    } else if text == "f64"@ {
        Some(Keywords::Type(TypeKind::Float64))
    } else if text == "string"@ {
        Some(Keywords::Type(TypeKind::String))
    } else if text == "char"@ {
        Some(Keywords::Type(TypeKind::Char))
    } else if text == "struct"@ {
        Some(Keywords::Type(TypeKind::Struct))
    } else if text == "bool"@ {
        Some(Keywords::Type(TypeKind::Bool))
    } else if text == "import"@ {
        Some(Keywords::Import)
    } else {
        None
    }
}

impl TokenKind {
    /// The keyword token that `s` spells, or `None` where `s` is no
    /// reserved word.
    pub fn keyword(s: &str) -> (r: Option<TokenKind>)
        ensures
            match keyword_of(s@) {
                Some(k) => r matches Some(kind) && kind@ == TokenKindView::Keyword(k),
                None => r is None,
            },
    {
        let kw = if same_text(s, "func") {
            Some(Keywords::Func)
        } else if same_text(s, "return") {
            Some(Keywords::Return)
        } else if same_text(s, "if") {
            Some(Keywords::If)
        } else if same_text(s, "else") {
            Some(Keywords::Else)
        } else if same_text(s, "elif") {
            Some(Keywords::Elif)
        } else if same_text(s, "loop") {
            Some(Keywords::Loop)
        } else if same_text(s, "switch") {
            Some(Keywords::Switch)
        } else if same_text(s, "case") {
            Some(Keywords::Case)
        } else if same_text(s, "var") {
            Some(Keywords::Var)
        } else if same_text(s, "const") {
            Some(Keywords::Const)
        } else if same_text(s, "final") {
            Some(Keywords::Final)
        } else if same_text(s, "i8") {
            Some(Keywords::Type(TypeKind::Int8))
        } else if same_text(s, "i16") {
            Some(Keywords::Type(TypeKind::Int16))
        } else if same_text(s, "i32") {
            Some(Keywords::Type(TypeKind::Int32))
        } else if same_text(s, "i64") {
            Some(Keywords::Type(TypeKind::Int64))
        } else if same_text(s, "u8") {
            Some(Keywords::Type(TypeKind::Unsigned8))
        } else if same_text(s, "u16") {
            Some(Keywords::Type(TypeKind::Unsigned16))
        } else if same_text(s, "u32") {
            Some(Keywords::Type(TypeKind::Unsigned32))
        } else if same_text(s, "u64") {
            Some(Keywords::Type(TypeKind::Unsigned64))
        } else if same_text(s, "f32") {
            Some(Keywords::Type(TypeKind::Float32))
        } else if same_text(s, "f64") {
            Some(Keywords::Type(TypeKind::Float64))
        } else if same_text(s, "string") {
            Some(Keywords::Type(TypeKind::String))
        } else if same_text(s, "char") {
            Some(Keywords::Type(TypeKind::Char))
        } else if same_text(s, "struct") {
            Some(Keywords::Type(TypeKind::Struct))
        } else if same_text(s, "bool") {
            Some(Keywords::Type(TypeKind::Bool))
        } else if same_text(s, "import") {
            Some(Keywords::Import)
        } else {
            None
        };
        match kw {
            Some(k) => Some(TokenKind::Keyword(k)),
            None => None,
        }
    }
}

} // verus!

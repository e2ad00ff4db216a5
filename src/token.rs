use vstd::prelude::*;

verus! {

/// The category of a token, without its text.
#[derive(Debug, Clone, Copy, PartialEq, Eq, Structural)]
pub enum TokenKind {
    Illegal,
    EndOfInput,
    // identifiers and literals
    Identifier,
    Integer,
    // operators
    Lt,
    Gt,
    Eq,
    NotEq,
    Assign,
    Plus,
    Minus,
    Bang,
    Asterisk,
    Slash,
    // delimiters
    Comma,
    Semicolon,
    Lparen,
    Rparen,
    Lbrace,
    Rbrace,
    // keywords
    Function,
    Let,
    True,
    False,
    If,
    Else,
    Return,
}

/// A token: its kind, with the matched text for the kinds whose spelling varies.
#[derive(Debug, PartialEq, Eq)]
pub enum Token {
    Illegal(String),
    EndOfInput,
    // identifiers and literals
    Identifier(String),
    Integer(String),
    // operators
    Lt,
    Gt,
    Eq,
    NotEq,
    Assign,
    Plus,
    Minus,
    Bang,
    Asterisk,
    Slash,
    // delimiters
    Comma,
    Semicolon,
    Lparen,
    Rparen,
    Lbrace,
    Rbrace,
    // keywords
    Function,
    Let,
    True,
    False,
    If,
    Else,
    Return,
}

/// The canonical spelling of a kind whose spelling never varies; empty for the
/// kinds that carry their text and for the end of input.
pub open spec fn fixed_spelling(k: TokenKind) -> Seq<char> {
    match k {
        TokenKind::Lt => seq!['<'],
        TokenKind::Gt => seq!['>'],
        TokenKind::Eq => seq!['=', '='],
        TokenKind::NotEq => seq!['!', '='],
        TokenKind::Assign => seq!['='],
        TokenKind::Plus => seq!['+'],
        TokenKind::Minus => seq!['-'],
        TokenKind::Bang => seq!['!'],
        TokenKind::Asterisk => seq!['*'],
        TokenKind::Slash => seq!['/'],
        TokenKind::Comma => seq![','],
        TokenKind::Semicolon => seq![';'],
        TokenKind::Lparen => seq!['('],
        TokenKind::Rparen => seq![')'],
        TokenKind::Lbrace => seq!['{'],
        TokenKind::Rbrace => seq!['}'],
        TokenKind::Function => seq!['f', 'n'],
        TokenKind::Let => seq!['l', 'e', 't'],
        TokenKind::True => seq!['t', 'r', 'u', 'e'],
        TokenKind::False => seq!['f', 'a', 'l', 's', 'e'],
        TokenKind::If => seq!['i', 'f'],
        TokenKind::Else => seq!['e', 'l', 's', 'e'],
        TokenKind::Return => seq!['r', 'e', 't', 'u', 'r', 'n'],
        _ => Seq::empty(),
    }
}

/// Whether tokens of this kind carry the text they were scanned from.
pub open spec fn carries_text(k: TokenKind) -> bool {
    k == TokenKind::Illegal || k == TokenKind::Identifier || k == TokenKind::Integer
}

impl Token {
    pub open spec fn spec_kind(&self) -> TokenKind {
        match self {
            Token::Illegal(_) => TokenKind::Illegal,
            Token::EndOfInput => TokenKind::EndOfInput,
            Token::Identifier(_) => TokenKind::Identifier,
            Token::Integer(_) => TokenKind::Integer,
            Token::Lt => TokenKind::Lt,
            Token::Gt => TokenKind::Gt,
            Token::Eq => TokenKind::Eq,
            Token::NotEq => TokenKind::NotEq,
            Token::Assign => TokenKind::Assign,
            Token::Plus => TokenKind::Plus,
            Token::Minus => TokenKind::Minus,
            Token::Bang => TokenKind::Bang,
            Token::Asterisk => TokenKind::Asterisk,
            Token::Slash => TokenKind::Slash,
            Token::Comma => TokenKind::Comma,
            Token::Semicolon => TokenKind::Semicolon,
            Token::Lparen => TokenKind::Lparen,
            Token::Rparen => TokenKind::Rparen,
            Token::Lbrace => TokenKind::Lbrace,
            Token::Rbrace => TokenKind::Rbrace,
            Token::Function => TokenKind::Function,
            Token::Let => TokenKind::Let,
            Token::True => TokenKind::True,
            Token::False => TokenKind::False,
            Token::If => TokenKind::If,
            Token::Else => TokenKind::Else,
            Token::Return => TokenKind::Return,
        }
    }

    /// The text of the token: the matched text for identifiers, integers and
    /// illegal bytes, the canonical spelling for every other kind, and nothing
    /// for the end of input.
    pub open spec fn text(&self) -> Seq<char> {
        match self {
            Token::Illegal(s) => s@,
            Token::Identifier(s) => s@,
            Token::Integer(s) => s@,
            _ => fixed_spelling(self.spec_kind()),
        }
    }

    /// The kind of this token.
    #[verifier::when_used_as_spec(spec_kind)]
    pub fn kind(&self) -> (r: TokenKind)
        ensures
            r == self.spec_kind(),
    {
        match self {
            Token::Illegal(_) => TokenKind::Illegal,
            Token::EndOfInput => TokenKind::EndOfInput,
            Token::Identifier(_) => TokenKind::Identifier,
            Token::Integer(_) => TokenKind::Integer,
            Token::Lt => TokenKind::Lt,
            Token::Gt => TokenKind::Gt,
            Token::Eq => TokenKind::Eq,
            Token::NotEq => TokenKind::NotEq,
            Token::Assign => TokenKind::Assign,
            Token::Plus => TokenKind::Plus,
            Token::Minus => TokenKind::Minus,
            Token::Bang => TokenKind::Bang,
            Token::Asterisk => TokenKind::Asterisk,
            Token::Slash => TokenKind::Slash,
            Token::Comma => TokenKind::Comma,
            Token::Semicolon => TokenKind::Semicolon,
            Token::Lparen => TokenKind::Lparen,
            Token::Rparen => TokenKind::Rparen,
            Token::Lbrace => TokenKind::Lbrace,
            Token::Rbrace => TokenKind::Rbrace,
            Token::Function => TokenKind::Function,
            Token::Let => TokenKind::Let,
            Token::True => TokenKind::True,
            Token::False => TokenKind::False,
            Token::If => TokenKind::If,
            Token::Else => TokenKind::Else,
            Token::Return => TokenKind::Return,
        }
    }

    /// Renders the token as text: the source spelling for identifiers, integers
    /// and illegal bytes, the canonical symbol or keyword for the other kinds,
    /// and the empty string for the end of input.
    pub fn to_string(&self) -> (r: String)
        ensures
            r@ == self.text(),
    {
        match self {
            Token::Illegal(s) => s.clone(),
            Token::EndOfInput => String::new(),
            Token::Identifier(s) => s.clone(),
            Token::Integer(s) => s.clone(),
            Token::Lt => {
                proof {
                    reveal_strlit("<");
                }
                String::from_str("<")
            },
            Token::Gt => {
                proof {
                    reveal_strlit(">");
                }
                String::from_str(">")
            },
            Token::Eq => {
                proof {
                    reveal_strlit("==");
                }
                String::from_str("==")
            },
            Token::NotEq => {
                proof {
                    reveal_strlit("!=");
                }
                String::from_str("!=")
            },
            Token::Assign => {
                proof {
                    reveal_strlit("=");
                }
                String::from_str("=")
            },
            Token::Plus => {
                proof {
                    reveal_strlit("+");
                }
                String::from_str("+")
            },
            Token::Minus => {
                proof {
                    reveal_strlit("-");
                }
                String::from_str("-")
            },
            Token::Bang => {
                proof {
                    reveal_strlit("!");
                }
                String::from_str("!")
            },
            Token::Asterisk => {
                proof {
                    reveal_strlit("*");
                }
                String::from_str("*")
            },
            Token::Slash => {
                proof {
                    reveal_strlit("/");
                }
                String::from_str("/")
            },
            Token::Comma => {
                proof {
                    reveal_strlit(",");
                }
                String::from_str(",")
            },
            Token::Semicolon => {
                proof {
                    reveal_strlit(";");
                }
                String::from_str(";")
            },
            Token::Lparen => {
                proof {
                    reveal_strlit("(");
                }
                String::from_str("(")
            },
            Token::Rparen => {
                proof {
                    reveal_strlit(")");
                }
                String::from_str(")")
            },
            Token::Lbrace => {
                proof {
                    reveal_strlit("{");
                }
                String::from_str("{")
            },
            Token::Rbrace => {
                proof {
                    reveal_strlit("}");
                }
                String::from_str("}")
            },
            Token::Function => {
                proof {
                    reveal_strlit("fn");
                }
                String::from_str("fn")
            },
            Token::Let => {
                proof {
                    reveal_strlit("let");
                }
                String::from_str("let")
            },
            Token::True => {
                proof {
                    reveal_strlit("true");
                }
                String::from_str("true")
            },
            Token::False => {
                proof {
                    reveal_strlit("false");
                }
                String::from_str("false")
            },
            Token::If => {
                proof {
                    reveal_strlit("if");
                }
                String::from_str("if")
            },
            Token::Else => {
                proof {
                    reveal_strlit("else");
                }
                String::from_str("else")
            },
            Token::Return => {
                proof {
                    reveal_strlit("return");
                }
                String::from_str("return")
            },
        }
    }
}

} // verus!

//! The input of the macro that generates bindings in place:
//! `mod <module> trait <interface> for "<path>"`.
//!
//! [`AbiDef::parse`] reads an invocation from the front of the tokens and
//! leaves the rest; [`AbiDef::parse_macro_input`] takes the tokens as the
//! whole input of the macro and lets nothing follow.
use crate::text::same_text;
use vstd::prelude::*;

verus! {

/// One token of the input.
#[derive(Debug, PartialEq, Eq)]
pub enum MacroToken {
    /// An identifier or a reserved word.
    Word(String),
    /// A string literal; the text is its value.
    Text(String),
    /// Any other token.
    Other,
}

/// What an invocation names.
#[derive(Debug, PartialEq, Eq)]
pub struct AbiDef {
    /// Resulting mod name.
    pub mod_name: String,
    /// Resulting ext contract trait name.
    pub trait_name: String,
    /// Path to the ABI file.
    pub path: String,
}

/// What the input should have held at some position.
#[derive(Clone, Copy, PartialEq, Eq, Structural, Debug)]
pub enum Expected {
    /// The word `mod`.
    Mod,
    /// The word `trait`.
    Trait,
    /// The word `for`.
    For,
    /// A name: an identifier that is no reserved word.
    Name,
    /// A string literal.
    Path,
    /// The end of the input.
    End,
}

/// The input is not an invocation: at `position`, counted in tokens from 0,
/// it does not hold what it should.
#[derive(Clone, Copy, PartialEq, Eq, Structural, Debug)]
pub struct MacroInputError {
    pub position: usize,
    pub expected: Expected,
}

/// The mathematical value of a [`MacroToken`].
pub enum MacroTokenModel {
    Word(Seq<char>),
    Text(Seq<char>),
    Other,
}

/// The mathematical value of an [`AbiDef`].
pub struct AbiDefModel {
    pub mod_name: Seq<char>,
    pub trait_name: Seq<char>,
    pub path: Seq<char>,
}

impl DeepView for MacroToken {
    type V = MacroTokenModel;

    open spec fn deep_view(&self) -> MacroTokenModel {
        match self {
            MacroToken::Word(word) => MacroTokenModel::Word(word@),
            MacroToken::Text(text) => MacroTokenModel::Text(text@),
            MacroToken::Other => MacroTokenModel::Other,
        }
    }
}

impl DeepView for AbiDef {
    type V = AbiDefModel;

    open spec fn deep_view(&self) -> AbiDefModel {
        AbiDefModel { mod_name: self.mod_name@, trait_name: self.trait_name@, path: self.path@ }
    }
}

/// Whether `word` is reserved in Rust, `_` included, and so can name nothing.
pub open spec fn is_reserved(word: Seq<char>) -> bool {
    ||| word == "_"@
    ||| word == "abstract"@
    ||| word == "as"@
    ||| word == "async"@
    ||| word == "await"@
    ||| word == "become"@
    ||| word == "box"@
    ||| word == "break"@
    ||| word == "const"@
    ||| word == "continue"@
    ||| word == "crate"@
    ||| word == "do"@
    ||| word == "dyn"@
    ||| word == "else"@
    ||| word == "enum"@
    ||| word == "extern"@
    ||| word == "false"@
    ||| word == "final"@
    ||| word == "fn"@
    ||| word == "for"@
    ||| word == "if"@
    ||| word == "impl"@
    ||| word == "in"@
    ||| word == "let"@
    ||| word == "loop"@
    ||| word == "macro"@
    ||| word == "match"@
    ||| word == "mod"@
    ||| word == "move"@
    ||| word == "mut"@
    ||| word == "override"@
    ||| word == "priv"@
    ||| word == "pub"@
    ||| word == "ref"@
    ||| word == "return"@
    ||| word == "Self"@
    ||| word == "self"@
    ||| word == "static"@
    ||| word == "struct"@
    ||| word == "super"@
    ||| word == "trait"@
    ||| word == "true"@
    ||| word == "try"@
    ||| word == "type"@
    ||| word == "typeof"@
    ||| word == "unsafe"@
    ||| word == "unsized"@
    ||| word == "use"@
    ||| word == "virtual"@
    ||| word == "where"@
    ||| word == "while"@
    ||| word == "yield"@
}

/// Whether the token at `position` is the word `word`.
pub open spec fn holds_word(tokens: Seq<MacroTokenModel>, position: int, word: Seq<char>) -> bool {
    0 <= position < tokens.len() && tokens[position] == MacroTokenModel::Word(word)
}

/// Whether the token at `position` is a name: a word that is not reserved.
pub open spec fn holds_name(tokens: Seq<MacroTokenModel>, position: int) -> bool {
    0 <= position < tokens.len() && tokens[position] is Word && !is_reserved(
        tokens[position]->Word_0,
    )
}

/// What the input `tokens` begins with: an invocation, and the number of
/// tokens that make it up, or the first place where it is none. An
/// invocation is the word `mod`, a name, the word `trait`, a name, the word
/// `for` and a string literal; what follows them is not looked at.
pub open spec fn abi_def_of(tokens: Seq<MacroTokenModel>) -> Result<
    (AbiDefModel, usize),
    MacroInputError,
> {
    if !holds_word(tokens, 0, "mod"@) {
        Err(MacroInputError { position: 0, expected: Expected::Mod })
    } else if !holds_name(tokens, 1) {
        Err(MacroInputError { position: 1, expected: Expected::Name })
    } else if !holds_word(tokens, 2, "trait"@) {
        Err(MacroInputError { position: 2, expected: Expected::Trait })
    } else if !holds_name(tokens, 3) {
        Err(MacroInputError { position: 3, expected: Expected::Name })
    } else if !holds_word(tokens, 4, "for"@) {
        Err(MacroInputError { position: 4, expected: Expected::For })
    } else if !(tokens.len() > 5 && tokens[5] is Text) {
        Err(MacroInputError { position: 5, expected: Expected::Path })
    } else {
        Ok(
            (
                AbiDefModel {
                    mod_name: tokens[1]->Word_0,
                    trait_name: tokens[3]->Word_0,
                    path: tokens[5]->Text_0,
                },
                6,
            ),
        )
    }
}

/// What the whole input `tokens` names: the invocation that it begins with,
/// if nothing follows it; else the end of the input was expected where the
/// invocation ends.
pub open spec fn macro_input_of(tokens: Seq<MacroTokenModel>) -> Result<
    AbiDefModel,
    MacroInputError,
> {
    match abi_def_of(tokens) {
        Err(error) => Err(error),
        Ok((abi_def, read)) => if tokens.len() > read {
            Err(MacroInputError { position: read, expected: Expected::End })
        } else {
            Ok(abi_def)
        },
    }
}

/// Whether `word` is reserved in Rust, `_` included.
pub fn reserved(word: &str) -> (reserved: bool)
    ensures
        reserved == is_reserved(word@),
{
    same_text(word, "_")
        || same_text(word, "abstract")
        || same_text(word, "as")
        || same_text(word, "async")
        || same_text(word, "await")
        || same_text(word, "become")
        || same_text(word, "box")
        || same_text(word, "break")
        || same_text(word, "const")
        || same_text(word, "continue")
        || same_text(word, "crate")
        || same_text(word, "do")
        || same_text(word, "dyn")
        || same_text(word, "else")
        || same_text(word, "enum")
        || same_text(word, "extern")
        || same_text(word, "false")
        || same_text(word, "final")
        || same_text(word, "fn")
        || same_text(word, "for")
        || same_text(word, "if")
        || same_text(word, "impl")
        || same_text(word, "in")
        || same_text(word, "let")
        || same_text(word, "loop")
        || same_text(word, "macro")
        || same_text(word, "match")
        || same_text(word, "mod")
        || same_text(word, "move")
        || same_text(word, "mut")
        || same_text(word, "override")
        || same_text(word, "priv")
        || same_text(word, "pub")
        || same_text(word, "ref")
        || same_text(word, "return")
        || same_text(word, "Self")
        || same_text(word, "self")
        || same_text(word, "static")
        || same_text(word, "struct")
        || same_text(word, "super")
        || same_text(word, "trait")
        || same_text(word, "true")
        || same_text(word, "try")
        || same_text(word, "type")
        || same_text(word, "typeof")
        || same_text(word, "unsafe")
        || same_text(word, "unsized")
        || same_text(word, "use")
        || same_text(word, "virtual")
        || same_text(word, "where")
        || same_text(word, "while")
        || same_text(word, "yield")
}

/// Whether the token at `position` is the word `word`.
pub fn has_word(tokens: &Vec<MacroToken>, position: usize, word: &str) -> (held: bool)
    ensures
        held == holds_word(tokens.deep_view(), position as int, word@),
{
    if position < tokens.len() {
        assert(tokens.deep_view()[position as int] == tokens[position as int].deep_view());
        match &tokens[position] {
            MacroToken::Word(found) => same_text(found.as_str(), word),
            _ => false,
        }
    } else {
        false
    }
}

/// The name at `position`, if the token there is one.
pub fn name_at(tokens: &Vec<MacroToken>, position: usize) -> (name: Option<String>)
    ensures
        name is Some <==> holds_name(tokens.deep_view(), position as int),
        name matches Some(found) ==> found@ == tokens.deep_view()[position as int]->Word_0,
{
    if position < tokens.len() {
        assert(tokens.deep_view()[position as int] == tokens[position as int].deep_view());
        match &tokens[position] {
            MacroToken::Word(found) => {
                if reserved(found.as_str()) {
                    None
                } else {
                    Some(found.clone())
                }
            },
            _ => None,
        }
    } else {
        None
    }
}

/// The value of the outcome of reading the beginning of an input.
pub open spec fn parsed_view(outcome: Result<(AbiDef, usize), MacroInputError>) -> Result<
    (AbiDefModel, usize),
    MacroInputError,
> {
    match outcome {
        Ok((abi_def, read)) => Ok((abi_def.deep_view(), read)),
        Err(error) => Err(error),
    }
}

/// The value of the outcome of reading a whole input.
pub open spec fn macro_input_view(outcome: Result<AbiDef, MacroInputError>) -> Result<
    AbiDefModel,
    MacroInputError,
> {
    match outcome {
        Ok(abi_def) => Ok(abi_def.deep_view()),
        Err(error) => Err(error),
    }
}

impl AbiDef {
    /// Reads the invocation that `input` begins with, and says how many
    /// tokens it read. Tokens that follow the invocation are left alone.
    pub fn parse(input: &Vec<MacroToken>) -> (outcome: Result<(AbiDef, usize), MacroInputError>)
        ensures
            parsed_view(outcome) == abi_def_of(input.deep_view()),
            outcome matches Ok((_, read)) ==> read <= input.len(),
    {
        if !has_word(input, 0, "mod") {
            return Err(MacroInputError { position: 0, expected: Expected::Mod });
        }
        let mod_name = match name_at(input, 1) {
            Some(name) => name,
            None => {
                return Err(MacroInputError { position: 1, expected: Expected::Name });
            },
        };
        if !has_word(input, 2, "trait") {
            return Err(MacroInputError { position: 2, expected: Expected::Trait });
        }
        let trait_name = match name_at(input, 3) {
            Some(name) => name,
            None => {
                return Err(MacroInputError { position: 3, expected: Expected::Name });
            },
        };
        if !has_word(input, 4, "for") {
            return Err(MacroInputError { position: 4, expected: Expected::For });
        }
        if input.len() <= 5 {
            return Err(MacroInputError { position: 5, expected: Expected::Path });
        }
        assert(input.deep_view()[5] == input[5].deep_view());
        let path = match &input[5] {
            MacroToken::Text(path) => path.clone(),
            _ => {
                return Err(MacroInputError { position: 5, expected: Expected::Path });
            },
        };
        Ok((AbiDef { mod_name, trait_name, path }, 6))
    }

    /// Reads `input` as one whole invocation: what [`AbiDef::parse`] reads,
    /// with nothing after it.
    pub fn parse_macro_input(input: &Vec<MacroToken>) -> (outcome: Result<
        AbiDef,
        MacroInputError,
    >)
        ensures
            macro_input_view(outcome) == macro_input_of(input.deep_view()),
    {
        match AbiDef::parse(input) {
            Err(error) => Err(error),
            Ok((abi_def, read)) => {
                if input.len() > read {
                    Err(MacroInputError { position: read, expected: Expected::End })
                } else {
                    Ok(abi_def)
                }
            },
        }
    }
}

} // verus!

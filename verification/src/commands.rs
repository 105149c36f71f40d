//! Shell commands read from a sequence of tokens.

use crate::text::str_equal;
use crate::tokenizer::{tokens_of, Token, TokenType, TokenView, Tokenizer};
use vstd::prelude::*;

verus! {

/// A command of the shell.
#[derive(Debug)]
pub enum LSQLCommand {
    Select {  },
    CD { to: String },
    BACK,
}

/// The view of an [`LSQLCommand`].
pub enum CommandView {
    Select,
    CD { to: Seq<char> },
    BACK,
}

impl View for LSQLCommand {
    type V = CommandView;

    open spec fn view(&self) -> CommandView {
        match self {
            LSQLCommand::Select {  } => CommandView::Select,
            LSQLCommand::CD { to } => CommandView::CD { to: to@ },
            LSQLCommand::BACK => CommandView::BACK,
        }
    }
}

/// The views of a sequence of commands.
pub open spec fn commands_of(commands: Seq<LSQLCommand>) -> Seq<CommandView> {
    commands.map_values(|c: LSQLCommand| c@)
}

/// Whether a token is the keyword spelled `word`.
pub open spec fn is_word(token: TokenView, word: Seq<char>) -> bool {
    token.token_type == TokenType::Keyword && token.literal == word
}

/// Whether a token asks for a change of directory: it is the keyword `CD`.
pub open spec fn changes_directory(token: TokenView) -> bool {
    !is_word(token, "SELECT"@) && !is_word(token, "BACK"@) && is_word(token, "CD"@)
}

/// The commands of the first `upto` tokens: a keyword `BACK` is the command
/// to go back, a keyword `CD` the command to change to the directory named
/// by the token after the first one; every other token stands for nothing.
pub open spec fn commands_upto(tokens: Seq<TokenView>, upto: int) -> Seq<CommandView>
    decreases upto,
{
    if upto <= 0 {
        Seq::empty()
    } else {
        let before = commands_upto(tokens, upto - 1);
        let token = tokens[upto - 1];
        if is_word(token, "SELECT"@) {
            before
        } else if is_word(token, "BACK"@) {
            before.push(CommandView::BACK)
        } else if is_word(token, "CD"@) {
            before.push(CommandView::CD { to: tokens[1].literal })
        } else {
            before
        }
    }
}

/// Whether some token asks for a change of directory.
pub open spec fn names_a_directory(tokens: Seq<TokenView>) -> bool {
    exists|i: int| 0 <= i < tokens.len() && changes_directory(#[trigger] tokens[i])
}

/// A reader of commands from tokens.
#[derive(Debug)]
pub struct Parser {
    tokens: Vec<Token>,
    position: usize,
}

impl Parser {
    /// The tokens under the parser.
    pub closed spec fn tokens(&self) -> Seq<TokenView> {
        tokens_of(self.tokens@)
    }

    #[verifier::type_invariant]
    spec fn starts_at_first_token(&self) -> bool {
        self.position == 0
    }

    pub fn new(tokens: Vec<Token>) -> (r: Self)
        ensures
            r.tokens() == tokens_of(tokens@),
    {
        Self { tokens, position: 0 }
    }

    /// A parser over the tokens of `tokens`.
    pub fn from_tokens_str(tokens: &str) -> (r: Self)
        ensures
            r.tokens() == crate::tokenizer::tokens_from(
                crate::tokenizer::words_in(tokens@),
                0,
                Seq::empty(),
            ),
    {
        let mut tokenizer = Tokenizer::new(tokens);
        let tokens = tokenizer.tokenize();
        Self::new(tokens)
    }

    /// Whether some token asks for a change of directory.
    fn asks_for_directory(&self) -> (r: bool)
        ensures
            r == names_a_directory(self.tokens()),
    {
        let ghost tokens = tokens_of(self.tokens@);
        let mut i: usize = 0;
        while i < self.tokens.len()
            invariant
                i <= self.tokens@.len(),
                tokens == tokens_of(self.tokens@),
                forall|k: int| 0 <= k < i ==> !changes_directory(#[trigger] tokens[k]),
            decreases self.tokens@.len() - i,
        {
            let token = &self.tokens[i];
            assert(tokens[i as int] == token@);
            let is_keyword = match token.token_type {
                TokenType::Keyword => true,
                _ => false,
            };
            let word = token.literal.as_str();
            if is_keyword && !str_equal(word, "SELECT") && !str_equal(word, "BACK") && str_equal(
                word,
                "CD",
            ) {
                assert(changes_directory(tokens[i as int]));
                return true;
            }
            i = i + 1;
        }
        false
    }

    /// The commands that the tokens stand for, in order, or `None` if a
    /// `CD` has no second token to name its directory.
    pub fn try_walk(&self) -> (r: Option<Vec<LSQLCommand>>)
        ensures
            match r {
                Some(commands) => commands_of(commands@) == commands_upto(
                    self.tokens(),
                    self.tokens().len() as int,
                ) && (names_a_directory(self.tokens()) ==> self.tokens().len() >= 2),
                None => names_a_directory(self.tokens()) && self.tokens().len() < 2,
            },
    {
        if self.asks_for_directory() && self.tokens.len() < 2 {
            None
        } else {
            Some(self.walk())
        }
    }

    /// The commands that the tokens stand for, in order. A `CD` needs a
    /// second token to name its directory.
    pub fn walk(&self) -> (commands: Vec<LSQLCommand>)
        requires
            names_a_directory(self.tokens()) ==> self.tokens().len() >= 2,
        ensures
            commands_of(commands@) == commands_upto(self.tokens(), self.tokens().len() as int),
    {
        proof {
            use_type_invariant(self);
        }
        let ghost tokens = tokens_of(self.tokens@);
        let mut commands: Vec<LSQLCommand> = Vec::new();
        let mut i: usize = 0;
        assert(commands_of(commands@) =~= commands_upto(tokens, 0));
        while i < self.tokens.len()
            invariant
                i <= self.tokens@.len(),
                tokens == tokens_of(self.tokens@),
                self.position == 0,
                names_a_directory(tokens) ==> tokens.len() >= 2,
                commands_of(commands@) == commands_upto(tokens, i as int),
            decreases self.tokens@.len() - i,
        {
            let token = &self.tokens[i];
            assert(tokens[i as int] == token@);
            match token.token_type {
                TokenType::Keyword => {
                    let word = token.literal.as_str();
                    if str_equal(word, "SELECT") {
                    } else if str_equal(word, "BACK") {
                        let command = LSQLCommand::BACK;
                        assert(commands_of(commands@.push(command)) =~= commands_of(
                            commands@,
                        ).push(command@));
                        commands.push(command);
                    } else if str_equal(word, "CD") {
                        assert(changes_directory(tokens[i as int]));
                        assert(names_a_directory(tokens));
                        let path = self.tokens[self.position + 1].literal.clone();
                        assert(tokens[1] == self.tokens@[1]@);
                        let command = LSQLCommand::CD { to: path };
                        assert(commands_of(commands@.push(command)) =~= commands_of(
                            commands@,
                        ).push(command@));
                        commands.push(command);
                    }
                },
                _ => {},
            }
            i = i + 1;
        }
        commands
    }
}

} // verus!

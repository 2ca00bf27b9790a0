//! Expansion of a table of test cases, attached to one shared test body, into
//! independently named test entries grouped under one module.
//!
//! A declaration such as `use_args_for_case_name = true, sum_1_1, (1, 1, 2),
//! (1, 2, 3)` stands on a function that takes the arguments of one case. The
//! expansion leaves the function as it is and adds a module with one test
//! for each case, which calls the function with the arguments of that case.
//!
//! The work is done in four steps, each a module with its own contracts:
//! `parser` reads the tokens of a declaration into a `Specification`,
//! `normalize` brings each case into one form, `naming` gives each case its
//! identifier, and `emit` writes the entries. `lexer` makes the tokens from
//! text, on top of `syntax`, which holds all that is taken on trust from
//! outside crates. `expand` puts the steps together.

pub mod text;
pub mod slug;
pub mod model;
pub mod token;
pub mod parser;
pub mod syntax;
pub mod lexer;
pub mod naming;
pub mod normalize;
pub mod emit;
pub mod expand;

pub use emit::{emit, emit_call, emit_entry, emit_group};
pub use expand::{base_function, expand, p_test, parse_specification, ExpansionError};
pub use lexer::{is_unit, read_boolean, read_punctuation, tokenize};
pub use model::{
    BaseFunction, CaseDeclaration, ExpansionResult, Expression, NameToken, NormalizedCase,
    RawArgumentForm, ResolvedCase, Specification,
};
pub use naming::{
    case_name, case_name_with_args, case_name_with_counter, group_name, resolve_names,
};
pub use normalize::{normalize, normalize_all};
pub use parser::{classify, parse};
pub use slug::slugify;
pub use syntax::{Lexeme, LexemeKind};
pub use token::{GrammarError, GrammarErrorKind, Token};

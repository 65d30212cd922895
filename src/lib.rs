//! Lints commit messages written in the conventional-commit format.
//!
//! The grammar parser turns a message into a [`Commit`]; the rule
//! engine holds that record against a [`Conf`] and reports every
//! rule that fails, each with a byte span into the message.
mod casing;
mod commit;
pub mod grammar;
pub mod laws;
mod lint;
mod messages;
mod parser;
mod policy;
mod rules;
mod scan;
mod text;

pub use casing::{case_conforms, conforms, Casing};
pub use commit::Commit;
pub use grammar::CommitModel;
pub use lint::{check, lint, rule_fires, LintError, LintErrorKind, LintFailure, Span};
pub use messages::{help, label};
pub use parser::{parse, parse_footer_key, parse_footer_value, ParseError};
pub use policy::{Conf, ScopeConf, TypeConf};

pub use rules::{
    commit_scope_case_invalid, commit_scope_invalid, commit_scope_required, commit_scope_too_long,
    commit_scope_too_short, commit_type_case_invalid, commit_type_invalid, commit_type_too_long,
    commit_type_too_short,
};

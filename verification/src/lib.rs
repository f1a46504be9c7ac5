//! A parser for a declarative notation of widget trees.
//!
//! A description is a sequence of tokens ([`token::Token`]): words,
//! punctuation, literals and brackets. Reading it gives a tree
//! ([`ast::TopLevelWidget`]): a widget with its attributes, its function
//! and its properties, some of which are widgets again.
//!
//! ```text
//! #[root]
//! gtk::Window {
//!     set_title: "Counter",
//!     set_child = gtk::Box::new(Vertical, 5) {
//!         append = &gtk::Button { connect_clicked => on_click },
//!     },
//! }
//! ```
//!
//! Reading never fails ([`ast::TopLevelWidget::parse`]). What cannot be read
//! stays in the tree as a diagnostic ([`diagnostic::Diagnostic`]) in the
//! place of the property that it was found in, and everything around it is
//! read all the same. A widget that cannot be read as a whole is replaced by
//! a placeholder widget that holds the diagnostic.
//!
//! Every function is specified by a function of the same grammar over
//! mathematical sequences: [`top_level::spec_top_level`] says what a
//! sequence of tokens stands for, and the executable parser is proved to
//! compute exactly that. On top of the grammar, [`positions`] shows that a
//! tree only holds positions of the tokens that it was read from.
//!
//! One thing the grammar does not decide: whether a word is an identifier
//! that may name a widget. That is asked of `syn`, once for each token
//! ([`names::name_verdicts`]), and the grammar takes the answers as a
//! sequence of verdicts. [`ast::TopLevelWidget::parse_with`] reads with
//! given verdicts and is specified exactly; [`ast::TopLevelWidget::parse`]
//! asks for the verdicts first.
//!
//! The module [`actions`] is independent of the parser: it gives elements of
//! a user interface the name and the target of their action.

pub mod actions;
pub mod ast;
pub mod attr;
pub mod diagnostic;
pub mod func;
pub mod names;
pub mod nesting;
pub mod path;
pub mod positions;
pub mod report;
pub mod token;
pub mod top_level;
pub mod widget;

pub use crate::ast::{TopLevelWidget, Widget};
pub use crate::diagnostic::{Diagnostic, DiagnosticKind};
pub use crate::token::{Delimiter, Token};
pub use crate::top_level::TokenCursor;

//! Source-to-source rewrites of atom declarations: debug labels and a
//! hot-reload cache around atom construction.
use vstd::prelude::*;

pub mod ast;
pub mod text;
pub mod names;
pub mod refresh;
pub mod label;
pub mod path;
pub mod laws;

pub use ast::{Binding, Declarator, Expr, FileName, Import, ImportSpec, MemberProp, Node, Program, Prop, PropKey, Stmt, VarDecl};
pub use label::{debug_label, debug_label_transform, DebugLabelTransformVisitor};
pub use names::{AtomImportMap, Config};
pub use path::convert_path_to_posix;
pub use refresh::{react_refresh, react_refresh_transform, ReactRefreshTransformVisitor};

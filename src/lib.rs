pub mod filter;
pub mod query_core;
pub mod sql_text;
pub mod stream;

pub use filter::{ColExpr, Comparison, FilterExpr, JoinArg, SqlValue};
pub use query_core::{Executable, NormalQuery, QueryCore, RawQuery, SsqlError};
pub use stream::RowStream;

//! Parsing of BMS difficulty tables: data model, HTML discovery of the
//! header JSON location, and the decisions taken while fetching a table.

pub mod de;
pub mod error;
pub mod fetch;
pub mod html;
pub mod model;
pub mod text;

pub use crate::error::BmsTableError;
pub use crate::html::BmsTableHtml;
pub use crate::model::{
    BmsTable, BmsTableData, BmsTableHeader, BmsTableInfo, BmsTableList, ChartItem, CourseGroup,
    CourseInfo, Trophy,
};

//! Only the extension traits, so that callers can import the fluent
//! surface wholesale while picking other items from the crate root.

pub use crate::ext::Neo4jExt;
pub use crate::ext::Neo4jImageExt;
pub use crate::ext::Neo4jRunnableImageExt;

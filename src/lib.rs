pub mod cursor;
pub mod entry;
pub mod model;
pub mod order;
pub mod router;
pub mod search;

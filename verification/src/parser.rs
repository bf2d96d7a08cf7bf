pub mod assembly;
pub mod table;

pub mod levenshtein;
pub mod metric;
pub mod table;

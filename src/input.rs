pub mod row;

pub mod accessor;

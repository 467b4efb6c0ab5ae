pub mod connection;
pub mod data_node;
pub mod device;
pub mod json;
pub mod parameter_value;
pub mod parse;
pub mod request;
pub mod util;

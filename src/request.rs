pub mod add_delete_object;
pub mod download_command;
pub mod get_parameter_values;
pub mod refresh_object;
pub mod set_parameter_values;
pub mod simple_command;

//! Assembly of generated scripts: indentation and the three script sections.
pub mod indent_engine;
pub mod script_buffer;

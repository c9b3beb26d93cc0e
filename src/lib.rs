pub mod color;
pub mod converter;
pub mod lua_gen;
pub mod mapping;
pub mod render;
pub mod text;
pub mod types;
pub mod vim_gen;

pub use converter::{ConversionOptions, OutputFormat, ThemeConverter};
pub use lua_gen::LuaGenerator;
pub use types::ThemeConfig;
pub use vim_gen::VimGenerator;

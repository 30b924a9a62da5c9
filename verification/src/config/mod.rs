pub mod dep;
pub mod ignore;
pub mod toml;

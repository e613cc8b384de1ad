pub mod consts;
pub mod enums;

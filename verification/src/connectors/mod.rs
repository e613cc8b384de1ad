pub mod spi;
pub mod spi_cs;
pub mod traits;

pub mod uuid_driver;

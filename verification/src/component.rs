pub mod id;

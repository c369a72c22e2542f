pub mod list_models;

//! Colours: the model, reading colour text, shortening and checking it.
pub mod converter;
pub mod model;
pub mod shortener;
pub mod validator;

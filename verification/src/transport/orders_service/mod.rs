pub mod service;
pub mod validator;

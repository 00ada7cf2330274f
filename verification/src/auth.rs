pub mod interceptor;
pub mod token_manager;

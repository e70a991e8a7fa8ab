pub mod app_error_impl;
pub mod middleware;
pub mod routes;

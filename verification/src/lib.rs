//! A FastAPI-style web framework core: routing tables, OpenAPI document
//! generation, request helpers and response descriptions, with their
//! behaviour stated and proved.

pub mod auth;
pub mod background_tasks;
pub mod cli;
pub mod dependencies;
pub mod docs;
pub mod example;
pub mod exception;
pub mod extractors;
pub mod headers;
pub mod health;
pub mod json;
pub mod models;
pub mod openapi;
pub mod openapi_laws;
pub mod perf;
pub mod projection;
pub mod responses;
pub mod route_plan;
pub mod routing;
pub mod status;
pub mod text;
pub mod upload;
pub mod ws;

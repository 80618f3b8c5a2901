//! Ownership records of message topics, the join and filter engine over them,
//! the retrieval-augmented answering pipeline that is fed from them, and the
//! token guard in front of both.

pub mod apis;
pub mod azure_ai_apis;
pub mod clock;
pub mod cors;
pub mod data_service;
pub mod data_state;
pub mod decomposition;
pub mod entities;
pub mod entities_ai;
pub mod export;
pub mod jwt_middleware;
pub mod knowledge;
pub mod orchestrator;
pub mod ranking;
pub mod retrieval;
pub mod text;

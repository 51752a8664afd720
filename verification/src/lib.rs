//! Management of coding-assistant working environments: API configurations,
//! versioned development plans, plan templates and the association of local
//! project directories with plans.
pub mod clock;
pub mod ids;
pub mod models;
pub mod text;
pub mod services;
pub mod storage;

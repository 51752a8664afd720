//! The operations of the tool on its stored records.
pub mod api_service;
pub mod plan_service;
pub mod project_service;
pub mod template_service;
pub mod claude_code_service;
pub mod env_service;

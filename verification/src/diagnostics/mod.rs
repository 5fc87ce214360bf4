//! Bug reports and what the operators see of the service.

pub mod admin_routes;
pub mod bug_report;
pub mod bug_report_rate_limiter;
pub mod llm_client;
pub mod prompts;
pub mod routes;
pub mod test_metrics;

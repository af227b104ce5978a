mod domain_error;

pub use domain_error::DomainError;

mod tags;

pub use tags::{is_kebab_case, is_kebab_tag, tags_in_kebab_case, validate_tags};

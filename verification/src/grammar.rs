pub mod registry;
pub mod scope_list_element;

pub use registry::Grammar;
pub use scope_list_element::ScopeListElement;

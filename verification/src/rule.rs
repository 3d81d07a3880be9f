pub mod abstract_rule;
pub mod begin_end_rule;
pub mod begin_while_rule;
pub mod capture_rule;
pub mod compiled_rule;
pub mod empty_rule;
pub mod error;
pub mod include_only_rule;
pub mod match_rule;
pub mod reg_exp_source;
pub mod rule_factory;

pub use abstract_rule::{Rule, RuleEnum};
pub use begin_end_rule::BeginEndRule;
pub use begin_while_rule::BeginWhileRule;
pub use capture_rule::CaptureRule;
pub use compiled_rule::CompiledRule;
pub use empty_rule::EmptyRule;
pub use error::RuleError;
pub use include_only_rule::IncludeOnlyRule;
pub use match_rule::MatchRule;
pub use reg_exp_source::{AnchorCache, RegExpSource, RegExpSourceList};
pub use rule_factory::ICompilePatternsResult;

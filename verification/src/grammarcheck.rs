use vstd::prelude::*;

verus! {

/// Grammar checker for e-mail composition.
///
/// The checker has no rule set loaded: every check reports no error.
pub struct GrammarChecker {
    rules_loaded: bool,
}

/// A grammar error with its byte range and the proposed replacements.
#[derive(Debug, Clone)]
pub struct GrammarError {
    pub message: String,
    pub start: usize,
    pub end: usize,
    pub replacements: Vec<String>,
}

/// Configuration for grammar checking.
#[derive(Debug, Clone)]
pub struct GrammarCheckConfig {
    pub enabled: bool,
}

impl Default for GrammarCheckConfig {
    /// Grammar checking is disabled by default.
    fn default() -> (r: Self)
        ensures
            !r.enabled,
    {
        GrammarCheckConfig { enabled: false }
    }
}

/// Why a grammar checker could not be created.
#[derive(Debug, Clone, Copy, PartialEq, Eq)]
pub enum GrammarCheckError {
    ResourcesUnavailable,
}

impl GrammarChecker {
    /// Creates a grammar checker; creation always succeeds.
    pub fn new() -> (r: Result<GrammarChecker, GrammarCheckError>)
        ensures
            r is Ok,
    {
        Ok(GrammarChecker { rules_loaded: false })
    }

    /// Checks the grammar of `text`: no error is ever reported, whether the
    /// check is enabled or not.
    pub fn check_text(&self, text: &str, config: &GrammarCheckConfig) -> (r: Vec<GrammarError>)
        ensures
            r@.len() == 0,
    {
        if !config.enabled {
            return Vec::new();
        }
        Vec::new()
    }
}

} // verus!

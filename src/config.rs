use vstd::prelude::*;

verus! {

/// How loudly a diagnostic is reported, from the most to the least severe.
#[derive(Clone, Copy, Debug, PartialEq, Eq, Structural)]
pub enum Severity {
    Error,
    Warn,
    Info,
    Debug,
    Trace,
}

/// The severity that a numeric `prompt_level` setting names: 1 to 5 for error,
/// warn, info, debug and trace; any other number names error.
pub open spec fn severity_of_level(level: int) -> Severity {
    if level == 2 {
        Severity::Warn
    } else if level == 3 {
        Severity::Info
    } else if level == 4 {
        Severity::Debug
    } else if level == 5 {
        Severity::Trace
    } else {
        Severity::Error
    }
}

/// Settings of the link checker, read from `preprocessor.betterlink.link_checker`.
pub struct LinkCheckerConfig {
    /// The severity at which bad links are reported. Default: error.
    pub prompt_level: Severity,
    /// Link destinations that are always reported as invalid, compared verbatim.
    pub deny_list: Vec<String>,
}

impl LinkCheckerConfig {
    /// The settings with every entry at its default: error level, nothing denied.
    pub fn new() -> (r: Self)
        ensures
            r.prompt_level == Severity::Error,
            r.deny_list@.len() == 0,
    {
        LinkCheckerConfig { prompt_level: Severity::Error, deny_list: Vec::new() }
    }

    /// The settings from the entries that a configuration table holds:
    /// `prompt_level` (a number, default 1) and `deny_list`.
    pub fn parse(prompt_level: Option<i64>, deny_list: Option<Vec<String>>) -> (r: Self)
        ensures
            r.prompt_level == severity_of_level(
                match prompt_level {
                    Some(n) => n as int,
                    None => 1,
                },
            ),
            r.deny_list@ == match deny_list {
                Some(d) => d@,
                None => Seq::<String>::empty(),
            },
    {
        let level = match prompt_level {
            Some(n) => n,
            None => 1,
        };
        LinkCheckerConfig {
            prompt_level: Self::parse_log_level(level),
            deny_list: match deny_list {
                Some(d) => d,
                None => Vec::new(),
            },
        }
    }

    /// Parses the numeric level: 1 error, 2 warn, 3 info, 4 debug, 5 trace;
    /// any other number falls back to error.
    pub fn parse_log_level(level: i64) -> (r: Severity)
        ensures
            r == severity_of_level(level as int),
    {
        match level {
            1 => Severity::Error,
            2 => Severity::Warn,
            3 => Severity::Info,
            4 => Severity::Debug,
            5 => Severity::Trace,
            _ => Severity::Error,
        }
    }
}

impl Default for LinkCheckerConfig {
    fn default() -> (r: Self)
        ensures
            r.prompt_level == Severity::Error,
            r.deny_list@.len() == 0,
    {
        Self::new()
    }
}

/// Settings of the preprocessor, read from `preprocessor.betterlink`.
pub struct ProcessorConfig {
    /// Give anchors only to headings that hold a CJK ideograph. Default: false.
    pub add_link_for_chinese: bool,
    /// Show each chapter's processed content in debug builds. Default: true.
    pub display_processed_contexts: bool,
    /// Check the links of each chapter. Default: true.
    pub do_link_check: bool,
    /// Settings of the link checker.
    pub link_checker_config: LinkCheckerConfig,
}

impl ProcessorConfig {
    /// The settings with every entry at its default.
    pub fn new() -> (r: Self)
        ensures
            !r.add_link_for_chinese,
            r.display_processed_contexts,
            r.do_link_check,
            r.link_checker_config.prompt_level == Severity::Error,
            r.link_checker_config.deny_list@.len() == 0,
    {
        ProcessorConfig {
            add_link_for_chinese: false,
            display_processed_contexts: true,
            do_link_check: true,
            link_checker_config: LinkCheckerConfig::new(),
        }
    }

    /// The settings from the entries that a configuration table holds; each
    /// entry that is absent takes its default.
    pub fn parse(
        add_link_for_chinese: Option<bool>,
        display_processed_contexts: Option<bool>,
        do_link_check: Option<bool>,
        link_checker_config: Option<LinkCheckerConfig>,
    ) -> (r: Self)
        ensures
            r.add_link_for_chinese == (add_link_for_chinese == Some(true)),
            r.display_processed_contexts == (display_processed_contexts != Some(false)),
            r.do_link_check == (do_link_check != Some(false)),
            match link_checker_config {
                Some(c) => r.link_checker_config == c,
                None => r.link_checker_config.prompt_level == Severity::Error
                    && r.link_checker_config.deny_list@.len() == 0,
            },
    {
        ProcessorConfig {
            add_link_for_chinese: get_bool_config(add_link_for_chinese, false),
            display_processed_contexts: get_bool_config(display_processed_contexts, true),
            do_link_check: get_bool_config(do_link_check, true),
            link_checker_config: match link_checker_config {
                Some(c) => c,
                None => LinkCheckerConfig::new(),
            },
        }
    }
}

impl Default for ProcessorConfig {
    fn default() -> (r: Self)
        ensures
            !r.add_link_for_chinese,
            r.display_processed_contexts,
            r.do_link_check,
    {
        Self::new()
    }
}

/// A boolean entry, or its default where the entry is absent.
fn get_bool_config(value: Option<bool>, default: bool) -> (r: bool)
    ensures
        r == match value {
            Some(b) => b,
            None => default,
        },
{
    match value {
        Some(b) => b,
        None => default,
    }
}

} // verus!

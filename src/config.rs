//! The options that steer one conversion.
use vstd::prelude::*;

verus! {

/// Which kinds of content are removed before formatting.
#[derive(Clone, Copy, Debug)]
pub struct CleaningRules {
    pub remove_scripts: bool,
    pub remove_styles: bool,
    pub remove_comments: bool,
    /// Keep the line breaks as emitted instead of collapsing whitespace runs
    /// that span a line break into one blank line.
    pub preserve_line_breaks: bool,
}

/// The formatting options.
///
/// `max_heading_level` caps the heading levels kept: `h<n>` is written only
/// where `n <= max_heading_level`, so 0 keeps no heading at all and any value of
/// 6 or more keeps all six levels. The default is 6.
#[derive(Clone, Copy, Debug)]
pub struct Config {
    pub include_links: bool,
    pub clean_whitespace: bool,
    pub cleaning_rules: CleaningRules,
    pub preserve_headings: bool,
    pub include_metadata: bool,
    pub max_heading_level: u8,
}

impl CleaningRules {
    /// Whether any rule removes content.
    pub open spec fn any_removal(&self) -> bool {
        self.remove_scripts || self.remove_styles || self.remove_comments
    }
}

impl Default for CleaningRules {
    fn default() -> (r: CleaningRules)
        ensures
            !r.remove_scripts && !r.remove_styles && !r.remove_comments && !r.preserve_line_breaks,
    {
        CleaningRules {
            remove_scripts: false,
            remove_styles: false,
            remove_comments: false,
            preserve_line_breaks: false,
        }
    }
}

impl Default for Config {
    /// Every switch off, all heading levels allowed.
    fn default() -> (r: Config)
        ensures
            !r.include_links && !r.clean_whitespace && !r.preserve_headings && !r.include_metadata,
            !r.cleaning_rules.remove_scripts && !r.cleaning_rules.remove_styles
                && !r.cleaning_rules.remove_comments && !r.cleaning_rules.preserve_line_breaks,
            r.max_heading_level == 6,
    {
        Config {
            include_links: false,
            clean_whitespace: false,
            cleaning_rules: CleaningRules::default(),
            preserve_headings: false,
            include_metadata: false,
            max_heading_level: 6,
        }
    }
}

} // verus!

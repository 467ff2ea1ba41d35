//! Whittle configuration: the rules for subject normalization and linting.
use vstd::prelude::*;

use crate::text::to_owned;

verus! {

/// The whole ruleset; every section has the defaults of its own `Default`.
#[derive(Debug, Clone)]
pub struct Config {
    pub type_: TypeConfig,
    pub scope: ScopeConfig,
    pub description: DescriptionConfig,
    pub body: BodyConfig,
    pub footers: FootersConfig,
    pub rules: RulesConfig,
}

#[derive(Debug, Clone)]
pub struct TypeConfig {
    pub lowercase: bool,
}

#[derive(Debug, Clone)]
pub struct ScopeConfig {
    pub lowercase: bool,
    pub replace: Vec<Replace>,
}

#[derive(Debug, Clone)]
pub struct DescriptionConfig {
    pub lowercase: bool,
    pub collapse_whitespace: bool,
    pub trailing_dot: TrailingDot,
    pub strip_chars: Vec<char>,
    pub internal_dots: InternalDots,
    pub replace: Vec<Replace>,
}

#[derive(Debug, Clone, Copy, PartialEq, Eq, Structural)]
pub enum TrailingDot {
    Keep,
    Strip,
}

#[derive(Debug, Clone, Copy, PartialEq, Eq, Structural)]
pub enum InternalDots {
    All,
    NoDots,
    KeepInNumbers,
}

/// One substitution rule: `from` is a literal, or a regular expression when
/// `regex` is set.
#[derive(Debug, Clone)]
pub struct Replace {
    pub from: String,
    pub to: String,
    pub regex: bool,
}

pub struct ReplaceView {
    pub from: Seq<char>,
    pub to: Seq<char>,
    pub regex: bool,
}

impl View for Replace {
    type V = ReplaceView;

    open spec fn view(&self) -> ReplaceView {
        ReplaceView { from: self.from@, to: self.to@, regex: self.regex }
    }
}

pub open spec fn rule(from: Seq<char>, to: Seq<char>, regex: bool) -> ReplaceView {
    ReplaceView { from, to, regex }
}

pub open spec fn rule_views(rules: Seq<Replace>) -> Seq<ReplaceView> {
    rules.map_values(|r: Replace| r@)
}

pub open spec fn string_views(v: Seq<String>) -> Seq<Seq<char>> {
    v.map_values(|s: String| s@)
}

#[derive(Debug, Clone)]
pub struct BodyConfig {
    pub keep: bool,
}

#[derive(Debug, Clone)]
pub struct FootersConfig {
    pub keep: bool,
    pub deny: Vec<String>,
}

#[derive(Debug, Clone)]
pub struct RulesConfig {
    pub max_subject_length: usize,
    pub require_conventional: bool,
    pub allowed_types: Vec<String>,
}

impl Replace {
    /// A rule from its three parts.
    pub fn new(from: &str, to: &str, regex: bool) -> (r: Replace)
        ensures
            r@ == rule(from@, to@, regex),
    {
        Replace { from: to_owned(from), to: to_owned(to), regex }
    }
}

impl Default for TypeConfig {
    fn default() -> (r: Self)
        ensures
            r.lowercase,
    {
        TypeConfig { lowercase: true }
    }
}

pub open spec fn default_scope_rules() -> Seq<ReplaceView> {
    seq![rule("/"@, "-"@, false), rule("\\"@, "-"@, false)]
}

impl Default for ScopeConfig {
    fn default() -> (r: Self)
        ensures
            r.lowercase,
            rule_views(r.replace@) == default_scope_rules(),
    {
        let mut replace: Vec<Replace> = Vec::new();
        replace.push(Replace::new("/", "-", false));
        replace.push(Replace::new("\\", "-", false));
        proof {
            assert(rule_views(replace@) =~= default_scope_rules());
        }
        ScopeConfig { lowercase: true, replace }
    }
}

/// The one default description rule: the word `and` becomes `&`.
pub open spec fn default_description_rules() -> Seq<ReplaceView> {
    seq![rule("\\band\\b"@, "&"@, true)]
}

pub open spec fn default_strip_chars() -> Seq<char> {
    seq!['/', '\\', '[', ']', '{', '}']
}

impl Default for DescriptionConfig {
    fn default() -> (r: Self)
        ensures
            r.lowercase,
            r.collapse_whitespace,
            r.trailing_dot == TrailingDot::Strip,
            r.strip_chars@ == default_strip_chars(),
            r.internal_dots == InternalDots::KeepInNumbers,
            rule_views(r.replace@) == default_description_rules(),
    {
        let mut strip_chars: Vec<char> = Vec::new();
        strip_chars.push('/');
        strip_chars.push('\\');
        strip_chars.push('[');
        strip_chars.push(']');
        strip_chars.push('{');
        strip_chars.push('}');
        let mut replace: Vec<Replace> = Vec::new();
        replace.push(Replace::new("\\band\\b", "&", true));
        proof {
            assert(strip_chars@ =~= default_strip_chars());
            assert(rule_views(replace@) =~= default_description_rules());
        }
        DescriptionConfig {
            lowercase: true,
            collapse_whitespace: true,
            trailing_dot: TrailingDot::Strip,
            strip_chars,
            internal_dots: InternalDots::KeepInNumbers,
            replace,
        }
    }
}

impl Default for BodyConfig {
    fn default() -> (r: Self)
        ensures
            !r.keep,
    {
        BodyConfig { keep: false }
    }
}

pub open spec fn default_deny() -> Seq<Seq<char>> {
    seq!["Co-Authored-By"@, "Co-authored-by"@]
}

impl Default for FootersConfig {
    fn default() -> (r: Self)
        ensures
            !r.keep,
            string_views(r.deny@) == default_deny(),
    {
        let mut deny: Vec<String> = Vec::new();
        deny.push(to_owned("Co-Authored-By"));
        deny.push(to_owned("Co-authored-by"));
        proof {
            assert(string_views(deny@) =~= default_deny());
        }
        FootersConfig { keep: false, deny }
    }
}

pub open spec fn default_allowed_types() -> Seq<Seq<char>> {
    seq![
        "feat"@,
        "fix"@,
        "refactor"@,
        "perf"@,
        "docs"@,
        "test"@,
        "chore"@,
        "build"@,
        "ci"@,
        "style"@,
        "revert"@,
    ]
}

impl Default for RulesConfig {
    fn default() -> (r: Self)
        ensures
            r.max_subject_length == 72,
            r.require_conventional,
            string_views(r.allowed_types@) == default_allowed_types(),
    {
        let mut allowed_types: Vec<String> = Vec::new();
        allowed_types.push(to_owned("feat"));
        allowed_types.push(to_owned("fix"));
        allowed_types.push(to_owned("refactor"));
        allowed_types.push(to_owned("perf"));
        allowed_types.push(to_owned("docs"));
        allowed_types.push(to_owned("test"));
        allowed_types.push(to_owned("chore"));
        allowed_types.push(to_owned("build"));
        allowed_types.push(to_owned("ci"));
        allowed_types.push(to_owned("style"));
        allowed_types.push(to_owned("revert"));
        proof {
            assert(string_views(allowed_types@) =~= default_allowed_types());
        }
        RulesConfig { max_subject_length: 72, require_conventional: true, allowed_types }
    }
}

/// The ruleset that applies when no configuration is given.
pub open spec fn is_default_config(c: Config) -> bool {
    &&& c.type_.lowercase
    &&& c.scope.lowercase
    &&& rule_views(c.scope.replace@) == default_scope_rules()
    &&& c.description.lowercase
    &&& c.description.collapse_whitespace
    &&& c.description.trailing_dot == TrailingDot::Strip
    &&& c.description.strip_chars@ == default_strip_chars()
    &&& c.description.internal_dots == InternalDots::KeepInNumbers
    &&& rule_views(c.description.replace@) == default_description_rules()
    &&& !c.body.keep
    &&& !c.footers.keep
    &&& string_views(c.footers.deny@) == default_deny()
    &&& c.rules.max_subject_length == 72
    &&& c.rules.require_conventional
    &&& string_views(c.rules.allowed_types@) == default_allowed_types()
}

impl Default for Config {
    fn default() -> (r: Self)
        ensures
            is_default_config(r),
    {
        Config {
            type_: TypeConfig::default(),
            scope: ScopeConfig::default(),
            description: DescriptionConfig::default(),
            body: BodyConfig::default(),
            footers: FootersConfig::default(),
            rules: RulesConfig::default(),
        }
    }
}

} // verus!

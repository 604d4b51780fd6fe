use crate::text::texts;
use vstd::prelude::*;

verus! {

/// The rule selectors of a project configuration.
pub struct RulesConfig {
    pub tags: Option<Vec<String>>,
    pub included: Option<Vec<String>>,
    pub excluded: Option<Vec<String>>,
}

/// The path patterns of a project configuration.
pub struct FilesConfig {
    pub included: Vec<String>,
    pub excluded: Vec<String>,
}

/// What a project configuration says about linting.
pub struct LintConfig {
    pub rules: RulesConfig,
    pub files: FilesConfig,
}

/// The effective selectors: tags, and the optional lists of rule codes to add
/// and to leave out.
pub struct RuleSelector {
    pub tags: Vec<String>,
    pub included: Option<Vec<String>>,
    pub excluded: Option<Vec<String>>,
}

/// Which rules a session runs: the recommended ones, or those that a selector picks.
pub enum RuleChoice {
    Recommended,
    Selected(RuleSelector),
}

/// The selectors pick no rule at all.
#[derive(Clone, Copy, Debug, PartialEq, Eq, Structural)]
pub enum ConfigurationError {
    NoRules,
}

impl ConfigurationError {
    pub fn message(&self) -> (m: String)
        ensures
            m@ == "No rules have been configured"@,
    {
        "No rules have been configured".to_owned()
    }
}

/// The texts of an optional list.
pub open spec fn optional_texts(v: Option<Vec<String>>) -> Option<Seq<Seq<char>>> {
    match v {
        Some(l) => Some(texts(l@)),
        None => None,
    }
}

/// Nothing selects rules: there is no configuration and no selector on the command line.
pub open spec fn uses_defaults(
    config: Option<&LintConfig>,
    tags: Seq<Seq<char>>,
    included: Seq<Seq<char>>,
    excluded: Seq<Seq<char>>,
) -> bool {
    config.is_none() && tags.len() == 0 && included.len() == 0 && excluded.len() == 0
}

/// The tags in force: those of the command line where it gives any, else those
/// of the configuration, else none.
pub open spec fn chosen_tags(config: Option<&LintConfig>, cli: Seq<Seq<char>>) -> Seq<Seq<char>> {
    if cli.len() > 0 {
        cli
    } else {
        match config {
            Some(c) => match c.rules.tags {
                Some(t) => texts(t@),
                None => Seq::empty(),
            },
            None => Seq::empty(),
        }
    }
}

/// A list of rule codes in force: that of the command line where it is
/// not empty, else that of the configuration, which may be absent.
pub open spec fn chosen_list(configured: Option<Seq<Seq<char>>>, cli: Seq<Seq<char>>) -> Option<
    Seq<Seq<char>>,
> {
    if cli.len() > 0 {
        Some(cli)
    } else {
        configured
    }
}

/// The list of rules to add of a configuration, if there is one.
pub open spec fn configured_include(config: Option<&LintConfig>) -> Option<Seq<Seq<char>>> {
    match config {
        Some(c) => optional_texts(c.rules.included),
        None => None,
    }
}

/// The list of rules to leave out of a configuration, if there is one.
pub open spec fn configured_exclude(config: Option<&LintConfig>) -> Option<Seq<Seq<char>>> {
    match config {
        Some(c) => optional_texts(c.rules.excluded),
        None => None,
    }
}

/// The path patterns in force: those given where there are any, else those of
/// the configuration where there is one.
pub open spec fn chosen_paths(configured: Option<Seq<Seq<char>>>, given: Seq<Seq<char>>) -> Seq<
    Seq<char>,
> {
    if given.len() > 0 {
        given
    } else {
        match configured {
            Some(l) => l,
            None => given,
        }
    }
}

/// A list with the same texts.
pub fn copy_names(names: &Vec<String>) -> (copy: Vec<String>)
    ensures
        texts(copy@) == texts(names@),
{
    let mut copy: Vec<String> = Vec::new();
    let mut i: usize = 0;
    while i < names.len()
        invariant
            0 <= i <= names@.len(),
            texts(copy@) == texts(names@.take(i as int)),
        decreases names@.len() - i,
    {
        let ghost before = copy@;
        copy.push(names[i].clone());
        proof {
            assert(texts(before).len() == i);
            assert(texts(copy@) =~= texts(before).push(names@[i as int]@));
            assert(texts(names@.take(i + 1)) =~= texts(names@.take(i as int)).push(
                names@[i as int]@,
            ));
        }
        i += 1;
    }
    assert(names@.take(names@.len() as int) =~= names@);
    copy
}

fn copy_optional(names: &Option<Vec<String>>) -> (copy: Option<Vec<String>>)
    ensures
        optional_texts(copy) == optional_texts(*names),
{
    match names {
        Some(l) => Some(copy_names(l)),
        None => None,
    }
}

/// Merges the selectors of the command line with those of the configuration.
/// Each of the three is settled by itself, and the command line wins wherever
/// it gives anything.
pub fn resolve_rule_selector(
    maybe_lint_config: Option<&LintConfig>,
    rules_tags: Vec<String>,
    rules_include: Vec<String>,
    rules_exclude: Vec<String>,
) -> (choice: RuleChoice)
    ensures
        match choice {
            RuleChoice::Recommended => uses_defaults(
                maybe_lint_config,
                texts(rules_tags@),
                texts(rules_include@),
                texts(rules_exclude@),
            ),
            RuleChoice::Selected(sel) => {
                &&& !uses_defaults(
                    maybe_lint_config,
                    texts(rules_tags@),
                    texts(rules_include@),
                    texts(rules_exclude@),
                )
                &&& texts(sel.tags@) == chosen_tags(maybe_lint_config, texts(rules_tags@))
                &&& optional_texts(sel.included) == chosen_list(
                    configured_include(maybe_lint_config),
                    texts(rules_include@),
                )
                &&& optional_texts(sel.excluded) == chosen_list(
                    configured_exclude(maybe_lint_config),
                    texts(rules_exclude@),
                )
            },
        },
{
    if maybe_lint_config.is_none() && rules_tags.len() == 0 && rules_include.len() == 0
        && rules_exclude.len() == 0 {
        return RuleChoice::Recommended;
    }
    let included = if rules_include.len() > 0 {
        Some(rules_include)
    } else {
        match maybe_lint_config {
            Some(c) => copy_optional(&c.rules.included),
            None => None,
        }
    };
    let excluded = if rules_exclude.len() > 0 {
        Some(rules_exclude)
    } else {
        match maybe_lint_config {
            Some(c) => copy_optional(&c.rules.excluded),
            None => None,
        }
    };
    let tags = if rules_tags.len() > 0 {
        rules_tags
    } else {
        match maybe_lint_config {
            Some(c) => match &c.rules.tags {
                Some(t) => copy_names(t),
                None => Vec::new(),
            },
            None => Vec::new(),
        }
    };
    assert(texts(tags@) =~= chosen_tags(maybe_lint_config, texts(rules_tags@)));
    RuleChoice::Selected(RuleSelector { tags, included, excluded })
}

/// Settles which path patterns to take in and which to leave out: those given
/// on the command line where there are any, else those of the configuration.
pub fn resolve_target_patterns(
    maybe_lint_config: Option<&LintConfig>,
    args: Vec<String>,
    ignore: Vec<String>,
) -> (r: (Vec<String>, Vec<String>))
    ensures
        texts(r.0@) == chosen_paths(
            match maybe_lint_config {
                Some(c) => Some(texts(c.files.included@)),
                None => None,
            },
            texts(args@),
        ),
        texts(r.1@) == chosen_paths(
            match maybe_lint_config {
                Some(c) => Some(texts(c.files.excluded@)),
                None => None,
            },
            texts(ignore@),
        ),
{
    let mut include_files = args;
    let mut exclude_files = ignore;
    match maybe_lint_config {
        Some(c) => {
            if include_files.len() == 0 {
                include_files = copy_names(&c.files.included);
            }
            if exclude_files.len() == 0 {
                exclude_files = copy_names(&c.files.excluded);
            }
        },
        None => {},
    }
    (include_files, exclude_files)
}

/// The codes of the rules that the engine's catalogue gives for the three
/// selectors, in the catalogue's order.
pub uninterp spec fn filtered_rule_codes(
    tags: Option<Seq<Seq<char>>>,
    excluded: Option<Seq<Seq<char>>>,
    included: Option<Seq<Seq<char>>>,
) -> Seq<Seq<char>>;

/// Calls `deno_lint::rules::filtered_rules` on the whole catalogue
/// (`deno_lint::rules::get_all_rules`) and hands out the code of each rule it
/// gives. Not proved: that the codes are those named `filtered_rule_codes`,
/// which says no more than that the same selectors give the same codes.
#[verifier::external_body]
fn filtered_codes(
    tags: Option<Vec<String>>,
    excluded: Option<Vec<String>>,
    included: Option<Vec<String>>,
) -> (codes: Vec<String>)
    ensures
        texts(codes@) == filtered_rule_codes(
            optional_texts(tags),
            optional_texts(excluded),
            optional_texts(included),
        ),
{
    let all = deno_lint::rules::get_all_rules();
    let rules = deno_lint::rules::filtered_rules(all, tags, excluded, included);
    rules.iter().map(|rule| rule.code().to_string()).collect()
}

/// Calls `deno_lint::rules::recommended_rules` on the whole catalogue and
/// hands out the code of each rule it gives. Nothing is claimed of them.
#[verifier::external_body]
fn recommended_codes() -> (codes: Vec<String>) {
    let all = deno_lint::rules::get_all_rules();
    let rules = deno_lint::rules::recommended_rules(all);
    rules.iter().map(|rule| rule.code().to_string()).collect()
}

/// Accepts a rule collection unless it is empty.
pub fn check_rules(codes: Vec<String>) -> (r: Result<Vec<String>, ConfigurationError>)
    ensures
        codes@.len() == 0 ==> r == Err::<Vec<String>, ConfigurationError>(
            ConfigurationError::NoRules,
        ),
        codes@.len() > 0 ==> r == Ok::<Vec<String>, ConfigurationError>(codes),
{
    if codes.len() == 0 {
        Err(ConfigurationError::NoRules)
    } else {
        Ok(codes)
    }
}

/// The codes of the rules picked by a choice.
pub fn rule_codes_for(choice: RuleChoice) -> (codes: Vec<String>)
    ensures
        match choice {
            RuleChoice::Recommended => true,
            RuleChoice::Selected(sel) => texts(codes@) == filtered_rule_codes(
                Some(texts(sel.tags@)),
                optional_texts(sel.excluded),
                optional_texts(sel.included),
            ),
        },
{
    match choice {
        RuleChoice::Recommended => recommended_codes(),
        RuleChoice::Selected(sel) => filtered_codes(Some(sel.tags), sel.excluded, sel.included),
    }
}

/// The rule codes that the selectors in force pick from the catalogue, given
/// that something selects rules.
pub open spec fn configured_codes(
    config: Option<&LintConfig>,
    tags: Seq<Seq<char>>,
    included: Seq<Seq<char>>,
    excluded: Seq<Seq<char>>,
) -> Seq<Seq<char>> {
    filtered_rule_codes(
        Some(chosen_tags(config, tags)),
        chosen_list(configured_exclude(config), excluded),
        chosen_list(configured_include(config), included),
    )
}

/// Resolves the selectors into the codes of the rules to run. Where nothing
/// selects rules the recommended ones are taken. An empty collection is an
/// error.
pub fn get_configured_rules(
    maybe_lint_config: Option<&LintConfig>,
    rules_tags: Vec<String>,
    rules_include: Vec<String>,
    rules_exclude: Vec<String>,
) -> (r: Result<Vec<String>, ConfigurationError>)
    ensures
        r is Ok ==> r.unwrap()@.len() > 0,
        !uses_defaults(
            maybe_lint_config,
            texts(rules_tags@),
            texts(rules_include@),
            texts(rules_exclude@),
        ) ==> {
            let codes = configured_codes(
                maybe_lint_config,
                texts(rules_tags@),
                texts(rules_include@),
                texts(rules_exclude@),
            );
            if codes.len() == 0 {
                r == Err::<Vec<String>, ConfigurationError>(ConfigurationError::NoRules)
            } else {
                r is Ok && texts(r.unwrap()@) == codes
            }
        },
{
    let choice = resolve_rule_selector(maybe_lint_config, rules_tags, rules_include, rules_exclude);
    let codes = rule_codes_for(choice);
    check_rules(codes)
}

/// The lines that list one rule: its code, where to read about it, and an
/// empty line.
pub open spec fn rule_entry(code: Seq<char>) -> Seq<Seq<char>> {
    seq![" - "@ + code, "   help: https://lint.deno.land/#"@ + code, Seq::empty()]
}

/// The human-readable list of rules: a heading, then the lines of each rule.
pub open spec fn rules_list(codes: Seq<Seq<char>>) -> Seq<Seq<char>>
    decreases codes.len(),
{
    if codes.len() == 0 {
        seq!["Available rules:"@]
    } else {
        rules_list(codes.drop_last()) + rule_entry(codes.last())
    }
}

/// Writes the human-readable list of the rules whose codes are given.
pub fn rules_list_lines(codes: &Vec<String>) -> (lines: Vec<String>)
    ensures
        texts(lines@) == rules_list(texts(codes@)),
{
    let mut lines: Vec<String> = Vec::new();
    lines.push("Available rules:".to_owned());
    assert(texts(codes@).take(0) =~= Seq::<Seq<char>>::empty());
    assert(texts(lines@) =~= rules_list(texts(codes@).take(0)));
    let mut i: usize = 0;
    while i < codes.len()
        invariant
            0 <= i <= codes@.len(),
            texts(lines@) == rules_list(texts(codes@).take(i as int)),
        decreases codes@.len() - i,
    {
        let ghost before = lines@;
        let code: &str = codes[i].as_str();
        let mut title = String::new();
        title.append(" - ");
        title.append(code);
        let mut help = String::new();
        help.append("   help: https://lint.deno.land/#");
        help.append(code);
        lines.push(title);
        lines.push(help);
        lines.push(String::new());
        proof {
            let t = texts(codes@).take(i + 1);
            assert(t.drop_last() =~= texts(codes@).take(i as int));
            assert(t.last() == codes@[i as int]@);
            assert(texts(lines@) =~= texts(before) + rule_entry(code@));
        }
        i += 1;
    }
    assert(texts(codes@).take(codes@.len() as int) =~= texts(codes@));
    lines
}

} // verus!

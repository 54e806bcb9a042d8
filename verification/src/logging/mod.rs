//! What is logged.
pub mod directives;

use directives::{can_parse, is_valid_filter};
use vstd::prelude::*;

verus! {

/// What the player logs where the environment does not say.
pub const DEFAULT_PROD_FILTER: &'static str = "waywall=info";

/// What a test run logs where the environment does not say.
pub const DEFAULT_TEST_FILTER: &'static str = "waywall=debug";

/// Where the directives come from.
#[derive(Clone, Copy, Debug, PartialEq, Eq, Structural)]
pub enum FilterSource {
    Environment,
    Default,
    /// Neither can be read.
    Invalid,
}

/// The source of the directives: the environment where it has some that can be read, else
/// the default.
pub open spec fn source_of(env_ok: Option<bool>, default_ok: bool) -> FilterSource {
    if env_ok == Some(true) {
        FilterSource::Environment
    } else if default_ok {
        FilterSource::Default
    } else {
        FilterSource::Invalid
    }
}

/// Chooses the source of the directives: `env_ok` tells of those in the environment, if
/// there are any, and `default_ok` of the default.
pub fn choose_filter(env_ok: Option<bool>, default_ok: bool) -> (r: FilterSource)
    ensures
        r == source_of(env_ok, default_ok),
{
    match env_ok {
        Some(true) => FilterSource::Environment,
        _ => if default_ok {
            FilterSource::Default
        } else {
            FilterSource::Invalid
        },
    }
}

/// The directives to log by, where `env` are those of the environment.
pub open spec fn filter_for(default: Seq<char>, env: Option<Seq<char>>) -> Option<Seq<char>> {
    let env_ok = match env {
        Some(d) => Some(directives::env_filter_accepts(d)),
        None => None,
    };
    match source_of(env_ok, directives::env_filter_accepts(default)) {
        FilterSource::Environment => env,
        FilterSource::Default => Some(default),
        FilterSource::Invalid => None,
    }
}

pub open spec fn env_view(env: Option<String>) -> Option<Seq<char>> {
    match env {
        Some(d) => Some(d@),
        None => None,
    }
}

/// Whether the text is the one in question.
pub open spec fn is_filter(r: Option<String>, filter: Option<Seq<char>>) -> bool {
    match filter {
        Some(f) => r matches Some(s) && s@ == f,
        None => r is None,
    }
}

/// The logging library can be given what the environment says.
pub open spec fn env_can_be_parsed(env: Option<Seq<char>>) -> bool {
    env matches Some(d) ==> directives::can_be_parsed(d)
}

/// The default is needed: nothing that can be read stands in the environment.
pub open spec fn needs_default(env: Option<Seq<char>>) -> bool {
    env matches Some(d) ==> !directives::env_filter_accepts(d)
}

/// The logging library can be given what it has to read: what the environment says, and the
/// default where that is needed.
pub open spec fn can_choose(default: Seq<char>, env: Option<Seq<char>>) -> bool {
    env_can_be_parsed(env) && (needs_default(env) ==> directives::can_be_parsed(default))
}

proof fn lemma_default_can_be_parsed(default: Seq<char>)
    requires
        default == DEFAULT_PROD_FILTER@ || default == DEFAULT_TEST_FILTER@,
    ensures
        directives::can_be_parsed(default),
{
    reveal_strlit("waywall=info");
    reveal_strlit("waywall=debug");
    assert(!default.contains(','));
    directives::lemma_single_directive(default);
    directives::law_plain_directive_can_be_parsed(default);
}

fn init_with_default(default: &str, env: Option<String>) -> (r: Option<String>)
    requires
        can_choose(default@, env_view(env)),
    ensures
        is_filter(r, filter_for(default@, env_view(env))),
{
    let env_ok: Option<bool> = match &env {
        Some(d) => Some(is_valid_filter(d.as_str())),
        None => None,
    };
    let default_ok = match env_ok {
        Some(true) => false,
        _ => is_valid_filter(default),
    };
    match choose_filter(env_ok, default_ok) {
        FilterSource::Environment => env,
        FilterSource::Default => Some(default.to_string()),
        FilterSource::Invalid => None,
    }
}

/// The directives that the player logs by, where `env` are those of the environment.
pub fn init_prod(env: Option<String>) -> (r: Option<String>)
    requires
        env_can_be_parsed(env_view(env)),
    ensures
        is_filter(r, filter_for(DEFAULT_PROD_FILTER@, env_view(env))),
{
    proof {
        lemma_default_can_be_parsed(DEFAULT_PROD_FILTER@);
    }
    init_with_default(DEFAULT_PROD_FILTER, env)
}

/// The directives that a test run logs by, where `env` are those of the environment.
pub fn init_test(env: Option<String>) -> (r: Option<String>)
    requires
        env_can_be_parsed(env_view(env)),
    ensures
        is_filter(r, filter_for(DEFAULT_TEST_FILTER@, env_view(env))),
{
    proof {
        lemma_default_can_be_parsed(DEFAULT_TEST_FILTER@);
    }
    init_with_default(DEFAULT_TEST_FILTER, env)
}

/// The directives to log by: those of the environment where they can be read, else
/// `default`; `None` where that cannot be read either. The default is looked at only where
/// it is needed.
pub fn init(default: &str, env: Option<String>) -> (r: Option<String>)
    requires
        can_choose(default@, env_view(env)),
    ensures
        is_filter(r, filter_for(default@, env_view(env))),
{
    init_with_default(default, env)
}

/// What [`init`] says, where it can be asked; `None` where the logging library cannot be given
/// a text that it would have to read.
pub fn try_init(default: &str, env: Option<String>) -> (r: Option<Option<String>>)
    ensures
        r is Some <==> can_choose(default@, env_view(env)),
        r matches Some(f) ==> is_filter(f, filter_for(default@, env_view(env))),
{
    let default_unneeded = match &env {
        Some(d) => {
            if !can_parse(d.as_str()) {
                return None;
            }
            is_valid_filter(d.as_str())
        },
        None => false,
    };
    if default_unneeded || can_parse(default) {
        Some(init(default, env))
    } else {
        None
    }
}

/// What [`init_prod`] says, where it can be asked; `None` where the logging library cannot be
/// given what the environment says.
pub fn try_init_prod(env: Option<String>) -> (r: Option<Option<String>>)
    ensures
        r is Some <==> env_can_be_parsed(env_view(env)),
        r matches Some(f) ==> is_filter(f, filter_for(DEFAULT_PROD_FILTER@, env_view(env))),
{
    match &env {
        Some(d) => if !can_parse(d.as_str()) {
            return None;
        },
        None => {},
    }
    Some(init_prod(env))
}

/// What [`init_test`] says, where it can be asked; `None` where the logging library cannot be
/// given what the environment says.
pub fn try_init_test(env: Option<String>) -> (r: Option<Option<String>>)
    ensures
        r is Some <==> env_can_be_parsed(env_view(env)),
        r matches Some(f) ==> is_filter(f, filter_for(DEFAULT_TEST_FILTER@, env_view(env))),
{
    match &env {
        Some(d) => if !can_parse(d.as_str()) {
            return None;
        },
        None => {},
    }
    Some(init_test(env))
}

/// Directives of the environment that can be read are logged by, whatever the default is.
pub proof fn law_readable_environment_wins(default: Seq<char>, env: Seq<char>)
    requires
        directives::env_filter_accepts(env),
    ensures
        filter_for(default, Some(env)) == Some(env),
{
}

/// Directives of the environment that cannot be read have no effect.
pub proof fn law_unreadable_environment_is_ignored(default: Seq<char>, env: Seq<char>)
    requires
        !directives::env_filter_accepts(env),
    ensures
        filter_for(default, Some(env)) == filter_for(default, None),
{
}

/// Without anything in the environment the default counts, where it can be read.
pub proof fn law_default_fills_in(default: Seq<char>)
    ensures
        directives::env_filter_accepts(default) ==> filter_for(default, None) == Some(default),
        !directives::env_filter_accepts(default) ==> filter_for(default, None) is None,
        DEFAULT_PROD_FILTER@ == "waywall=info"@,
        DEFAULT_TEST_FILTER@ == "waywall=debug"@,
{
}

/// The directives can be chosen exactly where the logging library can be given those of the
/// environment, if there are any, and the default unless it reads the former.
pub proof fn law_when_directives_can_be_chosen(default: Seq<char>, env: Seq<char>)
    ensures
        can_choose(default, None) <==> directives::can_be_parsed(default),
        !directives::can_be_parsed(env) ==> !can_choose(default, Some(env)),
        directives::can_be_parsed(env) && directives::env_filter_accepts(env) ==> can_choose(
            default,
            Some(env),
        ),
        directives::can_be_parsed(env) && !directives::env_filter_accepts(env) ==> (can_choose(
            default,
            Some(env),
        ) <==> directives::can_be_parsed(default)),
{
}

/// The directives in question are those with the same characters, or none where there are none.
pub proof fn law_same_directives(r: Option<String>, filter: Option<Seq<char>>)
    ensures
        is_filter(r, filter) <==> env_view(r) == filter,
        r matches Some(s) ==> env_view(r) == Some(s@),
        r is None ==> env_view(r) is None,
{
}

} // verus!

//! Planning one invocation of the wrapper: what to do with the
//! argument vector, and whether to hand off at once, wait for the lock
//! first, or stop on a configuration error.
use vstd::prelude::*;

use crate::timeout::{parse_timeout_ms, timeout_accepts, timeout_value};

verus! {

/// The canonical name of the wrapped tool, put in place of the
/// wrapper's own name before handoff.
pub open spec fn tool_name() -> Seq<char> {
    "git"@
}

/// Rewrite the argument vector for handoff: the leading element — the
/// wrapper's own name — becomes the wrapped tool's name, and every
/// other argument passes through untouched.
pub fn rewrite_args(args: &mut Vec<String>)
    requires
        old(args).len() >= 1,
    ensures
        final(args).len() == old(args).len(),
        final(args)@[0]@ == tool_name(),
        forall|i: int| 1 <= i < old(args).len() ==> final(args)@[i] == old(args)@[i],
{
    args[0] = String::from_str("git");
}

/// What one invocation should do once the outside facts are in.
#[derive(Debug, PartialEq, Eq)]
pub enum LaunchPlan {
    /// Hand off to the wrapped tool at once.
    HandOff,
    /// Block until the lock file clears — without bound when no
    /// timeout is configured — and hand off then.
    WaitThenHandOff { timeout_ms: Option<u64> },
}

/// A fatal configuration error: no filesystem watch may be established
/// and no handoff may happen.
#[derive(Clone, Copy, Debug, PartialEq, Eq, Structural)]
pub enum ConfigError {
    /// The timeout variable is set but is not a non-negative count of
    /// milliseconds.
    MalformedTimeout,
}

/// What the invocation should do, as a function of the three outside
/// facts: whether a metadata directory was found, the timeout
/// variable's text if set, and whether the lock file exists.
pub open spec fn plan_spec(
    git_dir_found: bool,
    timeout_var: Option<Seq<char>>,
    lock_exists: bool,
) -> Result<LaunchPlan, ConfigError> {
    if !git_dir_found {
        Ok(LaunchPlan::HandOff)
    } else {
        match timeout_var {
            Some(text) => if !timeout_accepts(text) {
                Err(ConfigError::MalformedTimeout)
            } else if lock_exists {
                Ok(LaunchPlan::WaitThenHandOff { timeout_ms: Some(timeout_value(text) as u64) })
            } else {
                Ok(LaunchPlan::HandOff)
            },
            None => if lock_exists {
                Ok(LaunchPlan::WaitThenHandOff { timeout_ms: None })
            } else {
                Ok(LaunchPlan::HandOff)
            },
        }
    }
}

/// The view of an optional timeout text.
pub open spec fn timeout_var_view(timeout_var: Option<&str>) -> Option<Seq<char>> {
    match timeout_var {
        Some(text) => Some(text@),
        None => None,
    }
}

/// Decide one invocation.
///
/// Without a metadata directory the wait never enters the picture:
/// hand off at once. With one, a set but malformed timeout text is a
/// fatal configuration error before anything else; otherwise the
/// wrapped tool runs at once when no lock file exists, and only an
/// existing lock file leads to a wait, bounded by the parsed timeout
/// when one is configured.
pub fn plan_invocation(git_dir_found: bool, timeout_var: Option<&str>, lock_exists: bool) -> (r:
    Result<LaunchPlan, ConfigError>)
    ensures
        r == plan_spec(git_dir_found, timeout_var_view(timeout_var), lock_exists),
        !lock_exists ==> !(r matches Ok(LaunchPlan::WaitThenHandOff { .. })),
        git_dir_found && (timeout_var matches Some(text) && !timeout_accepts(text@)) ==> r == Err::<
            LaunchPlan,
            ConfigError,
        >(ConfigError::MalformedTimeout),
{
    if !git_dir_found {
        return Ok(LaunchPlan::HandOff);
    }
    let timeout_ms = match timeout_var {
        Some(text) => match parse_timeout_ms(text) {
            Some(n) => Some(n),
            None => {
                return Err(ConfigError::MalformedTimeout);
            },
        },
        None => None,
    };
    if lock_exists {
        Ok(LaunchPlan::WaitThenHandOff { timeout_ms })
    } else {
        Ok(LaunchPlan::HandOff)
    }
}

/// `s` holds an interior NUL character, which no operating-system
/// argument string can carry.
pub open spec fn has_nul(s: Seq<char>) -> bool {
    exists|i: int| 0 <= i < s.len() && s[i] == '\0'
}

/// Every argument can be handed to the operating system as a
/// NUL-terminated string.
pub open spec fn args_exec_ready(args: Seq<Seq<char>>) -> bool {
    forall|i: int| 0 <= i < args.len() ==> !has_nul(#[trigger] args[i])
}

/// Whether the argument vector can be handed to the final exec: none
/// of its strings holds an interior NUL character. A vector that
/// cannot is reported as an error by the caller, never execed.
pub fn check_args_exec_ready(args: &Vec<String>) -> (r: bool)
    ensures
        r == args_exec_ready(args.deep_view()),
{
    let n = args.len();
    let mut i: usize = 0;
    while i < n
        invariant
            0 <= i <= n,
            n == args.len(),
            forall|j: int| 0 <= j < i ==> !has_nul(#[trigger] args.deep_view()[j]),
        decreases n - i,
    {
        if !str_has_no_nul(args[i].as_str()) {
            proof {
                assert(args.deep_view()[i as int] == args@[i as int]@);
            }
            return false;
        }
        proof {
            assert(args.deep_view()[i as int] == args@[i as int]@);
        }
        i = i + 1;
    }
    true
}

/// Whether the string is free of interior NUL characters.
fn str_has_no_nul(s: &str) -> (r: bool)
    ensures
        r == !has_nul(s@),
{
    let n = s.unicode_len();
    let mut i: usize = 0;
    while i < n
        invariant
            0 <= i <= n,
            n == s@.len(),
            forall|j: int| 0 <= j < i ==> s@[j] != '\0',
        decreases n - i,
    {
        let c = s.get_char(i);
        if c as u32 == 0 {
            return false;
        }
        i = i + 1;
    }
    true
}

} // verus!

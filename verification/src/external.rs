//! The calls into outside crates: `litrs` for string literals and
//! `shellexpand` for option strings.
use vstd::prelude::*;

verus! {

/// The value of a Rust string literal token with text `text`, as `litrs`
/// unescapes it, or `None` where `text` is not a string literal.
pub uninterp spec fn string_literal_value(text: Seq<char>) -> Option<Seq<char>>;

/// `litrs::StringLit::parse(text)` followed by `value()`. The contract names
/// the result `string_literal_value(text)`; of its source it states only that
/// text not starting with `"` or `r` is no (raw) string literal.
#[verifier::external_body]
pub(crate) fn string_lit_value(text: &str) -> (r: Option<String>)
    ensures
        match r {
            Some(s) => string_literal_value(text@) == Some(s@),
            None => string_literal_value(text@) is None,
        },
        text@.len() == 0 || (text@[0] != '"' && text@[0] != 'r') ==> r is None,
{
    match litrs::StringLit::parse(text) {
        Ok(lit) => Some(lit.value().to_owned()),
        Err(_) => None,
    }
}

/// The value of variable `name` in the environment `env` (the first binding
/// of that name).
pub open spec fn env_lookup(env: Seq<(Seq<char>, Seq<char>)>, name: Seq<char>) -> Option<Seq<char>>
    decreases env.len(),
{
    if env.len() == 0 {
        None
    } else if env[0].0 == name {
        Some(env[0].1)
    } else {
        env_lookup(env.drop_first(), name)
    }
}

/// The value of variable `name` in `env`.
pub fn lookup_env(env: &Vec<(String, String)>, name: &str) -> (r: Option<String>)
    ensures
        match r {
            Some(v) => env_lookup(env.deep_view(), name@) == Some(v@),
            None => env_lookup(env.deep_view(), name@) is None,
        },
{
    let ghost dv = env.deep_view();
    assert(dv.skip(0) =~= dv);
    let mut i: usize = 0;
    while i < env.len()
        invariant
            i <= env@.len(),
            dv == env.deep_view(),
            env_lookup(dv, name@) == env_lookup(dv.skip(i as int), name@),
        decreases env@.len() - i,
    {
        assert(dv.skip(i as int).drop_first() =~= dv.skip(i + 1));
        if crate::text::str_eq(env[i].0.as_str(), name) {
            return Some(env[i].1.clone());
        }
        i = i + 1;
    }
    assert(dv.skip(i as int).len() == 0);
    None
}

/// What `shellexpand::full_with_context_no_errors` gives for `raw` when `~`
/// is the value of `HOME` in `env` and `$VAR` / `${VAR}` look variables up in
/// `env`.
pub uninterp spec fn shell_expansion(raw: Seq<char>, env: Seq<(Seq<char>, Seq<char>)>) -> Seq<char>;

/// Shell-expand `raw` (`~` and environment variables) against the
/// environment `env`, with `shellexpand::full_with_context_no_errors`. The
/// contract names the result; from the crate's documentation it states that
/// input without a `$` and without a leading `~` comes back unchanged.
#[verifier::external_body]
pub(crate) fn shell_expand(raw: &str, env: &Vec<(String, String)>) -> (r: String)
    ensures
        r@ == shell_expansion(raw@, env.deep_view()),
        !raw@.contains('$') && !(raw@.len() > 0 && raw@[0] == '~') ==> r@ == raw@,
{
    shellexpand::full_with_context_no_errors(raw, || lookup_env(env, "HOME"), |var| lookup_env(env, var))
        .into_owned()
}

} // verus!

//! Connection-side decisions: translating structured storage options
//! into the process-wide credential environment the engine's own
//! credential resolution consumes.
//!
//! The shell applies the returned assignments to the process
//! environment before it opens the connection; that state is
//! deliberately process-global, not request-scoped.
use vstd::prelude::*;
use vstd::string::StringExecFns;
use crate::json::{jview, jv_as_str, lookup, JsonV, JsonValue};

verus! {

/// The assignment for one option key, when it is present as a string.
pub open spec fn pair_if_str(cfg: JsonV, key: Seq<char>, var: Seq<char>) -> Seq<
    (Seq<char>, Seq<char>),
> {
    match lookup(cfg, key) {
        Some(v) => match jv_as_str(v) {
            Some(s) => seq![(var, s)],
            None => Seq::empty(),
        },
        None => Seq::empty(),
    }
}

/// The environment assignments a structured option document asks
/// for: each credential key present as a string under `"s3_config"`
/// sets its variable, and a region sets both region variables.
pub open spec fn s3_env_spec(options: JsonV) -> Seq<(Seq<char>, Seq<char>)> {
    match lookup(options, "s3_config"@) {
        Some(cfg) => pair_if_str(cfg, "access_key_id"@, "AWS_ACCESS_KEY_ID"@) + pair_if_str(
            cfg,
            "secret_access_key"@,
            "AWS_SECRET_ACCESS_KEY"@,
        ) + pair_if_str(cfg, "session_token"@, "AWS_SESSION_TOKEN"@) + pair_if_str(
            cfg,
            "region"@,
            "AWS_REGION"@,
        ) + pair_if_str(cfg, "region"@, "AWS_DEFAULT_REGION"@) + pair_if_str(
            cfg,
            "profile"@,
            "AWS_PROFILE"@,
        ),
        None => Seq::empty(),
    }
}

/// Push the assignment for one option key, when present as a string.
fn push_if_str(
    out: &mut Vec<(String, String)>,
    cfg: &JsonValue,
    key: &str,
    var: &str,
)
    ensures
        final(out).deep_view() == old(out).deep_view() + pair_if_str(jview(*cfg), key@, var@),
{
    let k = String::from_str(key);
    match cfg.get(&k) {
        Some(v) => match v.as_str() {
            Some(s) => {
                out.push((String::from_str(var), s.clone()));
                proof {
                    assert(out.deep_view() =~= old(out).deep_view() + pair_if_str(
                        jview(*cfg),
                        key@,
                        var@,
                    ));
                }
            },
            None => {
                proof {
                    assert(out.deep_view() =~= old(out).deep_view() + pair_if_str(
                        jview(*cfg),
                        key@,
                        var@,
                    ));
                }
            },
        },
        None => {
            proof {
                assert(out.deep_view() =~= old(out).deep_view() + pair_if_str(
                    jview(*cfg),
                    key@,
                    var@,
                ));
            }
        },
    }
}

/// The environment assignments that connecting with these structured
/// options applies before the engine call.
pub fn s3_env_assignments(options: &JsonValue) -> (out: Vec<(String, String)>)
    ensures
        out.deep_view() == s3_env_spec(jview(*options)),
{
    let mut out: Vec<(String, String)> = Vec::new();
    let key = String::from_str("s3_config");
    match options.get(&key) {
        Some(cfg) => {
            push_if_str(&mut out, cfg, "access_key_id", "AWS_ACCESS_KEY_ID");
            push_if_str(&mut out, cfg, "secret_access_key", "AWS_SECRET_ACCESS_KEY");
            push_if_str(&mut out, cfg, "session_token", "AWS_SESSION_TOKEN");
            push_if_str(&mut out, cfg, "region", "AWS_REGION");
            push_if_str(&mut out, cfg, "region", "AWS_DEFAULT_REGION");
            push_if_str(&mut out, cfg, "profile", "AWS_PROFILE");
            proof {
                assert(out.deep_view() =~= s3_env_spec(jview(*options)));
            }
            out
        },
        None => {
            proof {
                assert(out.deep_view() =~= s3_env_spec(jview(*options)));
            }
            out
        },
    }
}

} // verus!

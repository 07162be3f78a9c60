//! Boot decisions of the API: where it binds and which configuration it
//! reads, whether the bind is acceptable, and what it seeds.

use vstd::prelude::*;

use crate::text::{concat3, str_eq, string_of, trim, trimmed};

verus! {

/// Where the API listens when no bind address is configured.
pub const DEFAULT_BIND_ADDR: &'static str = "127.0.0.1:8080";
/// The configuration file read when none is named.
pub const DEFAULT_CONFIG_PATH: &'static str = "anseo.yaml";

/// What the API is booted with.
#[derive(Debug)]
pub struct ApiBootConfig {
    pub database_url: String,
    pub bind_addr: String,
    pub config_path: String,
}

/// The first of `settings` that is set, or `default`.
pub open spec fn first_set(settings: Seq<Option<String>>, default: Seq<char>) -> Seq<char>
    decreases settings.len(),
{
    if settings.len() == 0 {
        default
    } else {
        match settings[0] {
            Some(s) => s@,
            None => first_set(settings.drop_first(), default),
        }
    }
}

/// The first setting that is set, in order of precedence, else `default`.
/// The bind address reads `ANSEO_API_BIND`, `OPENGEO_API_BIND`,
/// `ANSEO_BIND_ADDR`, `OGEO_BIND_ADDR`; the configuration path reads
/// `ANSEO_CONFIG`, `OPENGEO_CONFIG`, `OGEO_CONFIG`.
pub fn first_setting(settings: &Vec<Option<String>>, default: &str) -> (r: String)
    ensures
        r@ == first_set(settings@, default@),
{
    let mut i: usize = 0;
    assert(settings@.skip(0) =~= settings@);
    while i < settings.len()
        invariant
            i <= settings@.len(),
            first_set(settings@, default@) == first_set(settings@.skip(i as int), default@),
        decreases settings@.len() - i,
    {
        proof {
            assert(settings@.skip(i as int)[0] == settings@[i as int]);
            assert(settings@.skip(i as int).drop_first() =~= settings@.skip(i + 1));
        }
        match &settings[i] {
            Some(s) => {
                return s.clone();
            },
            None => {},
        }
        i = i + 1;
    }
    proof {
        assert(settings@.skip(i as int) =~= Seq::<Option<String>>::empty());
    }
    default.to_string()
}

/// The boot-time bind check. A loopback bind is always acceptable; a
/// non-loopback bind is refused in test mode (the test-seed surface is
/// unauthenticated) and when the project has no active API key. `loopback`
/// is `Err` with the parse failure when `bind_addr` is no socket address.
pub fn check_bind_acceptable(
    bind_addr: &str,
    loopback: Result<bool, String>,
    test_mode_enabled: bool,
    active_keys_for_project: i64,
) -> (r: Result<(), String>)
    ensures
        match loopback {
            Err(reason) => r matches Err(m) && m@ == "invalid OPENGEO_API_BIND `"@ + bind_addr@ + "`: "@ + reason@,
            Ok(true) => r is Ok,
            Ok(false) => if test_mode_enabled {
                r matches Err(m) && m@ == "OPENGEO_API_BIND=`"@ + bind_addr@
                    + "` is non-loopback AND OPENGEO_TEST_MODE=1 \u{2014} refusing to start. The /test/seed surface is unauthenticated by design; it must never be reachable on a public interface."@
            } else if active_keys_for_project == 0 {
                r matches Err(m) && m@ == "OPENGEO_API_BIND=`"@ + bind_addr@
                    + "` is non-loopback but no active API keys exist for this project. Generate one with `ogeo api key create --name <slug>` before binding to a public interface, or bind to 127.0.0.1 / ::1 for local-only access."@
            } else {
                r is Ok
            },
        },
{
    match loopback {
        Err(reason) => {
            let head = concat3("invalid OPENGEO_API_BIND `", bind_addr, "`: ");
            proof {
                reveal_strlit("");
            }
            Err(concat3(head.as_str(), reason.as_str(), ""))
        },
        Ok(true) => Ok(()),
        Ok(false) => {
            if test_mode_enabled {
                Err(
                    concat3(
                        "OPENGEO_API_BIND=`",
                        bind_addr,
                        "` is non-loopback AND OPENGEO_TEST_MODE=1 \u{2014} refusing to start. The /test/seed surface is unauthenticated by design; it must never be reachable on a public interface.",
                    ),
                )
            } else if active_keys_for_project == 0 {
                Err(
                    concat3(
                        "OPENGEO_API_BIND=`",
                        bind_addr,
                        "` is non-loopback but no active API keys exist for this project. Generate one with `ogeo api key create --name <slug>` before binding to a public interface, or bind to 127.0.0.1 / ::1 for local-only access.",
                    ),
                )
            } else {
                Ok(())
            }
        },
    }
}

/// Test mode is on when its setting is exactly `1`.
pub fn test_mode_enabled(raw: Option<&str>) -> (r: bool)
    ensures
        r == (raw matches Some(s) && s@ == "1"@),
{
    match raw {
        Some(s) => str_eq(s, "1"),
        None => false,
    }
}

/// The bootstrap API key to seed: the configured plaintext, trimmed, when the
/// project has no active key and the setting is not blank.
pub fn bootstrap_plaintext(active_keys: i64, raw: Option<&str>) -> (r: Option<String>)
    ensures
        match r {
            Some(k) => active_keys == 0 && (raw matches Some(s) && trim(s@).len() > 0 && k@ == trim(s@)),
            None => active_keys != 0 || raw is None || (raw matches Some(s) && trim(s@).len() == 0),
        },
{
    if active_keys != 0 {
        return None;
    }
    match raw {
        Some(s) => {
            let t = trimmed(s);
            if t.len() == 0 {
                None
            } else {
                Some(string_of(&t))
            }
        },
        None => None,
    }
}

/// Whether the declared prompts are seeded: there are some, the project
/// exists, and it has no prompt yet.
pub fn seeds_prompts(declared: usize, project_exists: bool, existing_prompts: usize) -> (r: bool)
    ensures
        r == (declared > 0 && project_exists && existing_prompts == 0),
{
    declared > 0 && project_exists && existing_prompts == 0
}

/// The configured project's name: the brand's, or `default` without a
/// configuration.
pub fn configured_project_name(brand_name: Option<String>) -> (r: String)
    ensures
        r@ == (match brand_name {
            Some(n) => n@,
            None => "default"@,
        }),
{
    match brand_name {
        Some(n) => n,
        None => "default".to_string(),
    }
}

} // verus!

//! Re-reading the configuration of a live session.
//!
//! Edits of the configuration take effect with the next session command. A
//! configuration that is not valid leaves everything as it was; invalid teams
//! leave the teams as they were.

use vstd::prelude::*;
use crate::models::ModelRegistry;
use crate::pipeline;
use crate::pipeline::config::Config;
use crate::pipeline::set::{PipelineInfo, PipelineSet, PipelineSetError};
use crate::selection;
use crate::text;

verus! {

/// What a session keeps to rebuild its agent with.
#[derive(Debug, PartialEq)]
pub struct RebuildContext {
    pub registry: ModelRegistry,
    pub pipelines: PipelineSet,
    /// The names of the skills that were found.
    pub skills: Vec<String>,
    pub memory_enabled: bool,
    /// The persona of the configuration.
    pub persona: Option<String>,
}

/// Which of the settings that are read at start alone have changed.
#[derive(Debug, PartialEq, Eq, Structural, Copy, Clone)]
pub struct BootKeys {
    pub mcp_servers: bool,
    pub vector_db: bool,
    pub web: bool,
    pub http: bool,
}

/// A configuration as it was read anew.
#[derive(Debug, PartialEq)]
pub struct FreshConfig {
    /// The models it declares, or why they are not valid.
    pub registry: Result<ModelRegistry, String>,
    /// Why its tool filter is not valid, if it is not.
    pub tools: Result<(), String>,
    /// Why its timeouts are not valid, if they are not.
    pub timeouts: Result<(), String>,
    pub changed: BootKeys,
    /// The names of the skills that were found beside it.
    pub skills: Vec<String>,
    /// What went wrong with skills.
    pub skill_warnings: Vec<String>,
    /// The teams it declares.
    pub teams: Config,
    pub memory_enabled: bool,
    pub persona: Option<String>,
}

/// What a reload came to.
#[derive(Debug, PartialEq)]
pub struct Reloaded {
    /// What the user is told.
    pub warnings: Vec<String>,
    /// Whether the configuration was adopted.
    pub adopted: bool,
    /// What views show of the teams, where they were adopted.
    pub catalogue: Option<Vec<PipelineInfo>>,
}

/// The warning that keeps the previous configuration, where there is cause for
/// one.
pub open spec fn reload_fault(read: Result<FreshConfig, String>) -> Option<Seq<char>> {
    match read {
        Err(reason) => Some(
            "⚠ config reload failed: "@ + reason@ + " — keeping previous config."@,
        ),
        Ok(fresh) => match fresh.registry {
            Err(e) => Some(
                "⚠ config reload: model registry invalid ("@ + e@
                    + ") — keeping previous config."@,
            ),
            Ok(_) => match fresh.tools {
                Err(e) => Some("⚠ config reload: "@ + e@ + " — keeping previous config."@),
                Ok(_) => match fresh.timeouts {
                    Err(e) => Some("⚠ config reload: "@ + e@ + " — keeping previous config."@),
                    Ok(_) => None,
                },
            },
        },
    }
}

/// The warning for a setting that is read at start alone.
pub open spec fn boot_warning(label: Seq<char>, changed: bool) -> Seq<Seq<char>> {
    if changed {
        seq!["⚠ "@ + label + " change ignored — restart to apply."@]
    } else {
        Seq::empty()
    }
}

/// The warnings for the settings that are read at start alone.
pub open spec fn boot_warnings(c: BootKeys) -> Seq<Seq<char>> {
    boot_warning("mcp_servers"@, c.mcp_servers) + boot_warning("vector_db"@, c.vector_db)
        + boot_warning("web"@, c.web) + boot_warning("http"@, c.http)
}

/// The warning for teams that are not valid.
pub open spec fn teams_warning(e: Seq<char>) -> Seq<char> {
    "⚠ config reload: pipelines invalid ("@ + e + ") — keeping the previous pipelines."@
}

/// A line where there is one.
pub open spec fn line(o: Option<Seq<char>>) -> Seq<Seq<char>> {
    match o {
        Some(m) => seq![m],
        None => Seq::empty(),
    }
}

/// Whether `after` and `r` are what a reload of valid settings comes to, where its
/// teams come to `teams`.
pub open spec fn adopted(
    before: RebuildContext,
    fresh: FreshConfig,
    after: RebuildContext,
    r: Reloaded,
    teams: Result<PipelineSet, PipelineSetError>,
) -> bool {
    let first = boot_warnings(fresh.changed) + text::strs(fresh.skill_warnings@);
    &&& pipeline::set::built(
        fresh.teams,
        fresh.registry->Ok_0,
        Some(text::strs(fresh.skills@)),
        teams,
    )
    &&& match teams {
        Ok(set) => {
            &&& after.pipelines == set
            &&& text::strs(r.warnings@) == first + line(
                selection::catalogue_text(before.pipelines@, set@),
            )
            &&& r.catalogue matches Some(infos) && infos@.len() == set@.len() && forall|i: int|
                0 <= i < infos@.len() ==> pipeline::set::shows(#[trigger] infos@[i], set@[i])
        },
        Err(e) => {
            &&& after.pipelines == before.pipelines
            &&& text::strs(r.warnings@) == first.push(teams_warning(e.text()))
            &&& r.catalogue is None
        },
    }
}

/// Whether `after` and `r` are what a reload comes to.
pub open spec fn reloaded(
    before: RebuildContext,
    read: Result<FreshConfig, String>,
    after: RebuildContext,
    r: Reloaded,
) -> bool {
    match reload_fault(read) {
        Some(w) => {
            &&& after == before
            &&& text::strs(r.warnings@) == seq![w]
            &&& !r.adopted
            &&& r.catalogue is None
        },
        None => {
            let fresh = read->Ok_0;
            &&& r.adopted
            &&& after.registry == fresh.registry->Ok_0
            &&& after.skills == fresh.skills
            &&& after.memory_enabled == fresh.memory_enabled
            &&& after.persona == fresh.persona
            &&& exists|teams: Result<PipelineSet, PipelineSetError>| #[trigger]
                adopted(before, fresh, after, r, teams)
        },
    }
}

fn kept(before: &str, reason: &str, after: &str) -> (r: Reloaded)
    ensures
        text::strs(r.warnings@) == seq![before@ + reason@ + after@],
        !r.adopted,
        r.catalogue is None,
{
    let mut w = before.to_owned();
    w.append(reason);
    w.append(after);
    let mut warnings: Vec<String> = Vec::new();
    warnings.push(w);
    assert(text::strs(warnings@) =~= seq![before@ + reason@ + after@]);
    Reloaded { warnings, adopted: false, catalogue: None }
}

fn warn_boot_key(warnings: &mut Vec<String>, label: &str, changed: bool)
    ensures
        text::strs(final(warnings)@) == text::strs(old(warnings)@) + boot_warning(label@, changed),
{
    let ghost before = warnings@;
    if changed {
        let mut w = "⚠ ".to_owned();
        w.append(label);
        w.append(" change ignored — restart to apply.");
        warnings.push(w);
    }
    assert(text::strs(warnings@) =~= text::strs(before) + boot_warning(label@, changed));
}

/// Takes a configuration that was read anew over into a live session. Where it is
/// not valid, nothing changes but for the warning. The teams are resolved against
/// the new models and skills.
pub fn reload_session_config(ctx: &mut RebuildContext, read: Result<FreshConfig, String>) -> (r:
    Reloaded)
    ensures
        reloaded(*old(ctx), read, *final(ctx), r),
{
    let ghost before = *ctx;
    let fresh = match read {
        Ok(fresh) => fresh,
        Err(reason) => {
            return kept(
                "⚠ config reload failed: ",
                reason.as_str(),
                " — keeping previous config.",
            );
        },
    };
    let ghost fresh0 = fresh;
    let registry = match fresh.registry {
        Ok(registry) => registry,
        Err(e) => {
            return kept(
                "⚠ config reload: model registry invalid (",
                e.as_str(),
                ") — keeping previous config.",
            );
        },
    };
    if let Err(e) = fresh.tools {
        return kept("⚠ config reload: ", e.as_str(), " — keeping previous config.");
    }
    if let Err(e) = fresh.timeouts {
        return kept("⚠ config reload: ", e.as_str(), " — keeping previous config.");
    }
    let mut warnings: Vec<String> = Vec::new();
    warn_boot_key(&mut warnings, "mcp_servers", fresh.changed.mcp_servers);
    warn_boot_key(&mut warnings, "vector_db", fresh.changed.vector_db);
    warn_boot_key(&mut warnings, "web", fresh.changed.web);
    warn_boot_key(&mut warnings, "http", fresh.changed.http);
    assert(text::strs(warnings@) =~= boot_warnings(fresh0.changed));
    let mut skill_warnings = fresh.skill_warnings;
    let ghost own = warnings@;
    warnings.append(&mut skill_warnings);
    assert(text::strs(warnings@) =~= text::strs(own) + text::strs(fresh0.skill_warnings@));
    let ghost first = text::strs(warnings@);
    let ghost listed = warnings@;
    let teams = PipelineSet::build(&fresh.teams, &registry, Some(fresh.skills.as_slice()));
    let ghost teams0 = teams;
    let mut catalogue: Option<Vec<PipelineInfo>> = None;
    match teams {
        Ok(set) => {
            if let Some(m) = selection::pipeline_catalogue_message(&ctx.pipelines, &set) {
                warnings.push(m);
            }
            assert(text::strs(warnings@) =~= first + line(
                selection::catalogue_text(before.pipelines@, set@),
            ));
            catalogue = Some(set.infos());
            ctx.pipelines = set;
        },
        Err(e) => {
            let mut w = "⚠ config reload: pipelines invalid (".to_owned();
            w.append(e.message().as_str());
            w.append(") — keeping the previous pipelines.");
            warnings.push(w);
            assert(text::strs(warnings@) =~= first.push(teams_warning(e.text())));
        },
    }
    ctx.registry = registry;
    ctx.skills = fresh.skills;
    ctx.memory_enabled = fresh.memory_enabled;
    ctx.persona = fresh.persona;
    let r = Reloaded { warnings, adopted: true, catalogue };
    assert(adopted(before, fresh0, *ctx, r, teams0));
    r
}

/// A reload that fails leaves the session as it was, whatever failed, and says so
/// in one line.
pub proof fn law_failed_reload_changes_nothing(
    before: RebuildContext,
    read: Result<FreshConfig, String>,
    after: RebuildContext,
    r: Reloaded,
)
    requires
        reloaded(before, read, after, r),
        !r.adopted,
    ensures
        after == before,
        r.warnings@.len() == 1,
        r.catalogue is None,
{
    assert(text::strs(r.warnings@).len() == 1);
}

/// What views show of the teams changes exactly when the teams do.
pub proof fn law_catalogue_follows_the_teams(
    before: RebuildContext,
    read: Result<FreshConfig, String>,
    after: RebuildContext,
    r: Reloaded,
)
    requires
        reloaded(before, read, after, r),
    ensures
        r.catalogue is None ==> after.pipelines == before.pipelines,
        r.catalogue matches Some(infos) ==> infos@.len() == after.pipelines@.len(),
        forall|i: int|
            r.catalogue is Some && 0 <= i < after.pipelines@.len() ==> pipeline::set::shows(
                r.catalogue->0@[i],
                #[trigger] after.pipelines@[i],
            ),
{
    if reload_fault(read) is None {
        let teams = choose|teams: Result<PipelineSet, PipelineSetError>| #[trigger]
            adopted(before, read->Ok_0, after, r, teams);
        assert(adopted(before, read->Ok_0, after, r, teams));
        if r.catalogue is Some {
            let infos = r.catalogue->0;
            assert forall|i: int| 0 <= i < after.pipelines@.len() implies pipeline::set::shows(
                infos@[i],
                #[trigger] after.pipelines@[i],
            ) by {
                assert(pipeline::set::shows(infos@[i], after.pipelines@[i]));
            }
        }
    }
}

/// A configuration is adopted exactly where it could be read and its models, its tool
/// filter and its timeouts are valid. It is then taken over whole: the models, the
/// skills, the memory and the persona are the new ones.
pub proof fn law_valid_configuration_is_taken_over(
    before: RebuildContext,
    read: Result<FreshConfig, String>,
    after: RebuildContext,
    r: Reloaded,
)
    requires
        reloaded(before, read, after, r),
    ensures
        r.adopted <==> (read matches Ok(fresh) && fresh.registry is Ok && fresh.tools is Ok
            && fresh.timeouts is Ok),
        !r.adopted ==> after == before && r.warnings@.len() == 1 && r.catalogue is None,
        r.adopted ==> {
            let fresh = read->Ok_0;
            &&& after.registry == fresh.registry->Ok_0
            &&& after.skills == fresh.skills
            &&& after.memory_enabled == fresh.memory_enabled
            &&& after.persona == fresh.persona
        },
        r.adopted && r.catalogue is None ==> after.pipelines == before.pipelines,
{
    if r.adopted {
        let fresh = read->Ok_0;
        let teams = choose|teams: Result<PipelineSet, PipelineSetError>| #[trigger]
            adopted(before, fresh, after, r, teams);
        assert(adopted(before, fresh, after, r, teams));
    } else {
        assert(text::strs(r.warnings@).len() == 1);
    }
}

/// The user hears why a configuration was not adopted: the reason stands in the
/// warning.
pub proof fn law_fault_gives_its_reason(read: Result<FreshConfig, String>) -> (w: (
    Seq<char>,
    Seq<char>,
))
    requires
        reload_fault(read) is Some,
    ensures
        reload_fault(read)->0 == w.0 + (match read {
            Err(reason) => reason@,
            Ok(fresh) => match fresh.registry {
                Err(e) => e@,
                Ok(_) => match fresh.tools {
                    Err(e) => e@,
                    Ok(_) => fresh.timeouts->Err_0@,
                },
            },
        }) + w.1,
{
    match read {
        Err(_) => ("⚠ config reload failed: "@, " — keeping previous config."@),
        Ok(fresh) => if fresh.registry is Err {
            ("⚠ config reload: model registry invalid ("@, ") — keeping previous config."@)
        } else {
            ("⚠ config reload: "@, " — keeping previous config."@)
        },
    }
}

/// There is one warning for each changed setting that is read at start alone, in the
/// order of the settings, and none for the others.
pub proof fn law_boot_settings_are_warned_of(c: BootKeys)
    ensures
        boot_warnings(c).len() == (if c.mcp_servers {
            1int
        } else {
            0
        }) + (if c.vector_db {
            1int
        } else {
            0
        }) + (if c.web {
            1int
        } else {
            0
        }) + (if c.http {
            1int
        } else {
            0
        }),
        c.mcp_servers ==> boot_warnings(c)[0]
            == "⚠ "@ + "mcp_servers"@ + " change ignored — restart to apply."@,
        c.vector_db ==> boot_warnings(c)[if c.mcp_servers {
            1
        } else {
            0
        }] == "⚠ "@ + "vector_db"@ + " change ignored — restart to apply."@,
        c.web ==> boot_warnings(c)[boot_warnings(c).len() - (if c.http {
            2int
        } else {
            1
        })] == "⚠ "@ + "web"@ + " change ignored — restart to apply."@,
        c.http ==> boot_warnings(c).last()
            == "⚠ "@ + "http"@ + " change ignored — restart to apply."@,
{
}

/// The warnings of a configuration that was adopted hold those for the settings read
/// at start alone, then all that went wrong with skills, in this order.
pub proof fn law_warnings_are_complete(
    before: RebuildContext,
    read: Result<FreshConfig, String>,
    after: RebuildContext,
    r: Reloaded,
)
    requires
        reloaded(before, read, after, r),
        r.adopted,
    ensures
        ({
            let fresh = read->Ok_0;
            let n = boot_warnings(fresh.changed).len() as int;
            &&& r.warnings@.len() >= n + fresh.skill_warnings@.len()
            &&& r.warnings@.len() <= n + fresh.skill_warnings@.len() + 1
            &&& forall|i: int|
                0 <= i < n ==> (#[trigger] r.warnings@[i])@ == boot_warnings(fresh.changed)[i]
            &&& forall|i: int|
                0 <= i < fresh.skill_warnings@.len() ==> r.warnings@[n + i]@ == (
                #[trigger] fresh.skill_warnings@[i])@
        }),
{
    let fresh = read->Ok_0;
    let teams = choose|teams: Result<PipelineSet, PipelineSetError>| #[trigger]
        adopted(before, fresh, after, r, teams);
    assert(adopted(before, fresh, after, r, teams));
    let all = text::strs(r.warnings@);
    let boot = boot_warnings(fresh.changed);
    assert(all.len() == r.warnings@.len());
    assert forall|i: int| 0 <= i < boot.len() implies (#[trigger] r.warnings@[i])@ == boot[i] by {
        assert(all[i] == boot[i]);
    }
    assert forall|i: int| 0 <= i < fresh.skill_warnings@.len() implies r.warnings@[boot.len() as int
        + i]@ == (#[trigger] fresh.skill_warnings@[i])@ by {
        assert(all[boot.len() as int + i] == text::strs(fresh.skill_warnings@)[i]);
    }
}

/// The teams of a configuration that was adopted are those that it declares, resolved
/// against its own models and skills. Where they are not valid, the previous teams
/// stay, and the last warning says why.
pub proof fn law_teams_are_resolved_anew(
    before: RebuildContext,
    read: Result<FreshConfig, String>,
    after: RebuildContext,
    r: Reloaded,
) -> (teams: Result<PipelineSet, PipelineSetError>)
    requires
        reloaded(before, read, after, r),
        r.adopted,
    ensures
        pipeline::set::built(
            read->Ok_0.teams,
            after.registry,
            Some(text::strs(after.skills@)),
            teams,
        ),
        teams matches Ok(set) ==> after.pipelines == set && r.catalogue is Some,
        teams matches Err(e) ==> after.pipelines == before.pipelines && r.catalogue is None
            && r.warnings@.len() > 0 && r.warnings@.last()@
            == "⚠ config reload: pipelines invalid ("@ + e.text()
            + ") — keeping the previous pipelines."@,
{
    let teams = choose|teams: Result<PipelineSet, PipelineSetError>| #[trigger]
        adopted(before, read->Ok_0, after, r, teams);
    assert(adopted(before, read->Ok_0, after, r, teams));
    if let Err(e) = teams {
        let all = text::strs(r.warnings@);
        assert(all.last() == r.warnings@.last()@);
    }
    teams
}

/// What is told of the teams comes last: where their names changed, the line that
/// lists them; else nothing more.
pub proof fn law_new_teams_are_told(
    before: RebuildContext,
    read: Result<FreshConfig, String>,
    after: RebuildContext,
    r: Reloaded,
)
    requires
        reloaded(before, read, after, r),
        r.adopted,
        r.catalogue is Some,
    ensures
        ({
            let fresh = read->Ok_0;
            let n = (boot_warnings(fresh.changed).len() + fresh.skill_warnings@.len()) as int;
            match selection::catalogue_text(before.pipelines@, after.pipelines@) {
                Some(m) => r.warnings@.len() == n + 1 && r.warnings@[n]@ == m,
                None => r.warnings@.len() == n,
            }
        }),
{
    let fresh = read->Ok_0;
    let teams = choose|teams: Result<PipelineSet, PipelineSetError>| #[trigger]
        adopted(before, fresh, after, r, teams);
    assert(adopted(before, fresh, after, r, teams));
    let all = text::strs(r.warnings@);
    let n = (boot_warnings(fresh.changed).len() + fresh.skill_warnings@.len()) as int;
    assert(all.len() == r.warnings@.len());
    if selection::catalogue_text(before.pipelines@, after.pipelines@) is Some {
        assert(all[n] == r.warnings@[n]@);
    }
}

} // verus!

//! Adding modpacks to a config.

use crate::config::structs::{Config, Modpack, ModpackIdentifier, ModpackIdentifierView};
use crate::platform::{CurseForgeProject, ModrinthProject, ModrinthProjectType};
use crate::text;
use vstd::prelude::*;

verus! {

/// Why a project cannot be added as a modpack.
#[derive(Debug, Clone, Copy, PartialEq, Eq, Structural)]
pub enum Error {
    /// Modpack is already added to profile
    AlreadyAdded,
    /// The project is not a modpack
    NotAModpack,
}

/// Whether one of `modpacks` has this name or this identifier.
pub open spec fn is_added(
    modpacks: Seq<Modpack>,
    name: Seq<char>,
    identifier: ModpackIdentifierView,
) -> bool {
    exists|i: int|
        0 <= i < modpacks.len() && ((#[trigger] modpacks[i]).name@ == name
            || modpacks[i].identifier@ == identifier)
}

/// Tests [`is_added`].
fn check_is_added(modpacks: &Vec<Modpack>, name: &str, identifier: &ModpackIdentifier) -> (added:
    bool)
    ensures
        added == is_added(modpacks@, name@, identifier@),
{
    let mut i: usize = 0;
    while i < modpacks.len()
        invariant
            i <= modpacks.len(),
            forall|k: int|
                0 <= k < i ==> !((#[trigger] modpacks@[k]).name@ == name@
                    || modpacks@[k].identifier@ == identifier@),
        decreases modpacks.len() - i,
    {
        if text::str_eq(modpacks[i].name.as_str(), name) || modpacks[i].identifier == *identifier {
            return true;
        }
        i += 1;
    }
    false
}

/// Whether a CurseForge project can be added as a modpack, and why not.
pub open spec fn curseforge_verdict(config: Config, project: CurseForgeProject) -> Result<
    (),
    Error,
> {
    if is_added(
        config.modpacks@,
        project.name@,
        ModpackIdentifierView::CurseForgeModpack(project.id),
    ) {
        Err(Error::AlreadyAdded)
    } else if !text::contains(project.website_url@, "modpacks"@) {
        Err(Error::NotAModpack)
    } else {
        Ok(())
    }
}

/// Check if the project has not been added yet and is a modpack
pub fn curseforge(config: &Config, project: &CurseForgeProject) -> (outcome: Result<(), Error>)
    ensures
        outcome == curseforge_verdict(*config, *project),
{
    let identifier = ModpackIdentifier::CurseForgeModpack(project.id);
    if check_is_added(&config.modpacks, project.name.as_str(), &identifier) {
        Err(Error::AlreadyAdded)
    } else if !text::text_contains(project.website_url.as_str(), "modpacks") {
        Err(Error::NotAModpack)
    } else {
        Ok(())
    }
}

/// Whether a Modrinth project can be added as a modpack, and why not.
pub open spec fn modrinth_verdict(config: Config, project: ModrinthProject) -> Result<(), Error> {
    if is_added(
        config.modpacks@,
        project.title@,
        ModpackIdentifierView::ModrinthModpack(project.id@),
    ) {
        Err(Error::AlreadyAdded)
    } else if project.project_type != ModrinthProjectType::Modpack {
        Err(Error::NotAModpack)
    } else {
        Ok(())
    }
}

/// Check if the project has not been added yet and is a modpack
pub fn modrinth(config: &Config, project: &ModrinthProject) -> (outcome: Result<(), Error>)
    ensures
        outcome == modrinth_verdict(*config, *project),
{
    let identifier = ModpackIdentifier::ModrinthModpack(project.id.clone());
    if check_is_added(&config.modpacks, project.title.as_str(), &identifier) {
        Err(Error::AlreadyAdded)
    } else if project.project_type != ModrinthProjectType::Modpack {
        Err(Error::NotAModpack)
    } else {
        Ok(())
    }
}

} // verus!

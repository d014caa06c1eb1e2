use crate::text;
use super::filters::{Filter, FilterView};
use std::path::PathBuf;
use std::str::FromStr;
use vstd::prelude::*;
use vstd::std_specs::cmp::PartialEqSpecImpl;

verus! {

/// A directory on disk. The library hands such a value on and never looks
/// inside it.
#[verifier::external_type_specification]
#[verifier::external_body]
pub struct ExPathBuf(PathBuf);

/// `PathBuf::clone` hands back a path equal to the one it was given.
pub assume_specification[ <PathBuf as Clone>::clone ](path: &PathBuf) -> (copy: PathBuf)
    ensures
        copy == *path,
;

/// Everything that is kept from one run to the next.
#[derive(Debug, Clone)]
pub struct Config {
    /// The index of the active profile
    pub active_profile: usize,
    pub profiles: Vec<Profile>,
    /// The index of the active modpack
    pub active_modpack: usize,
    pub modpacks: Vec<Modpack>,
}

impl Default for Config {
    fn default() -> (config: Self)
        ensures
            config.active_profile == 0,
            config.profiles@.len() == 0,
            config.active_modpack == 0,
            config.modpacks@.len() == 0,
    {
        Config { active_profile: 0, profiles: Vec::new(), active_modpack: 0, modpacks: Vec::new() }
    }
}

/// Whether an index is the one that is left out when a config is written.
pub fn is_zero(n: &usize) -> (zero: bool)
    ensures
        zero == (*n == 0),
{
    *n == 0
}

/// Whether a flag is the one that is left out when a config is written.
pub fn is_false(b: &bool) -> (unset: bool)
    ensures
        unset == !*b,
{
    !*b
}

/// A modpack that is kept up to date in a directory.
#[derive(Debug, Clone)]
pub struct Modpack {
    pub name: String,
    pub output_dir: PathBuf,
    pub install_overrides: bool,
    pub identifier: ModpackIdentifier,
}

/// What a modpack is known by on its platform.
#[derive(Debug, Clone)]
pub enum ModpackIdentifier {
    CurseForgeModpack(i32),
    ModrinthModpack(String),
}

/// What a [`ModpackIdentifier`] holds.
pub enum ModpackIdentifierView {
    CurseForgeModpack(i32),
    ModrinthModpack(Seq<char>),
}

impl View for ModpackIdentifier {
    type V = ModpackIdentifierView;

    open spec fn view(&self) -> ModpackIdentifierView {
        match self {
            ModpackIdentifier::CurseForgeModpack(id) => ModpackIdentifierView::CurseForgeModpack(
                *id,
            ),
            ModpackIdentifier::ModrinthModpack(id) => ModpackIdentifierView::ModrinthModpack(id@),
        }
    }
}

impl PartialEq for ModpackIdentifier {
    fn eq(&self, other: &Self) -> (same: bool) {
        match (self, other) {
            (
                ModpackIdentifier::CurseForgeModpack(mine),
                ModpackIdentifier::CurseForgeModpack(theirs),
            ) => *mine == *theirs,
            (
                ModpackIdentifier::ModrinthModpack(mine),
                ModpackIdentifier::ModrinthModpack(theirs),
            ) => text::str_eq(mine.as_str(), theirs.as_str()),
            _ => false,
        }
    }
}

impl PartialEqSpecImpl for ModpackIdentifier {
    open spec fn obeys_eq_spec() -> bool {
        true
    }

    open spec fn eq_spec(&self, other: &Self) -> bool {
        self@ == other@
    }
}

impl Eq for ModpackIdentifier {

}

/// The loaders that a profile for `mod_loader` takes files of, the most
/// welcome first: the loader itself, then the one it falls back on.
pub open spec fn preferred_loaders(mod_loader: ModLoader) -> Seq<ModLoader> {
    match mod_loader.spec_fallback() {
        Some(other) => seq![mod_loader, other],
        None => seq![mod_loader],
    }
}

/// The filters that stand for one game version list and one loader.
pub open spec fn default_filters(game_versions: Seq<Seq<char>>, mod_loader: ModLoader) -> Seq<
    FilterView,
> {
    seq![
        FilterView::ModLoaderPrefer(preferred_loaders(mod_loader)),
        FilterView::GameVersionStrict(game_versions),
    ]
}

/// Builds [`default_filters`].
fn make_default_filters(game_versions: Vec<String>, mod_loader: ModLoader) -> (filters: Vec<
    Filter,
>)
    ensures
        filters.deep_view() == default_filters(game_versions.deep_view(), mod_loader),
{
    let mut loaders: Vec<ModLoader> = Vec::new();
    loaders.push(mod_loader);
    match mod_loader.fallback() {
        Some(other) => {
            loaders.push(other);
        },
        None => {},
    }
    assert(loaders@ =~= preferred_loaders(mod_loader));
    let mut filters: Vec<Filter> = Vec::new();
    filters.push(Filter::ModLoaderPrefer(loaders));
    filters.push(Filter::GameVersionStrict(game_versions));
    filters
}

/// A set of mods for one game version and one mod loader, with the filters
/// that tell which of a mod's files is wanted.
#[derive(Debug, Clone)]
pub struct Profile {
    pub name: String,
    /// The directory to download mod files to
    pub output_dir: PathBuf,
    /// The filters that apply to every mod of the profile that does not
    /// override them
    pub filters: Vec<Filter>,
    pub mods: Vec<Mod>,
    /// The game version of a profile that was written before filters
    /// existed. [`Profile::backwards_compat`] turns it into filters.
    pub game_version: Option<String>,
    /// The mod loader of a profile that was written before filters existed.
    pub mod_loader: Option<ModLoader>,
}

impl Profile {
    /// A simple constructor that automatically deals with converting to
    /// filters: the profile prefers `mod_loader`, then the loader that it can
    /// load as well, and asks for one of `game_versions`.
    pub fn new(
        name: String,
        output_dir: PathBuf,
        game_versions: Vec<String>,
        mod_loader: ModLoader,
    ) -> (profile: Self)
        ensures
            profile.name == name,
            profile.output_dir == output_dir,
            profile.filters.deep_view() == default_filters(game_versions.deep_view(), mod_loader),
            profile.mods@.len() == 0,
            profile.game_version is None,
            profile.mod_loader is None,
    {
        Profile {
            name,
            output_dir,
            filters: make_default_filters(game_versions, mod_loader),
            mods: Vec::new(),
            game_version: None,
            mod_loader: None,
        }
    }

    /// Convert the profile's `game_version` and `mod_loader` fields into
    /// filters. Where both are set, the filters that stand for them take the
    /// place of the profile's filters and both fields are cleared. Where one
    /// is missing, both are cleared and nothing else changes.
    pub fn backwards_compat(&mut self)
        ensures
            final(self).name == old(self).name,
            final(self).output_dir == old(self).output_dir,
            final(self).mods == old(self).mods,
            final(self).game_version is None,
            final(self).mod_loader is None,
            match (old(self).game_version, old(self).mod_loader) {
                (Some(version), Some(loader)) => final(self).filters.deep_view()
                    == default_filters(seq![version@], loader),
                _ => final(self).filters == old(self).filters,
            },
    {
        let version = self.game_version.take();
        let loader = self.mod_loader.take();
        match (version, loader) {
            (Some(version), Some(loader)) => {
                let mut versions: Vec<String> = Vec::new();
                versions.push(version);
                assert(versions.deep_view() =~= seq![version@]);
                self.filters = make_default_filters(versions, loader);
            },
            _ => {},
        }
    }
}

/// A mod of a profile.
#[derive(Debug, Clone)]
pub struct Mod {
    pub name: String,
    pub identifier: ModIdentifier,
    /// The specific version of the mod to download
    pub pin: Option<String>,
    /// Custom filters that apply only for this mod
    pub filters: Vec<Filter>,
    /// Whether the filters specified above replace or apply with the profile's filters
    pub override_filters: bool,
}

/// What a mod is known by on its platform.
#[derive(Debug)]
pub enum ModIdentifier {
    CurseForgeProject(i32),
    ModrinthProject(String),
    GitHubRepository((String, String)),
}

/// A [`ModIdentifier`] that borrows its texts.
#[derive(Debug, Clone, Copy)]
pub enum ModIdentifierRef<'a> {
    CurseForgeProject(i32),
    ModrinthProject(&'a str),
    GitHubRepository((&'a str, &'a str)),
}

/// What a [`ModIdentifier`] or a [`ModIdentifierRef`] names.
pub enum ModIdentifierView {
    CurseForgeProject(i32),
    ModrinthProject(Seq<char>),
    GitHubRepository(Seq<char>, Seq<char>),
}

impl View for ModIdentifier {
    type V = ModIdentifierView;

    open spec fn view(&self) -> ModIdentifierView {
        match self {
            ModIdentifier::CurseForgeProject(id) => ModIdentifierView::CurseForgeProject(*id),
            ModIdentifier::ModrinthProject(id) => ModIdentifierView::ModrinthProject(id@),
            ModIdentifier::GitHubRepository(id) => ModIdentifierView::GitHubRepository(
                id.0@,
                id.1@,
            ),
        }
    }
}

impl DeepView for ModIdentifier {
    type V = ModIdentifierView;

    open spec fn deep_view(&self) -> ModIdentifierView {
        self@
    }
}

impl<'a> View for ModIdentifierRef<'a> {
    type V = ModIdentifierView;

    open spec fn view(&self) -> ModIdentifierView {
        match self {
            ModIdentifierRef::CurseForgeProject(id) => ModIdentifierView::CurseForgeProject(*id),
            ModIdentifierRef::ModrinthProject(id) => ModIdentifierView::ModrinthProject(id@),
            ModIdentifierRef::GitHubRepository(id) => ModIdentifierView::GitHubRepository(
                id.0@,
                id.1@,
            ),
        }
    }
}

impl Clone for ModIdentifier {
    fn clone(&self) -> (copy: Self)
        ensures
            copy@ == self@,
    {
        match self {
            ModIdentifier::CurseForgeProject(id) => ModIdentifier::CurseForgeProject(*id),
            ModIdentifier::ModrinthProject(id) => ModIdentifier::ModrinthProject(id.clone()),
            ModIdentifier::GitHubRepository(id) => ModIdentifier::GitHubRepository(
                (id.0.clone(), id.1.clone()),
            ),
        }
    }
}

impl ModIdentifier {
    /// The same identifier, its texts borrowed.
    pub fn as_ref(&self) -> (borrowed: ModIdentifierRef)
        ensures
            borrowed@ == self@,
    {
        match self {
            ModIdentifier::CurseForgeProject(v) => ModIdentifierRef::CurseForgeProject(*v),
            ModIdentifier::ModrinthProject(v) => ModIdentifierRef::ModrinthProject(v.as_str()),
            ModIdentifier::GitHubRepository(v) => ModIdentifierRef::GitHubRepository(
                (v.0.as_str(), v.1.as_str()),
            ),
        }
    }
}

impl PartialEq for ModIdentifier {
    fn eq(&self, other: &Self) -> (same: bool) {
        match (self, other) {
            (ModIdentifier::CurseForgeProject(mine), ModIdentifier::CurseForgeProject(theirs)) => {
                *mine == *theirs
            },
            (ModIdentifier::ModrinthProject(mine), ModIdentifier::ModrinthProject(theirs)) => {
                text::str_eq(mine.as_str(), theirs.as_str())
            },
            (ModIdentifier::GitHubRepository(mine), ModIdentifier::GitHubRepository(theirs)) => {
                text::str_eq(mine.0.as_str(), theirs.0.as_str()) && text::str_eq(
                    mine.1.as_str(),
                    theirs.1.as_str(),
                )
            },
            _ => false,
        }
    }
}

impl PartialEqSpecImpl for ModIdentifier {
    open spec fn obeys_eq_spec() -> bool {
        true
    }

    open spec fn eq_spec(&self, other: &Self) -> bool {
        self@ == other@
    }
}

impl Eq for ModIdentifier {

}

impl<'a> PartialEq for ModIdentifierRef<'a> {
    fn eq(&self, other: &Self) -> (same: bool) {
        match (self, other) {
            (
                ModIdentifierRef::CurseForgeProject(mine),
                ModIdentifierRef::CurseForgeProject(theirs),
            ) => *mine == *theirs,
            (ModIdentifierRef::ModrinthProject(mine), ModIdentifierRef::ModrinthProject(theirs)) => {
                text::str_eq(mine, theirs)
            },
            (
                ModIdentifierRef::GitHubRepository(mine),
                ModIdentifierRef::GitHubRepository(theirs),
            ) => text::str_eq(mine.0, theirs.0) && text::str_eq(mine.1, theirs.1),
            _ => false,
        }
    }
}

impl<'a> PartialEqSpecImpl for ModIdentifierRef<'a> {
    open spec fn obeys_eq_spec() -> bool {
        true
    }

    open spec fn eq_spec(&self, other: &Self) -> bool {
        self@ == other@
    }
}

impl<'a> Eq for ModIdentifierRef<'a> {

}

/// The mod loader that a file is built for.
#[derive(Debug, Clone, Copy, PartialEq, Eq, Structural)]
pub enum ModLoader {
    Quilt,
    Fabric,
    Forge,
    NeoForge,
}

/// The given string is not a recognised mod loader
#[derive(Debug, PartialEq, Eq, Structural)]
pub struct ModLoaderParseError;

/// The loader that a lower-case identifier names.
pub open spec fn loader_named(identifier: Seq<char>) -> Result<ModLoader, ModLoaderParseError> {
    if identifier == "quilt"@ {
        Ok(ModLoader::Quilt)
    } else if identifier == "fabric"@ {
        Ok(ModLoader::Fabric)
    } else if identifier == "forge"@ {
        Ok(ModLoader::Forge)
    } else if identifier == "neoforge"@ {
        Ok(ModLoader::NeoForge)
    } else {
        Err(ModLoaderParseError)
    }
}

/// The loader that `name` names, whatever its case and the white space
/// around it.
pub open spec fn parsed_loader(name: Seq<char>) -> Result<ModLoader, ModLoaderParseError> {
    loader_named(text::lowercased(text::trimmed(name)))
}

/// The loaders that `names` name, in the order of `names`; what names no
/// loader is passed over.
pub open spec fn loaders_among(names: Seq<Seq<char>>) -> Seq<ModLoader>
    decreases names.len(),
{
    if names.len() == 0 {
        Seq::empty()
    } else {
        match parsed_loader(names.last()) {
            Ok(loader) => loaders_among(names.drop_last()).push(loader),
            Err(_) => loaders_among(names.drop_last()),
        }
    }
}

/// Computes [`loaders_among`].
pub fn find_loaders(names: &Vec<String>) -> (loaders: Vec<ModLoader>)
    ensures
        loaders@ == loaders_among(names.deep_view()),
{
    let mut loaders: Vec<ModLoader> = Vec::new();
    let mut i: usize = 0;
    while i < names.len()
        invariant
            i <= names.len(),
            loaders@ == loaders_among(names.deep_view().take(i as int)),
        decreases names.len() - i,
    {
        proof {
            let upto = names.deep_view().take(i + 1);
            assert(upto.drop_last() =~= names.deep_view().take(i as int));
        }
        match ModLoader::from_str(names[i].as_str()) {
            Ok(loader) => {
                loaders.push(loader);
            },
            Err(_) => {},
        }
        i += 1;
    }
    assert(names.deep_view().take(names.len() as int) =~= names.deep_view());
    loaders
}

impl ModLoader {
    /// The loader's name.
    pub open spec fn label(self) -> Seq<char> {
        match self {
            ModLoader::Quilt => "Quilt"@,
            ModLoader::Fabric => "Fabric"@,
            ModLoader::Forge => "Forge"@,
            ModLoader::NeoForge => "NeoForge"@,
        }
    }

    /// The loader's name.
    pub fn to_string(&self) -> (name: String)
        ensures
            name@ == self.label(),
    {
        match self {
            ModLoader::Quilt => "Quilt".to_owned(),
            ModLoader::Fabric => "Fabric".to_owned(),
            ModLoader::Forge => "Forge".to_owned(),
            ModLoader::NeoForge => "NeoForge".to_owned(),
        }
    }

    /// The loader whose mods `self` can load besides its own, if there is one.
    /// Quilt loads Fabric mods; nothing else is compatible with anything.
    pub open spec fn spec_fallback(self) -> Option<ModLoader> {
        match self {
            ModLoader::Quilt => Some(ModLoader::Fabric),
            _ => None,
        }
    }

    /// The loader whose mods `self` can load besides its own, if there is one.
    #[verifier::when_used_as_spec(spec_fallback)]
    pub fn fallback(self) -> (other: Option<ModLoader>)
        ensures
            other == self.spec_fallback(),
    {
        match self {
            ModLoader::Quilt => Some(ModLoader::Fabric),
            _ => None,
        }
    }

    /// The loader that `identifier` names exactly: lower case, nothing around it.
    pub fn from_identifier(identifier: &str) -> (loader: Result<ModLoader, ModLoaderParseError>)
        ensures
            loader == loader_named(identifier@),
    {
        if text::str_eq(identifier, "quilt") {
            Ok(ModLoader::Quilt)
        } else if text::str_eq(identifier, "fabric") {
            Ok(ModLoader::Fabric)
        } else if text::str_eq(identifier, "forge") {
            Ok(ModLoader::Forge)
        } else if text::str_eq(identifier, "neoforge") {
            Ok(ModLoader::NeoForge)
        } else {
            Err(ModLoaderParseError)
        }
    }

    /// Reads a loader's name, whatever its case and the white space around it.
    pub fn from_str(from: &str) -> (loader: Result<ModLoader, ModLoaderParseError>)
        ensures
            loader == parsed_loader(from@),
    {
        let trimmed = text::trim(from);
        let lowered = text::to_lowercase(trimmed);
        ModLoader::from_identifier(lowered.as_str())
    }
}

impl FromStr for ModLoader {
    type Err = ModLoaderParseError;

    /// Reads a loader's name, whatever its case and the white space around it.
    fn from_str(from: &str) -> (loader: Result<Self, Self::Err>)
        ensures
            loader == parsed_loader(from@),
    {
        ModLoader::from_str(from)
    }
}

} // verus!

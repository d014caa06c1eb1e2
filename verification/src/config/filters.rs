use crate::iter_ext::{first_where, lemma_first_where_from};
use crate::text;
use super::structs::ModLoader;
use vstd::prelude::*;
use vstd::std_specs::cmp::PartialEqSpecImpl;

verus! {

/// The stability tier of a published file, most stable first.
#[derive(Clone, Copy, Debug, PartialEq, Eq, Structural)]
pub enum ReleaseChannel {
    Release,
    Beta,
    Alpha,
}

impl ReleaseChannel {
    /// Whether a file published on `channel` is acceptable when `self` is the
    /// least stable channel that is still wanted.
    pub open spec fn admits(self, channel: ReleaseChannel) -> bool {
        match self {
            ReleaseChannel::Alpha => true,
            ReleaseChannel::Beta => channel != ReleaseChannel::Alpha,
            ReleaseChannel::Release => channel == ReleaseChannel::Release,
        }
    }

    /// The channel's name.
    pub open spec fn label(self) -> Seq<char> {
        match self {
            ReleaseChannel::Release => "Release"@,
            ReleaseChannel::Beta => "Beta"@,
            ReleaseChannel::Alpha => "Alpha"@,
        }
    }

    /// The channel's name.
    pub fn to_string(&self) -> (name: String)
        ensures
            name@ == self.label(),
    {
        match self {
            ReleaseChannel::Release => "Release".to_owned(),
            ReleaseChannel::Beta => "Beta".to_owned(),
            ReleaseChannel::Alpha => "Alpha".to_owned(),
        }
    }

    /// Tests `channel` against the threshold `self`.
    pub fn accepts(self, channel: ReleaseChannel) -> (accepted: bool)
        ensures
            accepted == self.admits(channel),
    {
        match self {
            ReleaseChannel::Alpha => true,
            ReleaseChannel::Beta => channel == ReleaseChannel::Beta || channel
                == ReleaseChannel::Release,
            ReleaseChannel::Release => channel == ReleaseChannel::Release,
        }
    }
}

/// A constraint that a downloadable file has to meet.
#[derive(Debug)]
pub enum Filter {
    /// Prefers files in the order of the given loaders
    ModLoaderPrefer(Vec<ModLoader>),
    /// Selects files that are compatible with any of the given loaders
    ModLoaderAny(Vec<ModLoader>),
    /// Selects files strictly compatible with the versions specified
    GameVersionStrict(Vec<String>),
    /// Selects files compatible with the versions specified and related versions that are
    /// considered to not have breaking changes
    GameVersionMinor(Vec<String>),
    /// Selects files matching the channel provided or more stable channels
    ReleaseChannel(ReleaseChannel),
    /// Selects the files matching the provided regex
    Filename(String),
}

/// What a [`Filter`] says, with its lists as sequences and its strings as
/// sequences of characters.
pub enum FilterView {
    ModLoaderPrefer(Seq<ModLoader>),
    ModLoaderAny(Seq<ModLoader>),
    GameVersionStrict(Seq<Seq<char>>),
    GameVersionMinor(Seq<Seq<char>>),
    ReleaseChannel(ReleaseChannel),
    Filename(Seq<char>),
}

impl FilterView {
    /// The name that a filter of this kind is reported under.
    pub open spec fn name(self) -> Seq<char> {
        match self {
            FilterView::ModLoaderPrefer(_) => "LoaderPrefer"@,
            FilterView::ModLoaderAny(_) => "LoaderAny"@,
            FilterView::GameVersionStrict(_) => "GameVersionStrict"@,
            FilterView::GameVersionMinor(_) => "GameVersionMinor"@,
            FilterView::ReleaseChannel(_) => "ReleaseChannel"@,
            FilterView::Filename(_) => "Filename"@,
        }
    }

    /// What a filter is shown as: what it is for, then what it holds, the
    /// items of a list parted by a comma and a blank.
    pub open spec fn shown(self) -> Seq<char> {
        match self {
            FilterView::ModLoaderPrefer(loaders) => "Mod Loader (Prefer): "@ + text::joined(
                loaders.map_values(|loader: ModLoader| loader.label()),
                ", "@,
            ),
            FilterView::ModLoaderAny(loaders) => "Mod Loader (Either): "@ + text::joined(
                loaders.map_values(|loader: ModLoader| loader.label()),
                ", "@,
            ),
            FilterView::GameVersionStrict(versions) => "Game Version: "@ + text::joined(
                versions,
                ", "@,
            ),
            FilterView::GameVersionMinor(versions) => "Game Version (Minor): "@ + text::joined(
                versions,
                ", "@,
            ),
            FilterView::ReleaseChannel(channel) => "Release Channel: "@ + channel.label(),
            FilterView::Filename(pattern) => "Filename: "@ + pattern,
        }
    }

    /// Whether two filters are of the same kind, whatever they hold.
    pub open spec fn same_kind(self, other: FilterView) -> bool {
        match (self, other) {
            (FilterView::ModLoaderPrefer(_), FilterView::ModLoaderPrefer(_)) => true,
            (FilterView::ModLoaderAny(_), FilterView::ModLoaderAny(_)) => true,
            (FilterView::GameVersionStrict(_), FilterView::GameVersionStrict(_)) => true,
            (FilterView::GameVersionMinor(_), FilterView::GameVersionMinor(_)) => true,
            (FilterView::ReleaseChannel(_), FilterView::ReleaseChannel(_)) => true,
            (FilterView::Filename(_), FilterView::Filename(_)) => true,
            _ => false,
        }
    }
}

impl DeepView for Filter {
    type V = FilterView;

    open spec fn deep_view(&self) -> FilterView {
        match self {
            Filter::ModLoaderPrefer(loaders) => FilterView::ModLoaderPrefer(loaders@),
            Filter::ModLoaderAny(loaders) => FilterView::ModLoaderAny(loaders@),
            Filter::GameVersionStrict(versions) => FilterView::GameVersionStrict(
                versions.deep_view(),
            ),
            Filter::GameVersionMinor(versions) => FilterView::GameVersionMinor(
                versions.deep_view(),
            ),
            Filter::ReleaseChannel(channel) => FilterView::ReleaseChannel(*channel),
            Filter::Filename(pattern) => FilterView::Filename(pattern@),
        }
    }
}

impl View for Filter {
    type V = FilterView;

    open spec fn view(&self) -> FilterView {
        self.deep_view()
    }
}

/// The names of `loaders`, in their order.
fn loader_names(loaders: &Vec<ModLoader>) -> (names: Vec<String>)
    ensures
        names.deep_view() == loaders@.map_values(|loader: ModLoader| loader.label()),
{
    let mut names: Vec<String> = Vec::new();
    let mut i: usize = 0;
    while i < loaders.len()
        invariant
            i <= loaders.len(),
            names.deep_view() =~= loaders@.take(i as int).map_values(
                |loader: ModLoader| loader.label(),
            ),
        decreases loaders.len() - i,
    {
        let ghost before = names.deep_view();
        let name = loaders[i].to_string();
        names.push(name);
        assert(names.deep_view() =~= before.push(name@));
        i += 1;
    }
    names
}

impl Filter {
    /// What the filter is shown as to a user.
    pub fn to_string(&self) -> (text: String)
        ensures
            text@ == self@.shown(),
    {
        match self {
            Filter::ModLoaderPrefer(loaders) => {
                let mut text = "Mod Loader (Prefer): ".to_owned();
                text.append(text::join(&loader_names(loaders), ", ").as_str());
                text
            },
            Filter::ModLoaderAny(loaders) => {
                let mut text = "Mod Loader (Either): ".to_owned();
                text.append(text::join(&loader_names(loaders), ", ").as_str());
                text
            },
            Filter::GameVersionStrict(versions) => {
                let mut text = "Game Version: ".to_owned();
                text.append(text::join(versions, ", ").as_str());
                text
            },
            Filter::GameVersionMinor(versions) => {
                let mut text = "Game Version (Minor): ".to_owned();
                text.append(text::join(versions, ", ").as_str());
                text
            },
            Filter::ReleaseChannel(channel) => {
                let mut text = "Release Channel: ".to_owned();
                text.append(channel.to_string().as_str());
                text
            },
            Filter::Filename(pattern) => {
                let mut text = "Filename: ".to_owned();
                text.append(pattern.as_str());
                text
            },
        }
    }

    /// The name of the filter's kind, by which a failed resolution tells
    /// which filters stood in its way.
    pub fn name(&self) -> (name: String)
        ensures
            name@ == self@.name(),
    {
        match self {
            Filter::ModLoaderPrefer(_) => "LoaderPrefer".to_owned(),
            Filter::ModLoaderAny(_) => "LoaderAny".to_owned(),
            Filter::GameVersionStrict(_) => "GameVersionStrict".to_owned(),
            Filter::GameVersionMinor(_) => "GameVersionMinor".to_owned(),
            Filter::ReleaseChannel(_) => "ReleaseChannel".to_owned(),
            Filter::Filename(_) => "Filename".to_owned(),
        }
    }
}

impl Clone for Filter {
    fn clone(&self) -> (copy: Self)
        ensures
            copy@ == self@,
    {
        match self {
            Filter::ModLoaderPrefer(loaders) => {
                let copy = loaders.clone();
                Filter::ModLoaderPrefer(copy)
            },
            Filter::ModLoaderAny(loaders) => {
                let copy = loaders.clone();
                Filter::ModLoaderAny(copy)
            },
            Filter::GameVersionStrict(versions) => {
                let copy = versions.clone();
                Filter::GameVersionStrict(copy)
            },
            Filter::GameVersionMinor(versions) => {
                let copy = versions.clone();
                Filter::GameVersionMinor(copy)
            },
            Filter::ReleaseChannel(channel) => Filter::ReleaseChannel(*channel),
            Filter::Filename(pattern) => Filter::Filename(pattern.clone()),
        }
    }
}

/// Two filters are equal when they are of the same kind, whatever they hold:
/// equality tells whether a list has a filter of a kind already.
impl PartialEq for Filter {
    fn eq(&self, other: &Self) -> (same: bool) {
        match (self, other) {
            (Filter::ModLoaderPrefer(_), Filter::ModLoaderPrefer(_)) => true,
            (Filter::ModLoaderAny(_), Filter::ModLoaderAny(_)) => true,
            (Filter::GameVersionStrict(_), Filter::GameVersionStrict(_)) => true,
            (Filter::GameVersionMinor(_), Filter::GameVersionMinor(_)) => true,
            (Filter::ReleaseChannel(_), Filter::ReleaseChannel(_)) => true,
            (Filter::Filename(_), Filter::Filename(_)) => true,
            _ => false,
        }
    }
}

impl PartialEqSpecImpl for Filter {
    open spec fn obeys_eq_spec() -> bool {
        true
    }

    open spec fn eq_spec(&self, other: &Self) -> bool {
        self@.same_kind(other@)
    }
}

/// Being of the same kind is an equivalence: every filter is of its own
/// kind, and filters that are of the kind of a third are of one kind.
pub proof fn lemma_same_kind_is_an_equivalence(a: FilterView, b: FilterView, c: FilterView)
    ensures
        a.same_kind(a),
        a.same_kind(b) == b.same_kind(a),
        a.same_kind(b) && b.same_kind(c) ==> a.same_kind(c),
        a.same_kind(b) <==> a.name() == b.name(),
{
    reveal_strlit("LoaderPrefer");
    reveal_strlit("LoaderAny");
    reveal_strlit("GameVersionStrict");
    reveal_strlit("GameVersionMinor");
    reveal_strlit("ReleaseChannel");
    reveal_strlit("Filename");
    if a.name() == b.name() {
        assert(a.name().len() == b.name().len());
    }
}

/// The test whether a filter is one on game versions.
pub open spec fn is_version_filter() -> spec_fn(Filter) -> bool {
    |filter: Filter| filter is GameVersionStrict || filter is GameVersionMinor
}

/// The test whether a filter is one on mod loaders.
pub open spec fn is_loader_filter() -> spec_fn(Filter) -> bool {
    |filter: Filter| filter is ModLoaderPrefer || filter is ModLoaderAny
}

/// The place in `filters` of the first filter on game versions.
pub open spec fn first_version_filter(filters: Seq<Filter>) -> Option<int> {
    first_where(filters, is_version_filter())
}

/// The place in `filters` of the first filter on mod loaders.
pub open spec fn first_loader_filter(filters: Seq<Filter>) -> Option<int> {
    first_where(filters, is_loader_filter())
}

/// The game versions that a filter on game versions holds.
pub open spec fn versions_of(filter: Filter) -> Vec<String> {
    match filter {
        Filter::GameVersionStrict(versions) => versions,
        Filter::GameVersionMinor(versions) => versions,
        _ => arbitrary(),
    }
}

/// The loaders that a filter on mod loaders holds.
pub open spec fn loaders_of(filter: Filter) -> Vec<ModLoader> {
    match filter {
        Filter::ModLoaderPrefer(loaders) => loaders,
        Filter::ModLoaderAny(loaders) => loaders,
        _ => arbitrary(),
    }
}

/// `filter` with `versions` in place of the game versions that it holds.
pub open spec fn with_versions(filter: Filter, versions: Vec<String>) -> Filter {
    match filter {
        Filter::GameVersionStrict(_) => Filter::GameVersionStrict(versions),
        Filter::GameVersionMinor(_) => Filter::GameVersionMinor(versions),
        other => other,
    }
}

/// `filter` with `loaders` in place of the loaders that it holds.
pub open spec fn with_loaders(filter: Filter, loaders: Vec<ModLoader>) -> Filter {
    match filter {
        Filter::ModLoaderPrefer(_) => Filter::ModLoaderPrefer(loaders),
        Filter::ModLoaderAny(_) => Filter::ModLoaderAny(loaders),
        other => other,
    }
}

/// What a list of filters says of the game versions and the mod loader that
/// a profile is for.
pub trait ProfileParameters {
    /// The filters, in their order.
    spec fn filter_list(&self) -> Seq<Filter>;

    /// Get the game versions present, if self has `GameVersionStrict` or `GameVersionMinor`
    fn game_versions(&self) -> (versions: Option<&Vec<String>>)
        ensures
            match first_version_filter(self.filter_list()) {
                Some(i) => versions == Some(&versions_of(self.filter_list()[i])),
                None => versions is None,
            },
    ;

    /// Get the first mod loader present, if self has `ModLoaderPrefer` or
    /// `ModLoaderAny`. The first such filter names a loader.
    fn mod_loader(&self) -> (loader: Option<&ModLoader>)
        requires
            first_loader_filter(self.filter_list()) matches Some(i) ==> loaders_of(
                self.filter_list()[i],
            )@.len() > 0,
        ensures
            match first_loader_filter(self.filter_list()) {
                Some(i) => loader == Some(&loaders_of(self.filter_list()[i])@[0]),
                None => loader is None,
            },
    ;

    /// Get the game versions present, if self has `GameVersionStrict` or
    /// `GameVersionMinor`, to change them: what they are changed to is what
    /// the filter holds afterwards.
    fn game_versions_mut(&mut self) -> (versions: Option<&mut Vec<String>>)
        ensures
            match first_version_filter(old(self).filter_list()) {
                Some(i) => {
                    &&& versions matches Some(held)
                    &&& *held == versions_of(old(self).filter_list()[i])
                    &&& final(self).filter_list() == old(self).filter_list().update(
                        i,
                        with_versions(old(self).filter_list()[i], *final(held)),
                    )
                },
                None => versions is None && final(self).filter_list() == old(self).filter_list(),
            },
    ;

    /// Get the mod loaders present, if self has `ModLoaderPrefer` or
    /// `ModLoaderAny`, to change them: what they are changed to is what the
    /// filter holds afterwards.
    fn mod_loaders_mut(&mut self) -> (loaders: Option<&mut Vec<ModLoader>>)
        ensures
            match first_loader_filter(old(self).filter_list()) {
                Some(i) => {
                    &&& loaders matches Some(held)
                    &&& *held == loaders_of(old(self).filter_list()[i])
                    &&& final(self).filter_list() == old(self).filter_list().update(
                        i,
                        with_loaders(old(self).filter_list()[i], *final(held)),
                    )
                },
                None => loaders is None && final(self).filter_list() == old(self).filter_list(),
            },
    ;
}

impl ProfileParameters for Vec<Filter> {
    open spec fn filter_list(&self) -> Seq<Filter> {
        self@
    }

    fn game_versions(&self) -> (versions: Option<&Vec<String>>) {
        let mut i: usize = 0;
        while i < self.len()
            invariant
                i <= self.len(),
                forall|k: int| 0 <= k < i ==> !is_version_filter()(#[trigger] self@[k]),
            decreases self.len() - i,
        {
            match &self[i] {
                Filter::GameVersionStrict(v) => {
                    proof {
                        lemma_first_where_from(self@, is_version_filter(), i as int);
                    }
                    return Some(v);
                },
                Filter::GameVersionMinor(v) => {
                    proof {
                        lemma_first_where_from(self@, is_version_filter(), i as int);
                    }
                    return Some(v);
                },
                _ => {},
            }
            i += 1;
        }
        proof {
            lemma_first_where_from(self@, is_version_filter(), self.len() as int);
        }
        None
    }

    #[verifier::loop_isolation(false)]
    fn mod_loader(&self) -> (loader: Option<&ModLoader>) {
        let mut i: usize = 0;
        while i < self.len()
            invariant
                i <= self.len(),
                forall|k: int| 0 <= k < i ==> !is_loader_filter()(#[trigger] self@[k]),
            decreases self.len() - i,
        {
            match &self[i] {
                Filter::ModLoaderPrefer(v) => {
                    proof {
                        lemma_first_where_from(self@, is_loader_filter(), i as int);
                    }
                    return Some(&v[0]);
                },
                Filter::ModLoaderAny(v) => {
                    proof {
                        lemma_first_where_from(self@, is_loader_filter(), i as int);
                    }
                    return Some(&v[0]);
                },
                _ => {},
            }
            i += 1;
        }
        proof {
            lemma_first_where_from(self@, is_loader_filter(), self.len() as int);
        }
        None
    }

    fn game_versions_mut(&mut self) -> (versions: Option<&mut Vec<String>>) {
        let mut i: usize = 0;
        while i < self.len()
            invariant
                i <= self.len(),
                *self == *old(self),
                forall|k: int| 0 <= k < i ==> !is_version_filter()(#[trigger] self@[k]),
            ensures
                i < self.len() ==> self@[i as int] is GameVersionStrict
                    || self@[i as int] is GameVersionMinor,
            decreases self.len() - i,
        {
            let found = match &self[i] {
                Filter::GameVersionStrict(_) => true,
                Filter::GameVersionMinor(_) => true,
                _ => false,
            };
            if found {
                break ;
            }
            i += 1;
        }
        proof {
            lemma_first_where_from(self@, is_version_filter(), i as int);
            if i < self.len() {
                assert(self@.skip(i as int)[0] == self@[i as int]);
            }
        }
        if i == self.len() {
            return None;
        }
        match &mut self[i] {
            Filter::GameVersionStrict(v) => Some(v),
            Filter::GameVersionMinor(v) => Some(v),
            _ => None,
        }
    }

    fn mod_loaders_mut(&mut self) -> (loaders: Option<&mut Vec<ModLoader>>) {
        let mut i: usize = 0;
        while i < self.len()
            invariant
                i <= self.len(),
                *self == *old(self),
                forall|k: int| 0 <= k < i ==> !is_loader_filter()(#[trigger] self@[k]),
            ensures
                i < self.len() ==> self@[i as int] is ModLoaderPrefer
                    || self@[i as int] is ModLoaderAny,
            decreases self.len() - i,
        {
            let found = match &self[i] {
                Filter::ModLoaderPrefer(_) => true,
                Filter::ModLoaderAny(_) => true,
                _ => false,
            };
            if found {
                break ;
            }
            i += 1;
        }
        proof {
            lemma_first_where_from(self@, is_loader_filter(), i as int);
        }
        if i == self.len() {
            return None;
        }
        match &mut self[i] {
            Filter::ModLoaderPrefer(v) => Some(v),
            Filter::ModLoaderAny(v) => Some(v),
            _ => None,
        }
    }
}

} // verus!

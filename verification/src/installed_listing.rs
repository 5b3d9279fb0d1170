//! Bound installed-plugin listing to the identities the caller can return.
//! Full catalog listing keeps its existing behavior.
//!
//! Only the plugins a listing selects are hydrated from their manifests, so
//! the installed listing looks at installed plugins and explicit suggestions
//! alone instead of the whole catalog.
use vstd::prelude::*;
use std::collections::HashSet;
use crate::text::str_eq;

verus! {

/// Whether a set of names holds `name` (`HashSet::contains`).
///
/// Trusted: std documents that `contains` is true exactly when the set holds a
/// value equal to the one asked for; two strings are equal when they hold the
/// same characters.
#[verifier::external_body]
fn names_contain(names: &HashSet<String>, name: &str) -> (r: bool)
    ensures
        r == (exists|s: String| names@.contains(s) && s@ == name@),
{
    names.contains(name)
}

/// Which catalog entries a listing hydrates.
#[derive(Clone, Copy)]
pub enum MarketplaceListing<'a> {
    All,
    InstalledAndSuggested { suggested_names: &'a HashSet<String> },
}

/// A marketplace as its catalog lists it: the names of its plugins.
pub struct MarketplaceCatalog {
    pub name: String,
    pub plugins: Vec<String>,
}

/// The marketplaces visible in one context, in precedence order.
pub struct PluginMarketplaceContext {
    pub marketplaces: Vec<MarketplaceCatalog>,
}

/// An installed plugin: its marketplace and its name.
pub struct InstalledPlugin {
    pub marketplace: String,
    pub name: String,
}

/// The plugin state the listing consults.
pub struct PluginsManager {
    pub installed: Vec<InstalledPlugin>,
}

#[derive(Debug, PartialEq, Eq)]
pub struct ConfiguredPlugin {
    pub name: String,
    pub installed: bool,
}

#[derive(Debug, PartialEq, Eq)]
pub struct ConfiguredMarketplace {
    pub name: String,
    pub plugins: Vec<ConfiguredPlugin>,
}

#[derive(Debug, PartialEq, Eq)]
pub struct ConfiguredMarketplaceListOutcome {
    pub marketplaces: Vec<ConfiguredMarketplace>,
}

#[derive(Debug, PartialEq, Eq)]
pub struct MarketplaceError {
    pub message: String,
}

// ---------------------------------------------------------------------------
// Specifications
// ---------------------------------------------------------------------------
pub open spec fn is_installed(installed: Seq<InstalledPlugin>, marketplace: Seq<char>, name: Seq<
    char,
>) -> bool {
    exists|i: int|
        0 <= i < installed.len() && #[trigger] installed[i].marketplace@ == marketplace
            && installed[i].name@ == name
}

/// A listing selects every plugin, or only installed and suggested ones.
pub open spec fn selects(listing: MarketplaceListing, installed: bool, name: Seq<char>) -> bool {
    match listing {
        MarketplaceListing::All => true,
        MarketplaceListing::InstalledAndSuggested { suggested_names } => installed || exists|
            s: String,
        | suggested_names@.contains(s) && s@ == name,
    }
}

/// The plugins of one marketplace a listing selects, in catalog order, each
/// with its installed state.
pub open spec fn selected_plugins(
    plugins: Seq<String>,
    marketplace: Seq<char>,
    installed: Seq<InstalledPlugin>,
    listing: MarketplaceListing,
) -> Seq<(Seq<char>, bool)>
    decreases plugins.len(),
{
    if plugins.len() == 0 {
        Seq::empty()
    } else {
        let rest = selected_plugins(plugins.drop_last(), marketplace, installed, listing);
        let name = plugins.last()@;
        let inst = is_installed(installed, marketplace, name);
        if selects(listing, inst, name) {
            rest.push((name, inst))
        } else {
            rest
        }
    }
}

pub open spec fn plugin_view(p: ConfiguredPlugin) -> (Seq<char>, bool) {
    (p.name@, p.installed)
}

/// The name of the curated marketplace that a listing may leave out.
pub open spec fn curated_marketplace_name() -> Seq<char> {
    "openai-curated"@
}

pub open spec fn marketplace_view(o: ConfiguredMarketplace) -> (Seq<char>, Seq<(Seq<char>, bool)>) {
    (o.name@, o.plugins@.map_values(|p: ConfiguredPlugin| plugin_view(p)))
}

/// The marketplaces listed, in order: each one of `marketplaces` (the curated
/// one only when `include_curated`) with the plugins `listing` selects.
pub open spec fn listed_marketplaces(
    marketplaces: Seq<MarketplaceCatalog>,
    installed: Seq<InstalledPlugin>,
    include_curated: bool,
    listing: MarketplaceListing,
) -> Seq<(Seq<char>, Seq<(Seq<char>, bool)>)>
    decreases marketplaces.len(),
{
    if marketplaces.len() == 0 {
        Seq::empty()
    } else {
        let rest = listed_marketplaces(marketplaces.drop_last(), installed, include_curated, listing);
        let m = marketplaces.last();
        if include_curated || m.name@ != curated_marketplace_name() {
            rest.push((m.name@, selected_plugins(m.plugins@, m.name@, installed, listing)))
        } else {
            rest
        }
    }
}

/// `out` lists the marketplaces of `context` with the plugins `listing` selects.
pub open spec fn listed(
    context: PluginMarketplaceContext,
    installed: Seq<InstalledPlugin>,
    include_curated: bool,
    listing: MarketplaceListing,
    out: ConfiguredMarketplaceListOutcome,
) -> bool {
    out.marketplaces@.map_values(|o: ConfiguredMarketplace| marketplace_view(o))
        == listed_marketplaces(context.marketplaces@, installed, include_curated, listing)
}

// ---------------------------------------------------------------------------
// Executable functions
// ---------------------------------------------------------------------------
impl PluginsManager {
    fn is_installed(&self, marketplace: &str, name: &str) -> (r: bool)
        ensures
            r == is_installed(self.installed@, marketplace@, name@),
    {
        let n = self.installed.len();
        let mut i: usize = 0;
        while i < n
            invariant
                i <= n == self.installed@.len(),
                forall|j: int|
                    0 <= j < i ==> !(#[trigger] self.installed@[j].marketplace@ == marketplace@
                        && self.installed@[j].name@ == name@),
            decreases n - i,
        {
            if str_eq(self.installed[i].marketplace.as_str(), marketplace) && str_eq(
                self.installed[i].name.as_str(),
                name,
            ) {
                return true;
            }
            i = i + 1;
        }
        false
    }

    /// List installed plugins and explicit suggestions without hydrating
    /// unrelated catalog entries.
    pub fn list_installed_and_suggested_plugins_for_context(
        &self,
        context: &PluginMarketplaceContext,
        suggested_names: &HashSet<String>,
    ) -> (r: Result<ConfiguredMarketplaceListOutcome, MarketplaceError>)
        ensures
            r is Ok && listed(
                *context,
                self.installed@,
                true,
                MarketplaceListing::InstalledAndSuggested { suggested_names },
                r->Ok_0,
            ),
    {
        context.list_marketplaces_selected(
            self,
            true,
            MarketplaceListing::InstalledAndSuggested { suggested_names },
        )
    }
}

fn listing_selects(listing: MarketplaceListing, installed: bool, name: &str) -> (r: bool)
    ensures
        r == selects(listing, installed, name@),
{
    match listing {
        MarketplaceListing::All => true,
        MarketplaceListing::InstalledAndSuggested { suggested_names } => installed
            || names_contain(suggested_names, name),
    }
}

impl PluginMarketplaceContext {
    /// Lists every marketplace (the curated one only when
    /// `include_openai_curated`) with the plugins `listing` selects.
    ///
    /// This is a model of the catalog listing: it walks the catalog entries
    /// held in this context in order, leaves out the marketplace named
    /// `openai-curated` unless asked to include it, marks each plugin with
    /// its installed state, and never fails. It models no policy
    /// restrictions and no precedence between marketplace scopes.
    pub fn list_marketplaces_selected(
        &self,
        manager: &PluginsManager,
        include_openai_curated: bool,
        listing: MarketplaceListing,
    ) -> (r: Result<ConfiguredMarketplaceListOutcome, MarketplaceError>)
        ensures
            r is Ok && listed(*self, manager.installed@, include_openai_curated, listing, r->Ok_0),
    {
        proof {
            reveal_strlit("openai-curated");
        }
        let mut marketplaces: Vec<ConfiguredMarketplace> = Vec::new();
        let n = self.marketplaces.len();
        let mut i: usize = 0;
        while i < n
            invariant
                i <= n == self.marketplaces@.len(),
                marketplaces@.map_values(|o: ConfiguredMarketplace| marketplace_view(o))
                    == listed_marketplaces(
                    self.marketplaces@.take(i as int),
                    manager.installed@,
                    include_openai_curated,
                    listing,
                ),
            decreases n - i,
        {
            let catalog = &self.marketplaces[i];
            let ghost before = marketplaces@.map_values(
                |o: ConfiguredMarketplace| marketplace_view(o),
            );
            assert(self.marketplaces@.take(i + 1).drop_last() =~= self.marketplaces@.take(i as int));
            assert(self.marketplaces@.take(i + 1).last() == *catalog);
            if include_openai_curated || !str_eq(catalog.name.as_str(), "openai-curated") {
                let mut plugins: Vec<ConfiguredPlugin> = Vec::new();
                let pn = catalog.plugins.len();
                let mut j: usize = 0;
                while j < pn
                    invariant
                        j <= pn == catalog.plugins@.len(),
                        plugins@.map_values(|p: ConfiguredPlugin| plugin_view(p))
                            == selected_plugins(
                            catalog.plugins@.take(j as int),
                            catalog.name@,
                            manager.installed@,
                            listing,
                        ),
                    decreases pn - j,
                {
                    let name = catalog.plugins[j].as_str();
                    let inst = manager.is_installed(catalog.name.as_str(), name);
                    let ghost before_p = plugins@.map_values(|p: ConfiguredPlugin| plugin_view(p));
                    assert(catalog.plugins@.take(j + 1).drop_last() =~= catalog.plugins@.take(
                        j as int,
                    ));
                    if listing_selects(listing, inst, name) {
                        let p = ConfiguredPlugin { name: catalog.plugins[j].clone(), installed: inst };
                        plugins.push(p);
                        assert(plugins@.map_values(|p: ConfiguredPlugin| plugin_view(p))
                            =~= before_p.push((name@, inst)));
                    }
                    j = j + 1;
                }
                assert(catalog.plugins@.take(pn as int) =~= catalog.plugins@);
                let m = ConfiguredMarketplace { name: catalog.name.clone(), plugins };
                marketplaces.push(m);
                assert(marketplaces@.map_values(|o: ConfiguredMarketplace| marketplace_view(o))
                    =~= before.push(marketplace_view(m)));
            }
            i = i + 1;
        }
        assert(self.marketplaces@.take(n as int) =~= self.marketplaces@);
        Ok(ConfiguredMarketplaceListOutcome { marketplaces })
    }
}

/// The installed listing is the full listing with only installed and
/// suggested plugins kept: every plugin it lists the full listing lists too,
/// in the same order, and it leaves out exactly the plugins that are neither.
pub proof fn lemma_installed_listing_filters_full_listing(
    plugins: Seq<String>,
    marketplace: Seq<char>,
    installed: Seq<InstalledPlugin>,
    suggested_names: &HashSet<String>,
)
    ensures
        selected_plugins(plugins, marketplace, installed, MarketplaceListing::All)
            == plugins.map_values(|p: String| (p@, is_installed(installed, marketplace, p@))),
        selected_plugins(
            plugins,
            marketplace,
            installed,
            MarketplaceListing::InstalledAndSuggested { suggested_names },
        ) == selected_plugins(plugins, marketplace, installed, MarketplaceListing::All).filter(
            |e: (Seq<char>, bool)| e.1 || exists|s: String| suggested_names@.contains(s) && s@ == e.0,
        ),
    decreases plugins.len(),
{
    reveal_with_fuel(Seq::<(Seq<char>, bool)>::filter, 1);
    if plugins.len() > 0 {
        lemma_installed_listing_filters_full_listing(
            plugins.drop_last(),
            marketplace,
            installed,
            suggested_names,
        );
        assert(plugins.map_values(|p: String| (p@, is_installed(installed, marketplace, p@)))
            =~= plugins.drop_last().map_values(
            |p: String| (p@, is_installed(installed, marketplace, p@)),
        ).push((plugins.last()@, is_installed(installed, marketplace, plugins.last()@))));
        let full = selected_plugins(plugins, marketplace, installed, MarketplaceListing::All);
        assert(full.drop_last() =~= selected_plugins(
            plugins.drop_last(),
            marketplace,
            installed,
            MarketplaceListing::All,
        ));
    }
}

/// A plugin counts as installed whenever some installed entry, wherever it
/// stands among the installed entries, names its marketplace and its name:
/// the full listing marks each plugin installed exactly then, and the
/// installed listing lists every such plugin, marked installed.
pub proof fn lemma_every_installed_plugin_is_listed(
    plugins: Seq<String>,
    marketplace: Seq<char>,
    installed: Seq<InstalledPlugin>,
    suggested_names: &HashSet<String>,
    j: int,
)
    requires
        0 <= j < plugins.len(),
    ensures
        selected_plugins(plugins, marketplace, installed, MarketplaceListing::All)[j] == (
            plugins[j]@,
            exists|i: int|
                0 <= i < installed.len() && (#[trigger] installed[i]).marketplace@ == marketplace
                    && installed[i].name@ == plugins[j]@,
        ),
        (exists|i: int|
            0 <= i < installed.len() && (#[trigger] installed[i]).marketplace@ == marketplace
                && installed[i].name@ == plugins[j]@) ==> selected_plugins(
            plugins,
            marketplace,
            installed,
            MarketplaceListing::InstalledAndSuggested { suggested_names },
        ).contains((plugins[j]@, true)),
{
    lemma_installed_listing_filters_full_listing(plugins, marketplace, installed, suggested_names);
    let full = selected_plugins(plugins, marketplace, installed, MarketplaceListing::All);
    let found = exists|i: int|
        0 <= i < installed.len() && (#[trigger] installed[i]).marketplace@ == marketplace
            && installed[i].name@ == plugins[j]@;
    if found {
        let i = choose|i: int|
            0 <= i < installed.len() && (#[trigger] installed[i]).marketplace@ == marketplace
                && installed[i].name@ == plugins[j]@;
        assert(is_installed(installed, marketplace, plugins[j]@));
    }
    if is_installed(installed, marketplace, plugins[j]@) {
        let i = choose|i: int|
            0 <= i < installed.len() && #[trigger] installed[i].marketplace@ == marketplace
                && installed[i].name@ == plugins[j]@;
        assert(installed[i].marketplace@ == marketplace);
    }
    assert(full[j] == (plugins[j]@, found));
    let pred = |e: (Seq<char>, bool)|
        e.1 || exists|s: String| suggested_names@.contains(s) && s@ == e.0;
    full.filter_lemma(pred);
    if found {
        assert(pred(full[j]));
    }
}

} // verus!

use std::collections::HashSet;
use wsl_interop::installed_listing::{
    ConfiguredMarketplace, ConfiguredPlugin, InstalledPlugin, MarketplaceCatalog,
    MarketplaceListing, PluginMarketplaceContext, PluginsManager,
};

fn context() -> PluginMarketplaceContext {
    PluginMarketplaceContext {
        marketplaces: vec![
            MarketplaceCatalog {
                name: "openai-curated".to_string(),
                plugins: vec!["alpha".to_string(), "beta".to_string(), "gamma".to_string()],
            },
            MarketplaceCatalog {
                name: "local".to_string(),
                plugins: vec!["alpha".to_string(), "delta".to_string()],
            },
        ],
    }
}

fn manager() -> PluginsManager {
    PluginsManager {
        installed: vec![InstalledPlugin {
            marketplace: "local".to_string(),
            name: "alpha".to_string(),
        }],
    }
}

fn plugin(name: &str, installed: bool) -> ConfiguredPlugin {
    ConfiguredPlugin {
        name: name.to_string(),
        installed,
    }
}

#[test]
fn installed_listing_keeps_installed_and_suggested_plugins_only() {
    let suggested: HashSet<String> = ["gamma".to_string()].into_iter().collect();
    let outcome = manager()
        .list_installed_and_suggested_plugins_for_context(&context(), &suggested)
        .unwrap();
    assert_eq!(
        outcome.marketplaces,
        vec![
            ConfiguredMarketplace {
                name: "openai-curated".to_string(),
                plugins: vec![plugin("gamma", false)],
            },
            ConfiguredMarketplace {
                name: "local".to_string(),
                plugins: vec![plugin("alpha", true)],
            },
        ]
    );
}

#[test]
fn full_listing_keeps_every_plugin() {
    let outcome = context()
        .list_marketplaces_selected(&manager(), true, MarketplaceListing::All)
        .unwrap();
    assert_eq!(
        outcome.marketplaces[0].plugins,
        vec![plugin("alpha", false), plugin("beta", false), plugin("gamma", false)]
    );
    assert_eq!(
        outcome.marketplaces[1].plugins,
        vec![plugin("alpha", true), plugin("delta", false)]
    );
}

#[test]
fn installed_listing_is_the_filtered_full_listing() {
    let suggested: HashSet<String> = ["beta".to_string(), "delta".to_string()].into_iter().collect();
    let full = context()
        .list_marketplaces_selected(&manager(), true, MarketplaceListing::All)
        .unwrap();
    let narrow = manager()
        .list_installed_and_suggested_plugins_for_context(&context(), &suggested)
        .unwrap();
    for (f, n) in full.marketplaces.iter().zip(narrow.marketplaces.iter()) {
        let kept: Vec<&ConfiguredPlugin> = f
            .plugins
            .iter()
            .filter(|p| p.installed || suggested.contains(&p.name))
            .collect();
        assert_eq!(kept, n.plugins.iter().collect::<Vec<_>>());
    }
}

#[test]
fn curated_marketplace_can_be_left_out() {
    let outcome = context()
        .list_marketplaces_selected(&manager(), false, MarketplaceListing::All)
        .unwrap();
    assert_eq!(
        outcome.marketplaces,
        vec![ConfiguredMarketplace {
            name: "local".to_string(),
            plugins: vec![plugin("alpha", true), plugin("delta", false)],
        }]
    );
}

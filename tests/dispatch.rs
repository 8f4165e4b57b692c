use scout_audit::blockchain::{BlockChain, PackageInfo, ProjectMetadata};
use scout_audit::build_config::{INK_TOOLCHAIN, SOROBAN_TOOLCHAIN};

fn project(members: &[&str], packages: &[(&str, &[&str])]) -> ProjectMetadata {
    ProjectMetadata {
        workspace_members: members.iter().map(|s| s.to_string()).collect(),
        packages: packages
            .iter()
            .map(|(id, deps)| PackageInfo {
                id: id.to_string(),
                dependencies: deps.iter().map(|d| d.to_string()).collect(),
            })
            .collect(),
    }
}

#[test]
fn variants_are_display_names() {
    assert_eq!(BlockChain::variants(), vec!["Ink", "Soroban", "SubstratePallet"]);
}

#[test]
fn toolchains_per_ecosystem() {
    assert_eq!(BlockChain::Ink.get_toolchain(), INK_TOOLCHAIN);
    assert_eq!(BlockChain::Soroban.get_toolchain(), SOROBAN_TOOLCHAIN);
    assert_eq!(BlockChain::SubstratePallet.get_toolchain(), "nightly-2023-12-16");
    assert_eq!(BlockChain::Soroban.get_toolchain(), "nightly-2024-07-11");
}

#[test]
fn detectors_urls() {
    assert_eq!(BlockChain::Ink.get_detectors_url(), "https://github.com/CoinFabrik/scout");
    assert_eq!(BlockChain::Soroban.get_detectors_url(), "https://github.com/CoinFabrik/scout-soroban");
    assert_eq!(
        BlockChain::SubstratePallet.get_detectors_url(),
        "https://github.com/CoinFabrik/scout-substrate"
    );
}

#[test]
fn soroban_dependency_selects_soroban() {
    let p = project(&["a"], &[("a", &["soroban-sdk", "serde"])]);
    assert_eq!(BlockChain::get_blockchain_dependency(&p).unwrap(), BlockChain::Soroban);
}

#[test]
fn first_match_wins_over_later_markers() {
    let p = project(&["a"], &[("a", &["ink", "frame-system", "soroban-sdk"])]);
    assert_eq!(BlockChain::get_blockchain_dependency(&p).unwrap(), BlockChain::Soroban);
    let q = project(&["a"], &[("a", &["frame-system", "ink"])]);
    assert_eq!(BlockChain::get_blockchain_dependency(&q).unwrap(), BlockChain::Ink);
    let r = project(&["a"], &[("a", &["frame-system"])]);
    assert_eq!(BlockChain::get_blockchain_dependency(&r).unwrap(), BlockChain::SubstratePallet);
}

#[test]
fn dependencies_of_non_members_are_ignored() {
    let p = project(&["a"], &[("a", &["serde"]), ("b", &["ink"])]);
    let err = BlockChain::get_blockchain_dependency(&p).unwrap_err();
    assert_eq!(err.supported, vec!["Ink", "Soroban", "SubstratePallet"]);
}

#[test]
fn immediate_dependencies_of_all_members() {
    let p = project(&["a", "b"], &[("a", &["x"]), ("b", &["y", "z"]), ("c", &["w"])]);
    let mut deps = BlockChain::get_immediate_dependencies(&p);
    deps.sort();
    assert_eq!(deps, vec!["x", "y", "z"]);
}

#[test]
fn dispatch_twice_gives_same_requirement() {
    let p = project(&["a"], &[("a", &["ink"])]);
    let first = BlockChain::get_blockchain_dependency(&p).unwrap();
    let second = BlockChain::get_blockchain_dependency(&p.clone()).unwrap();
    assert_eq!(first, second);
    assert_eq!(first.get_toolchain(), second.get_toolchain());
}

#[test]
fn unsupported_message_lists_ecosystems() {
    let p = project(&["a"], &[("a", &["serde"])]);
    let err = BlockChain::get_blockchain_dependency(&p).unwrap_err();
    assert_eq!(
        err.message(),
        "Could not find any supported blockchain dependency in the Cargo.toml file.\n   Supported blockchains include:\n   - Ink\n   - Soroban\n   - SubstratePallet\n"
    );
}

#[test]
fn only_first_package_with_member_id_counts() {
    let p = project(&["x"], &[("x", &[]), ("x", &["ink"])]);
    assert!(BlockChain::get_immediate_dependencies(&p).is_empty());
    assert!(BlockChain::get_blockchain_dependency(&p).is_err());
}

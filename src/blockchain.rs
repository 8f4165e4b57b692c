//! Which ecosystem a project targets, and the toolchain that goes with it.
use vstd::prelude::*;

use crate::build_config::{INK_TOOLCHAIN, SOROBAN_TOOLCHAIN};
use crate::text::{same_text, texts, vec_has_text};

verus! {

/// A smart-contract ecosystem that the auditor supports.
#[derive(Debug, Copy, Clone, PartialEq, Eq, Structural)]
pub enum BlockChain {
    Ink,
    Soroban,
    SubstratePallet,
}

/// A package of the project, with the names of its declared dependencies.
#[derive(Debug, Clone)]
pub struct PackageInfo {
    pub id: String,
    pub dependencies: Vec<String>,
}

/// What dispatch reads of a project: its workspace members (package ids)
/// and its packages.
#[derive(Debug, Clone)]
pub struct ProjectMetadata {
    pub workspace_members: Vec<String>,
    pub packages: Vec<PackageInfo>,
}

/// Dispatch found none of the ecosystem markers among the dependencies.
#[derive(Debug, Clone)]
pub struct UnsupportedBlockchain {
    /// The names of the supported ecosystems.
    pub supported: Vec<String>,
}

/// Each name on a line of its own, as a list item.
pub open spec fn listed(names: Seq<Seq<char>>) -> Seq<char>
    decreases names.len(),
{
    if names.len() == 0 {
        Seq::empty()
    } else {
        listed(names.drop_last()) + "\n   - "@ + names.last()
    }
}

pub open spec fn unsupported_message(names: Seq<Seq<char>>) -> Seq<char> {
    "Could not find any supported blockchain dependency in the Cargo.toml file.\n   Supported blockchains include:"@
        + listed(names) + "\n"@
}

impl UnsupportedBlockchain {
    /// The message shown to the user, listing the supported ecosystems.
    pub fn message(&self) -> (r: String)
        ensures
            r@ == unsupported_message(texts(self.supported@)),
    {
        let mut r = String::from_str(
            "Could not find any supported blockchain dependency in the Cargo.toml file.\n   Supported blockchains include:",
        );
        let ghost head = r@;
        let mut i: usize = 0;
        while i < self.supported.len()
            invariant
                i <= self.supported.len(),
                r@ == head + listed(texts(self.supported@).take(i as int)),
            decreases self.supported.len() - i,
        {
            assert(texts(self.supported@).take(i + 1).drop_last() =~= texts(self.supported@).take(i as int));
            r.append("\n   - ");
            r.append(self.supported[i].as_str());
            assert(r@ =~= head + listed(texts(self.supported@).take(i + 1)));
            i = i + 1;
        }
        assert(texts(self.supported@).take(i as int) =~= texts(self.supported@));
        r.append("\n");
        r
    }
}

/// The display names of the ecosystems, in declaration order.
pub open spec fn variant_names() -> Seq<Seq<char>> {
    seq!["Ink"@, "Soroban"@, "SubstratePallet"@]
}

pub open spec fn toolchain_of(b: BlockChain) -> Seq<char> {
    match b {
        BlockChain::Ink => INK_TOOLCHAIN@,
        BlockChain::Soroban => SOROBAN_TOOLCHAIN@,
        BlockChain::SubstratePallet => INK_TOOLCHAIN@,
    }
}

pub open spec fn detectors_url_of(b: BlockChain) -> Seq<char> {
    match b {
        BlockChain::Ink => "https://github.com/CoinFabrik/scout"@,
        BlockChain::Soroban => "https://github.com/CoinFabrik/scout-soroban"@,
        BlockChain::SubstratePallet => "https://github.com/CoinFabrik/scout-substrate"@,
    }
}

/// `name` is declared as a dependency by a package that is a workspace member.
pub open spec fn is_immediate_dependency(m: ProjectMetadata, name: Seq<char>) -> bool {
    exists|a: int, j: int| #[trigger] declared_by(m, a, j, name)
}

/// No package before `a` has the id of package `a`.
pub open spec fn first_with_id(m: ProjectMetadata, a: int) -> bool {
    forall|b: int| 0 <= b < a ==> m.packages@[b].id@ != m.packages@[a].id@
}

/// Package `a` is the first package with the id of a workspace member.
pub open spec fn is_member_package(m: ProjectMetadata, a: int) -> bool {
    0 <= a < m.packages@.len() && texts(m.workspace_members@).contains(m.packages@[a].id@)
        && first_with_id(m, a)
}

/// Dependency `j` of package `a` is `name`, and package `a` is the package
/// of a workspace member.
pub open spec fn declared_by(m: ProjectMetadata, a: int, j: int, name: Seq<char>) -> bool {
    is_member_package(m, a) && 0 <= j < m.packages@[a].dependencies@.len()
        && m.packages@[a].dependencies@[j]@ == name
}

/// Whether no package before `a` has the id of package `a`.
fn first_with_id_exec(m: &ProjectMetadata, a: usize) -> (r: bool)
    requires
        a < m.packages@.len(),
    ensures
        r == first_with_id(*m, a as int),
{
    let mut b: usize = 0;
    while b < a
        invariant
            a < m.packages@.len(),
            b <= a,
            forall|c: int| 0 <= c < b ==> m.packages@[c].id@ != m.packages@[a as int].id@,
        decreases a - b,
    {
        if same_text(m.packages[b].id.as_str(), m.packages[a].id.as_str()) {
            return false;
        }
        b = b + 1;
    }
    true
}

/// `name` is declared by a workspace member among the first `i` packages.
pub open spec fn declared_before(m: ProjectMetadata, i: int, name: Seq<char>) -> bool {
    exists|a: int, j: int| #[trigger] declared_by(m, a, j, name) && a < i
}

/// The ecosystem a project requires: first match over the ordered markers.
pub open spec fn required_blockchain(m: ProjectMetadata) -> Option<BlockChain> {
    if is_immediate_dependency(m, "soroban-sdk"@) {
        Some(BlockChain::Soroban)
    } else if is_immediate_dependency(m, "ink"@) {
        Some(BlockChain::Ink)
    } else if is_immediate_dependency(m, "frame-system"@) {
        Some(BlockChain::SubstratePallet)
    } else {
        None
    }
}

impl BlockChain {
    /// The display names of all ecosystems.
    pub fn variants() -> (r: Vec<String>)
        ensures
            texts(r@) == variant_names(),
    {
        let mut r: Vec<String> = Vec::new();
        r.push(String::from_str("Ink"));
        r.push(String::from_str("Soroban"));
        r.push(String::from_str("SubstratePallet"));
        assert(texts(r@) =~= variant_names());
        r
    }

    /// Where the detector set for this ecosystem is published.
    pub fn get_detectors_url(&self) -> (r: &'static str)
        ensures
            r@ == detectors_url_of(*self),
    {
        match self {
            BlockChain::Ink => "https://github.com/CoinFabrik/scout",
            BlockChain::Soroban => "https://github.com/CoinFabrik/scout-soroban",
            BlockChain::SubstratePallet => "https://github.com/CoinFabrik/scout-substrate",
        }
    }

    /// The compiler toolchain the detectors for this ecosystem are built with.
    pub fn get_toolchain(&self) -> (r: &'static str)
        ensures
            r@ == toolchain_of(*self),
    {
        match self {
            BlockChain::Ink => INK_TOOLCHAIN,
            BlockChain::Soroban => SOROBAN_TOOLCHAIN,
            BlockChain::SubstratePallet => INK_TOOLCHAIN,
        }
    }

    /// The dependency names declared by the workspace members, each member
    /// standing for the first package with its id; transitive dependencies
    /// are not looked at.
    pub fn get_immediate_dependencies(metadata: &ProjectMetadata) -> (r: Vec<String>)
        ensures
            forall|name: Seq<char>|
                texts(r@).contains(name) <==> is_immediate_dependency(*metadata, name),
    {
        let mut r: Vec<String> = Vec::new();
        let mut i: usize = 0;
        while i < metadata.packages.len()
            invariant
                i <= metadata.packages.len(),
                forall|name: Seq<char>|
                    texts(r@).contains(name) <==> declared_before(*metadata, i as int, name),
            decreases metadata.packages.len() - i,
        {
            let package = &metadata.packages[i];
            let ghost r0 = r@;
            let member = vec_has_text(&metadata.workspace_members, package.id.as_str())
                && first_with_id_exec(metadata, i);
            if member {
                let mut k: usize = 0;
                while k < package.dependencies.len()
                    invariant
                        k <= package.dependencies.len(),
                        i < metadata.packages.len(),
                        package == metadata.packages@[i as int],
                        r@.len() == r0.len() + k,
                        forall|x: int| 0 <= x < r0.len() ==> r@[x] == r0[x],
                        forall|x: int|
                            0 <= x < k ==> r@[r0.len() + x]@ == package.dependencies@[x]@,
                    decreases package.dependencies.len() - k,
                {
                    let d = package.dependencies[k].clone();
                    r.push(d);
                    k = k + 1;
                }
            }
            assert forall|name: Seq<char>|
                texts(r@).contains(name) <==> declared_before(*metadata, i + 1, name) by {
                if texts(r@).contains(name) {
                    let x = choose|x: int| 0 <= x < texts(r@).len() && texts(r@)[x] == name;
                    if x < r0.len() {
                        assert(texts(r0)[x] == name);
                        assert(texts(r0).contains(name));
                        assert(declared_before(*metadata, i as int, name));
                        let (a, j) = choose|a: int, j: int|
                            declared_by(*metadata, a, j, name) && a < i;
                        assert(declared_by(*metadata, a, j, name) && a < i + 1);
                    } else {
                        assert(package.dependencies@[x - r0.len()]@ == name);
                        assert(declared_by(*metadata, i as int, x - r0.len(), name));
                    }
                }
                if declared_before(*metadata, i + 1, name) {
                    let (a, j) = choose|a: int, j: int| declared_by(*metadata, a, j, name) && a < i + 1;
                    if a < i {
                        assert(declared_before(*metadata, i as int, name));
                        let x = choose|x: int| 0 <= x < texts(r0).len() && texts(r0)[x] == name;
                        assert(texts(r@)[x] == name);
                    } else {
                        assert(member);
                        assert(texts(r@)[r0.len() + j] == name);
                    }
                }
            }
            i = i + 1;
        }
        assert forall|name: Seq<char>|
            declared_before(*metadata, i as int, name) <==> is_immediate_dependency(
                *metadata,
                name,
            ) by {
            if is_immediate_dependency(*metadata, name) {
                let (a, j) = choose|a: int, j: int| declared_by(*metadata, a, j, name);
                assert(declared_by(*metadata, a, j, name) && a < i);
            }
        }
        r
    }

    /// The ecosystem that the project's immediate dependencies point to.
    pub fn get_blockchain_dependency(metadata: &ProjectMetadata) -> (r: Result<
        BlockChain,
        UnsupportedBlockchain,
    >)
        ensures
            required_blockchain(*metadata) matches Some(b) ==> r == Ok::<
                BlockChain,
                UnsupportedBlockchain,
            >(b),
            required_blockchain(*metadata) is None ==> (r matches Err(e) && texts(e.supported@)
                == variant_names()),
    {
        let deps = Self::get_immediate_dependencies(metadata);
        if vec_has_text(&deps, "soroban-sdk") {
            Ok(BlockChain::Soroban)
        } else if vec_has_text(&deps, "ink") {
            Ok(BlockChain::Ink)
        } else if vec_has_text(&deps, "frame-system") {
            Ok(BlockChain::SubstratePallet)
        } else {
            Err(UnsupportedBlockchain { supported: Self::variants() })
        }
    }
}

/// Two descriptions of the same project, as dispatch reads them.
pub open spec fn same_project(a: ProjectMetadata, b: ProjectMetadata) -> bool {
    texts(a.workspace_members@) == texts(b.workspace_members@) && a.packages@.len()
        == b.packages@.len() && forall|i: int|
        0 <= i < a.packages@.len() ==> #[trigger] a.packages@[i].id@ == b.packages@[i].id@ && texts(
            a.packages@[i].dependencies@,
        ) == texts(b.packages@[i].dependencies@)
}

/// Dispatch is a function of the project: running it again on the same
/// project requires the same ecosystem, hence the same toolchain.
pub proof fn lemma_dispatch_is_idempotent(a: ProjectMetadata, b: ProjectMetadata)
    requires
        same_project(a, b),
    ensures
        required_blockchain(a) == required_blockchain(b),
        required_blockchain(a) matches Some(x) ==> toolchain_of(x) == toolchain_of(
            required_blockchain(b)->0,
        ),
{
    assert forall|name: Seq<char>|
        is_immediate_dependency(a, name) <==> is_immediate_dependency(b, name) by {
        if is_immediate_dependency(a, name) {
            let (i, j) = choose|i: int, j: int| declared_by(a, i, j, name);
            assert(a.packages@[i].id@ == b.packages@[i].id@);
            assert(texts(a.packages@[i].dependencies@)[j] == texts(b.packages@[i].dependencies@)[j]);
            assert(texts(b.packages@[i].dependencies@).len() == b.packages@[i].dependencies@.len());
            assert(texts(a.packages@[i].dependencies@).len() == a.packages@[i].dependencies@.len());
            assert(texts(b.packages@[i].dependencies@)[j] == b.packages@[i].dependencies@[j]@);
            assert forall|c: int| 0 <= c < i implies b.packages@[c].id@ != b.packages@[i].id@ by {
                assert(a.packages@[c].id@ == b.packages@[c].id@);
            }
            assert(declared_by(b, i, j, name));
        }
        if is_immediate_dependency(b, name) {
            let (i, j) = choose|i: int, j: int| declared_by(b, i, j, name);
            assert(a.packages@[i].id@ == b.packages@[i].id@);
            assert(texts(a.packages@[i].dependencies@)[j] == texts(b.packages@[i].dependencies@)[j]);
            assert(texts(a.packages@[i].dependencies@).len() == a.packages@[i].dependencies@.len());
            assert(texts(b.packages@[i].dependencies@).len() == b.packages@[i].dependencies@.len());
            assert(texts(a.packages@[i].dependencies@)[j] == a.packages@[i].dependencies@[j]@);
            assert forall|c: int| 0 <= c < i implies a.packages@[c].id@ != a.packages@[i].id@ by {
                assert(b.packages@[c].id@ == a.packages@[c].id@);
            }
            assert(declared_by(a, i, j, name));
        }
    }
}

} // verus!

//! Flattening of upstream package trees (type, namespace, name, version)
//! into flat package references.
use vstd::prelude::*;
use crate::link::{canonical_identifier, canonical_purl, family_identifier, family_purl, package_link, purl_link};
use crate::model::{GuacError, NameNode, NamespaceNode, PackageDependencies, PackageIdentifier, PackageRef, PackageTree};

verus! {

/// One version leaf: (type, namespace, name, version).
pub type Leaf = (Seq<char>, Seq<char>, Seq<char>, Seq<char>);

/// What a package reference states: (identifier, link, trust flag).
pub type RefView = (Seq<char>, Seq<char>, Option<bool>);

/// The namespace whose packages are first-party.
pub open spec fn first_party() -> Seq<char> {
    "redhat"@
}

pub open spec fn ref_view(r: PackageRef) -> RefView {
    (r.purl@, r.href@, r.trusted)
}

pub open spec fn refs_view(s: Seq<PackageRef>) -> Seq<RefView> {
    s.map_values(|r: PackageRef| ref_view(r))
}

pub open spec fn leaf_purl(l: Leaf) -> Seq<char> {
    canonical_purl(l.0, l.1, l.2, l.3)
}

/// The reference for a leaf; the trust flag is computed only where asked.
pub open spec fn leaf_ref(l: Leaf, with_trust: bool) -> RefView {
    (
        leaf_purl(l),
        purl_link(leaf_purl(l)),
        if with_trust {
            Some(l.1 == first_party())
        } else {
            None
        },
    )
}

pub open spec fn leaf_refs(leaves: Seq<Leaf>, with_trust: bool) -> Seq<RefView> {
    leaves.map_values(|l: Leaf| leaf_ref(l, with_trust))
}

pub open spec fn version_leaves(
    ty: Seq<char>,
    ns: Seq<char>,
    name: Seq<char>,
    versions: Seq<String>,
) -> Seq<Leaf> {
    versions.map_values(|v: String| (ty, ns, name, v@))
}

pub open spec fn names_leaves(ty: Seq<char>, ns: Seq<char>, names: Seq<NameNode>) -> Seq<Leaf>
    decreases names.len(),
{
    if names.len() == 0 {
        Seq::empty()
    } else {
        names_leaves(ty, ns, names.drop_last()) + version_leaves(
            ty,
            ns,
            names.last().name@,
            names.last().versions@,
        )
    }
}

pub open spec fn namespaces_leaves(ty: Seq<char>, nss: Seq<NamespaceNode>) -> Seq<Leaf>
    decreases nss.len(),
{
    if nss.len() == 0 {
        Seq::empty()
    } else {
        namespaces_leaves(ty, nss.drop_last()) + names_leaves(
            ty,
            nss.last().namespace@,
            nss.last().names@,
        )
    }
}

/// Every version leaf of the trees, in traversal order.
pub open spec fn tree_leaves(trees: Seq<PackageTree>) -> Seq<Leaf>
    decreases trees.len(),
{
    if trees.len() == 0 {
        Seq::empty()
    } else {
        tree_leaves(trees.drop_last()) + namespaces_leaves(
            trees.last().type_@,
            trees.last().namespaces@,
        )
    }
}

/// Whether a namespace is the first-party one.
pub fn is_first_party(ns: &String) -> (r: bool)
    ensures
        r == (ns@ == first_party()),
{
    *ns == String::from_str("redhat")
}

fn push_versions(
    out: &mut Vec<PackageRef>,
    ty: &String,
    ns: &String,
    node: &NameNode,
    with_trust: bool,
)
    ensures
        refs_view(final(out)@) == refs_view(old(out)@) + leaf_refs(
            version_leaves(ty@, ns@, node.name@, node.versions@),
            with_trust,
        ),
{
    let ghost start = out@;
    let trusted = if with_trust {
        Some(is_first_party(ns))
    } else {
        None
    };
    let mut i: usize = 0;
    while i < node.versions.len()
        invariant
            0 <= i <= node.versions@.len(),
            trusted == (if with_trust {
                Some(ns@ == first_party())
            } else {
                None::<bool>
            }),
            refs_view(out@) == refs_view(start) + leaf_refs(
                version_leaves(ty@, ns@, node.name@, node.versions@.subrange(0, i as int)),
                with_trust,
            ),
        decreases node.versions.len() - i,
    {
        let purl = canonical_identifier(
            ty.as_str(),
            ns.as_str(),
            node.name.as_str(),
            node.versions[i].as_str(),
        );
        let href = package_link(purl.as_str());
        let r = PackageRef { purl: purl.clone(), href, trusted };
        let ghost before = out@;
        out.push(r);
        proof {
            let l: Leaf = (ty@, ns@, node.name@, node.versions@[i as int]@);
            assert(refs_view(out@) =~= refs_view(before) + seq![leaf_ref(l, with_trust)]);
            assert(version_leaves(ty@, ns@, node.name@, node.versions@.subrange(0, i + 1))
                =~= version_leaves(ty@, ns@, node.name@, node.versions@.subrange(0, i as int))
                + seq![l]);
            assert(leaf_refs(
                version_leaves(ty@, ns@, node.name@, node.versions@.subrange(0, i + 1)),
                with_trust,
            ) =~= leaf_refs(
                version_leaves(ty@, ns@, node.name@, node.versions@.subrange(0, i as int)),
                with_trust,
            ) + seq![leaf_ref(l, with_trust)]);
        }
        i = i + 1;
    }
    proof {
        assert(node.versions@.subrange(0, i as int) =~= node.versions@);
    }
}

proof fn lemma_leaf_refs_concat(a: Seq<Leaf>, b: Seq<Leaf>, with_trust: bool)
    ensures
        leaf_refs(a + b, with_trust) == leaf_refs(a, with_trust) + leaf_refs(b, with_trust),
{
    assert(leaf_refs(a + b, with_trust) =~= leaf_refs(a, with_trust) + leaf_refs(b, with_trust));
}

fn push_names(
    out: &mut Vec<PackageRef>,
    ty: &String,
    nsn: &NamespaceNode,
    with_trust: bool,
)
    ensures
        refs_view(final(out)@) == refs_view(old(out)@) + leaf_refs(
            names_leaves(ty@, nsn.namespace@, nsn.names@),
            with_trust,
        ),
{
    let ghost start = out@;
    let mut i: usize = 0;
    while i < nsn.names.len()
        invariant
            0 <= i <= nsn.names@.len(),
            refs_view(out@) == refs_view(start) + leaf_refs(
                names_leaves(ty@, nsn.namespace@, nsn.names@.subrange(0, i as int)),
                with_trust,
            ),
        decreases nsn.names.len() - i,
    {
        let ghost before = out@;
        push_versions(out, ty, &nsn.namespace, &nsn.names[i], with_trust);
        proof {
            let pre = nsn.names@.subrange(0, i as int);
            let next = nsn.names@.subrange(0, i + 1);
            assert(next.drop_last() =~= pre);
            let vl = version_leaves(ty@, nsn.namespace@, nsn.names@[i as int].name@, nsn.names@[i as int].versions@);
            lemma_leaf_refs_concat(names_leaves(ty@, nsn.namespace@, pre), vl, with_trust);
            assert(refs_view(out@) =~= refs_view(start) + leaf_refs(
                names_leaves(ty@, nsn.namespace@, next),
                with_trust,
            ));
        }
        i = i + 1;
    }
    proof {
        assert(nsn.names@.subrange(0, i as int) =~= nsn.names@);
    }
}

fn push_namespaces(out: &mut Vec<PackageRef>, tree: &PackageTree, with_trust: bool)
    ensures
        refs_view(final(out)@) == refs_view(old(out)@) + leaf_refs(
            namespaces_leaves(tree.type_@, tree.namespaces@),
            with_trust,
        ),
{
    let ghost start = out@;
    let mut i: usize = 0;
    while i < tree.namespaces.len()
        invariant
            0 <= i <= tree.namespaces@.len(),
            refs_view(out@) == refs_view(start) + leaf_refs(
                namespaces_leaves(tree.type_@, tree.namespaces@.subrange(0, i as int)),
                with_trust,
            ),
        decreases tree.namespaces.len() - i,
    {
        push_names(out, &tree.type_, &tree.namespaces[i], with_trust);
        proof {
            let pre = tree.namespaces@.subrange(0, i as int);
            let next = tree.namespaces@.subrange(0, i + 1);
            assert(next.drop_last() =~= pre);
            let nl = names_leaves(tree.type_@, tree.namespaces@[i as int].namespace@, tree.namespaces@[i as int].names@);
            lemma_leaf_refs_concat(namespaces_leaves(tree.type_@, pre), nl, with_trust);
            assert(refs_view(out@) =~= refs_view(start) + leaf_refs(
                namespaces_leaves(tree.type_@, next),
                with_trust,
            ));
        }
        i = i + 1;
    }
    proof {
        assert(tree.namespaces@.subrange(0, i as int) =~= tree.namespaces@);
    }
}

/// The shared traversal: one reference per version leaf, in traversal order.
fn flatten(trees: &Vec<PackageTree>, with_trust: bool) -> (r: Vec<PackageRef>)
    ensures
        refs_view(r@) == leaf_refs(tree_leaves(trees@), with_trust),
{
    let mut out: Vec<PackageRef> = Vec::new();
    let mut i: usize = 0;
    while i < trees.len()
        invariant
            0 <= i <= trees@.len(),
            refs_view(out@) == leaf_refs(tree_leaves(trees@.subrange(0, i as int)), with_trust),
        decreases trees.len() - i,
    {
        proof {
            assert(refs_view(out@) =~= refs_view(out@) + Seq::<RefView>::empty());
        }
        push_namespaces(&mut out, &trees[i], with_trust);
        proof {
            let pre = trees@.subrange(0, i as int);
            let next = trees@.subrange(0, i + 1);
            assert(next.drop_last() =~= pre);
            let nl = namespaces_leaves(trees@[i as int].type_@, trees@[i as int].namespaces@);
            lemma_leaf_refs_concat(tree_leaves(pre), nl, with_trust);
        }
        i = i + 1;
    }
    proof {
        assert(trees@.subrange(0, i as int) =~= trees@);
    }
    out
}

/// All variants of a package family, one per version leaf, each with its
/// trust flag.
pub fn package_variants(trees: &Vec<PackageTree>) -> (r: Vec<PackageRef>)
    ensures
        refs_view(r@) == leaf_refs(tree_leaves(trees@), true),
{
    flatten(trees, true)
}

/// The dependencies of a package, from the trees of the related packages;
/// no trust flag is computed.
pub fn package_dependencies(trees: &Vec<PackageTree>) -> (r: PackageDependencies)
    ensures
        refs_view(r.0@) == leaf_refs(tree_leaves(trees@), false),
{
    PackageDependencies(flatten(trees, false))
}

/// The dependants of a package, from the trees of the related packages;
/// no trust flag is computed.
pub fn package_dependants(trees: &Vec<PackageTree>) -> (r: PackageDependencies)
    ensures
        refs_view(r.0@) == leaf_refs(tree_leaves(trees@), false),
{
    PackageDependencies(flatten(trees, false))
}

/// The family query for an identifier: `pkg:type/namespace/name`, without
/// the version. An identifier without a namespace cannot form one.
pub fn variants_query(id: &PackageIdentifier) -> (r: Result<String, GuacError>)
    ensures
        id.namespace is None <==> r == Err::<String, GuacError>(GuacError::MalformedIdentifier),
        id.namespace matches Some(ns) ==> (r matches Ok(q) && q@ == family_purl(id.ty@, ns@, id.name@)),
{
    match &id.namespace {
        Some(ns) => Ok(family_identifier(id.ty.as_str(), ns.as_str(), id.name.as_str())),
        None => Err(GuacError::MalformedIdentifier),
    }
}

/// Variant listing: where every leaf that the upstream returns for a family
/// query belongs to the family (type, namespace, name), every listed
/// reference is that family's identifier qualified by the leaf's version.
pub proof fn lemma_variants_of_family(
    ty: Seq<char>,
    ns: Seq<char>,
    name: Seq<char>,
    trees: Seq<PackageTree>,
)
    requires
        forall|i: int|
            0 <= i < tree_leaves(trees).len() ==> (#[trigger] tree_leaves(trees)[i]).0 == ty
                && tree_leaves(trees)[i].1 == ns && tree_leaves(trees)[i].2 == name,
    ensures
        leaf_refs(tree_leaves(trees), true).len() == tree_leaves(trees).len(),
        forall|i: int|
            0 <= i < tree_leaves(trees).len() ==> (#[trigger] leaf_refs(tree_leaves(trees), true)[i]).0
                == family_purl(ty, ns, name) + "@"@ + tree_leaves(trees)[i].3,
{
    assert forall|i: int| 0 <= i < tree_leaves(trees).len() implies (#[trigger] leaf_refs(
        tree_leaves(trees),
        true,
    )[i]).0 == family_purl(ty, ns, name) + "@"@ + tree_leaves(trees)[i].3 by {
        let l = tree_leaves(trees)[i];
        assert(l.0 == ty && l.1 == ns && l.2 == name);
    }
}

/// Trust: a variant listing flags a reference as trusted exactly when its
/// namespace is the first-party one; dependency and dependant listings
/// carry no flag.
pub proof fn lemma_trust_flag(trees: Seq<PackageTree>)
    ensures
        forall|i: int|
            0 <= i < tree_leaves(trees).len() ==> (#[trigger] leaf_refs(tree_leaves(trees), true)[i]).2
                == Some(tree_leaves(trees)[i].1 == first_party()),
        forall|i: int|
            0 <= i < tree_leaves(trees).len() ==> (#[trigger] leaf_refs(tree_leaves(trees), false)[i]).2
                is None,
{
}

/// Every reference that a listing produces links to its own identifier, so
/// `link_identifier` on the link gives the identifier back.
pub proof fn lemma_links_round_trip(refs: Seq<PackageRef>, trees: Seq<PackageTree>, with_trust: bool)
    requires
        refs_view(refs) == leaf_refs(tree_leaves(trees), with_trust),
    ensures
        forall|i: int| 0 <= i < refs.len() ==> (#[trigger] refs[i]).href@ == purl_link(refs[i].purl@),
{
    assert forall|i: int| 0 <= i < refs.len() implies (#[trigger] refs[i]).href@ == purl_link(
        refs[i].purl@,
    ) by {
        assert(refs_view(refs).len() == refs.len());
        assert(leaf_refs(tree_leaves(trees), with_trust).len() == tree_leaves(trees).len());
        assert(refs_view(refs)[i] == ref_view(refs[i]));
        assert(leaf_refs(tree_leaves(trees), with_trust)[i] == leaf_ref(tree_leaves(trees)[i], with_trust));
    }
}

} // verus!

//! Aggregation of every package variant with its vulnerabilities. The
//! lookups are made by the caller: the state says which identifier to look
//! up next and takes each outcome back. One failed lookup aborts the whole
//! aggregation.
use vstd::prelude::*;
use crate::flatten::{leaf_refs, package_variants, ref_view, refs_view, tree_leaves, RefView};
use crate::model::{GuacError, Package, PackageRef, PackageTree, VulnRecord};
use crate::vuln::{normalized, vulnerabilities, vulns_view, VulnView};

verus! {

/// Whether a package aggregate stands for the variant `v` with the
/// vulnerabilities `vulns`.
pub open spec fn package_of(p: Package, v: RefView, vulns: Seq<VulnView>) -> bool {
    &&& p.purl matches Some(s) && s@ == v.0
    &&& p.href matches Some(h) && h@ == v.1
    &&& p.trusted == v.2
    &&& p.trusted_versions@.len() == 0
    &&& p.snyk is None
    &&& vulns_view(p.vulnerabilities@) == vulns
}

pub struct Aggregation {
    variants: Vec<PackageRef>,
    packages: Vec<Package>,
    aborted: bool,
}

impl Aggregation {
    /// The variants to aggregate, in traversal order.
    pub closed spec fn variants_view(self) -> Seq<RefView> {
        refs_view(self.variants@)
    }

    /// The vulnerabilities found so far, one list per variant looked up.
    pub closed spec fn results_view(self) -> Seq<Seq<VulnView>> {
        self.packages@.map_values(|p: Package| vulns_view(p.vulnerabilities@))
    }

    pub closed spec fn is_aborted(self) -> bool {
        self.aborted
    }

    /// Whether no lookup is owed any more.
    pub open spec fn is_finished(self) -> bool {
        self.is_aborted() || self.results_view().len() == self.variants_view().len()
    }

    #[verifier::type_invariant]
    spec fn inv(self) -> bool {
        &&& self.packages@.len() <= self.variants@.len()
        &&& forall|i: int|
            0 <= i < self.packages@.len() ==> package_of(
                #[trigger] self.packages@[i],
                ref_view(self.variants@[i]),
                vulns_view(self.packages@[i].vulnerabilities@),
            )
    }

    /// Starts an aggregation over every version leaf of the inventory.
    pub fn new(trees: &Vec<PackageTree>) -> (r: Aggregation)
        ensures
            r.variants_view() == leaf_refs(tree_leaves(trees@), true),
            r.results_view().len() == 0,
            !r.is_aborted(),
    {
        let r = Aggregation { variants: package_variants(trees), packages: Vec::new(), aborted: false };
        proof {
            assert(r.results_view() =~= Seq::<Seq<VulnView>>::empty());
        }
        r
    }

    /// The identifier whose vulnerabilities are to be looked up next, or
    /// `None` once the aggregation is finished.
    pub fn next_lookup(&self) -> (r: Option<String>)
        ensures
            r is None <==> self.is_finished(),
            r matches Some(s) ==> s@ == self.variants_view()[self.results_view().len() as int].0,
    {
        proof {
            use_type_invariant(self);
        }
        if self.aborted || self.packages.len() >= self.variants.len() {
            None
        } else {
            Some(self.variants[self.packages.len()].purl.clone())
        }
    }

    /// Takes the outcome of the lookup that `next_lookup` asked for. A
    /// failure aborts the aggregation; once it is finished nothing changes.
    pub fn record(&mut self, outcome: Result<Vec<VulnRecord>, String>)
        ensures
            final(self).variants_view() == old(self).variants_view(),
            old(self).is_finished() ==> *final(self) == *old(self),
            !old(self).is_finished() ==> match outcome {
                Ok(recs) => !final(self).is_aborted() && final(self).results_view()
                    == old(self).results_view().push(normalized(recs@)),
                Err(_) => final(self).is_aborted() && final(self).results_view()
                    == old(self).results_view(),
            },
    {
        proof {
            use_type_invariant(&*self);
        }
        if self.aborted || self.packages.len() >= self.variants.len() {
            return;
        }
        match outcome {
            Ok(recs) => {
                let v = &self.variants[self.packages.len()];
                let p = Package {
                    purl: Some(v.purl.clone()),
                    href: Some(v.href.clone()),
                    trusted: v.trusted,
                    trusted_versions: Vec::new(),
                    snyk: None,
                    vulnerabilities: vulnerabilities(&recs),
                };
                let ghost before = self.packages@;
                let mut packages: Vec<Package> = Vec::new();
                std::mem::swap(&mut self.packages, &mut packages);
                packages.push(p);
                std::mem::swap(&mut self.packages, &mut packages);
                proof {
                    assert(self.results_view() =~= before.map_values(
                        |p: Package| vulns_view(p.vulnerabilities@),
                    ).push(normalized(recs@)));
                }
            },
            Err(_) => {
                self.aborted = true;
            },
        }
    }

    /// The aggregate: every variant with its vulnerabilities, in traversal
    /// order; or `AggregationAborted` where a lookup failed.
    pub fn finish(self) -> (r: Result<Vec<Package>, GuacError>)
        requires
            self.is_finished(),
        ensures
            self.is_aborted() <==> r == Err::<Vec<Package>, GuacError>(GuacError::AggregationAborted),
            !self.is_aborted() ==> (r matches Ok(ps) && ps@.len() == self.variants_view().len()
                && forall|i: int| 0 <= i < ps@.len() ==> package_of(
                    #[trigger] ps@[i],
                    self.variants_view()[i],
                    self.results_view()[i],
                )),
    {
        proof {
            use_type_invariant(&self);
        }
        if self.aborted {
            Err(GuacError::AggregationAborted)
        } else {
            Ok(self.packages)
        }
    }
}

} // verus!

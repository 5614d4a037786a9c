//! Normalisation of upstream vulnerability records into deduplicated
//! vulnerability references.
use vstd::prelude::*;
use crate::link::{lower_of, lowercase, replace, replace_all};
use crate::model::{VulnRecord, VulnerabilityRef};

verus! {

/// What a vulnerability reference states: (identifier, link).
pub type VulnView = (Seq<char>, Seq<char>);

/// The OSV advisory link; the upstream's lower-case `ghsa` is written
/// `GHSA` as the registry expects.
pub open spec fn osv_link(id: Seq<char>) -> Seq<char> {
    "https://osv.dev/vulnerability/"@ + replace_all(id, "ghsa"@, "GHSA"@)
}

/// The CVE advisory link for an identifier already lower-cased.
pub open spec fn cve_link_lowered(lowered: Seq<char>) -> Seq<char> {
    "https://access.redhat.com/security/cve/"@ + lowered
}

pub open spec fn cve_link(id: Seq<char>) -> Seq<char> {
    cve_link_lowered(lower_of(id))
}

/// The reference that a record yields; a record of unrecognised shape
/// yields none.
pub open spec fn record_ref(rec: VulnRecord) -> Option<VulnView> {
    match rec {
        VulnRecord::Osv(id) => Some((id@, osv_link(id@))),
        VulnRecord::Cve(id) => Some((id@, cve_link(id@))),
        VulnRecord::Unrecognized => None,
    }
}

pub open spec fn vuln_view(v: VulnerabilityRef) -> VulnView {
    (v.cve@, v.href@)
}

pub open spec fn vulns_view(s: Seq<VulnerabilityRef>) -> Seq<VulnView> {
    s.map_values(|v: VulnerabilityRef| vuln_view(v))
}

/// The references of the records, each kept at its first occurrence.
pub open spec fn normalized(recs: Seq<VulnRecord>) -> Seq<VulnView>
    decreases recs.len(),
{
    if recs.len() == 0 {
        Seq::empty()
    } else {
        let prev = normalized(recs.drop_last());
        match record_ref(recs.last()) {
            Some(p) => if prev.contains(p) {
                prev
            } else {
                prev.push(p)
            },
            None => prev,
        }
    }
}

/// The OSV advisory link of an identifier.
pub fn osv_advisory_link(id: &str) -> (r: String)
    ensures
        r@ == osv_link(id@),
{
    proof {
        reveal_strlit("ghsa");
    }
    let fixed = replace(id, "ghsa", "GHSA");
    let mut r = String::from_str("https://osv.dev/vulnerability/");
    r.append(fixed.as_str());
    r
}

/// The CVE advisory link of an identifier that is already lower-cased.
pub fn cve_advisory_link(lowered: &str) -> (r: String)
    ensures
        r@ == cve_link_lowered(lowered@),
{
    let mut r = String::from_str("https://access.redhat.com/security/cve/");
    r.append(lowered);
    r
}

/// The reference that one record yields, if its shape is recognised.
pub fn vulnerability_ref(rec: &VulnRecord) -> (r: Option<VulnerabilityRef>)
    ensures
        r.is_some() == record_ref(*rec).is_some(),
        r matches Some(v) ==> record_ref(*rec) == Some(vuln_view(v)),
{
    match rec {
        VulnRecord::Osv(id) => Some(
            VulnerabilityRef { cve: id.clone(), href: osv_advisory_link(id.as_str()) },
        ),
        VulnRecord::Cve(id) => {
            let lowered = lowercase(id.as_str());
            Some(VulnerabilityRef { cve: id.clone(), href: cve_advisory_link(lowered.as_str()) })
        },
        VulnRecord::Unrecognized => None,
    }
}

/// Whether a list already holds a reference with the same identifier and
/// link.
pub fn contains_ref(v: &Vec<VulnerabilityRef>, r: &VulnerabilityRef) -> (b: bool)
    ensures
        b == vulns_view(v@).contains(vuln_view(*r)),
{
    let mut i: usize = 0;
    while i < v.len()
        invariant
            0 <= i <= v@.len(),
            forall|j: int| 0 <= j < i ==> vuln_view(#[trigger] v@[j]) != vuln_view(*r),
        decreases v.len() - i,
    {
        if v[i].cve == r.cve && v[i].href == r.href {
            proof {
                assert(vulns_view(v@)[i as int] == vuln_view(*r));
            }
            return true;
        }
        i = i + 1;
    }
    proof {
        if vulns_view(v@).contains(vuln_view(*r)) {
            let j = choose|j: int| 0 <= j < vulns_view(v@).len() && vulns_view(v@)[j] == vuln_view(*r);
            assert(vuln_view(v@[j]) == vuln_view(*r));
        }
    }
    false
}

/// The references of the records, deduplicated by identifier and link,
/// in the order of first occurrence; records of unrecognised shape are
/// skipped.
pub fn vulnerabilities(recs: &Vec<VulnRecord>) -> (r: Vec<VulnerabilityRef>)
    ensures
        vulns_view(r@) == normalized(recs@),
{
    let mut out: Vec<VulnerabilityRef> = Vec::new();
    let mut i: usize = 0;
    while i < recs.len()
        invariant
            0 <= i <= recs@.len(),
            vulns_view(out@) == normalized(recs@.subrange(0, i as int)),
        decreases recs.len() - i,
    {
        let ghost before = out@;
        let next = vulnerability_ref(&recs[i]);
        proof {
            assert(recs@.subrange(0, i + 1).drop_last() =~= recs@.subrange(0, i as int));
        }
        match next {
            Some(v) => {
                if !contains_ref(&out, &v) {
                    out.push(v);
                    proof {
                        assert(vulns_view(out@) =~= vulns_view(before).push(vuln_view(v)));
                    }
                }
            },
            None => {},
        }
        i = i + 1;
    }
    proof {
        assert(recs@.subrange(0, i as int) =~= recs@);
    }
    out
}

/// Deduplication: the normalised list holds no reference twice; it holds
/// exactly the references that some record yields; and where one reference
/// stands before another, every record yielding the later one is preceded
/// by a record yielding the earlier one (order of first occurrence).
pub proof fn lemma_normalized_dedup(recs: Seq<VulnRecord>)
    ensures
        normalized(recs).no_duplicates(),
        forall|p: VulnView|
            normalized(recs).contains(p) <==> exists|k: int|
                0 <= k < recs.len() && #[trigger] record_ref(recs[k]) == Some(p),
        forall|i: int, j: int, k: int|
            #![trigger normalized(recs)[i], normalized(recs)[j], record_ref(recs[k])]
            0 <= i < j < normalized(recs).len() && 0 <= k < recs.len() && record_ref(recs[k])
                == Some(normalized(recs)[j]) ==> exists|k2: int|
                0 <= k2 < k && #[trigger] record_ref(recs[k2]) == Some(normalized(recs)[i]),
    decreases recs.len(),
{
    if recs.len() > 0 {
        let pre = recs.drop_last();
        lemma_normalized_dedup(pre);
        let prev = normalized(pre);
        let out = normalized(recs);
        let n = recs.len() - 1;
        assert forall|k: int| 0 <= k < n implies #[trigger] recs[k] == pre[k] by {}
        assert forall|p: VulnView| out.contains(p) <==> exists|k: int|
            0 <= k < recs.len() && #[trigger] record_ref(recs[k]) == Some(p) by {
            if out.contains(p) {
                if prev.contains(p) {
                    let k = choose|k: int| 0 <= k < pre.len() && #[trigger] record_ref(pre[k]) == Some(p);
                    assert(record_ref(recs[k]) == Some(p));
                } else {
                    let j = choose|j: int| 0 <= j < out.len() && out[j] == p;
                    assert(record_ref(recs[n]) == Some(p));
                }
            }
            if exists|k: int| 0 <= k < recs.len() && #[trigger] record_ref(recs[k]) == Some(p) {
                let k = choose|k: int| 0 <= k < recs.len() && #[trigger] record_ref(recs[k]) == Some(p);
                if k < n {
                    assert(record_ref(pre[k]) == Some(p));
                    assert(prev.contains(p));
                    let j = choose|j: int| 0 <= j < prev.len() && prev[j] == p;
                    assert(out[j] == p);
                } else {
                    if !prev.contains(p) {
                        assert(out[out.len() - 1] == p);
                    } else {
                        let j = choose|j: int| 0 <= j < prev.len() && prev[j] == p;
                        assert(out[j] == p);
                    }
                }
            }
        }
        assert forall|i: int, j: int, k: int|
            #![trigger out[i], out[j], record_ref(recs[k])]
            0 <= i < j < out.len() && 0 <= k < recs.len() && record_ref(recs[k])
                == Some(out[j]) implies exists|k2: int|
                0 <= k2 < k && #[trigger] record_ref(recs[k2]) == Some(out[i]) by {
            assert(out[i] == prev[i]);
            assert(prev.contains(prev[i]));
            let ki = choose|ki: int| 0 <= ki < pre.len() && #[trigger] record_ref(pre[ki]) == Some(prev[i]);
            assert(record_ref(recs[ki]) == Some(out[i]));
            if j < prev.len() {
                assert(out[j] == prev[j]);
                if k < n {
                    assert(record_ref(pre[k]) == Some(prev[j]));
                    let k2 = choose|k2: int| 0 <= k2 < k && #[trigger] record_ref(pre[k2]) == Some(prev[i]);
                    assert(record_ref(recs[k2]) == Some(out[i]));
                } else {
                    assert(prev.contains(prev[j]));
                    let kj = choose|kj: int| 0 <= kj < pre.len() && #[trigger] record_ref(pre[kj]) == Some(prev[j]);
                    let k2 = choose|k2: int| 0 <= k2 < kj && #[trigger] record_ref(pre[k2]) == Some(prev[i]);
                    assert(record_ref(recs[k2]) == Some(out[i]));
                }
            } else {
                assert(ki < k) by {
                    if k < n {
                        assert(record_ref(pre[k]) == Some(out[j]));
                        assert(prev.contains(out[j]));
                    }
                }
            }
        }
    }
}

} // verus!

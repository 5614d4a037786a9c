use trust_guac::aggregate::Aggregation;
use trust_guac::flatten::{is_first_party, package_dependants, package_dependencies, package_variants, variants_query};
use trust_guac::link::{canonical_identifier, family_identifier, link_identifier, package_link};
use trust_guac::model::{
    GuacError, NameNode, NamespaceNode, PackageIdentifier, PackageRef, PackageTree, VulnRecord,
    VulnerabilityRef,
};
use trust_guac::server::Server;
use trust_guac::vuln::{contains_ref, cve_advisory_link, osv_advisory_link, vulnerabilities, vulnerability_ref};

fn tree(ty: &str, nss: &[(&str, &[(&str, &[&str])])]) -> PackageTree {
    PackageTree {
        type_: ty.to_string(),
        namespaces: nss
            .iter()
            .map(|(ns, names)| NamespaceNode {
                namespace: ns.to_string(),
                names: names
                    .iter()
                    .map(|(n, vs)| NameNode {
                        name: n.to_string(),
                        versions: vs.iter().map(|v| v.to_string()).collect(),
                    })
                    .collect(),
            })
            .collect(),
    }
}

fn sample() -> Vec<PackageTree> {
    vec![tree(
        "maven",
        &[
            ("redhat", &[("log4j", &["1.0", "2.0"])]),
            ("apache", &[("log4j", &["2.0"])]),
        ],
    )]
}

#[test]
fn canonical_identifier_format() {
    assert_eq!(canonical_identifier("maven", "redhat", "log4j", "1.0"), "pkg:maven/redhat/log4j@1.0");
    assert_eq!(family_identifier("maven", "redhat", "log4j"), "pkg:maven/redhat/log4j");
}

#[test]
fn package_link_percent_encodes() {
    assert_eq!(
        package_link("pkg:maven/redhat/log4j@1.0"),
        "/api/package?purl=pkg%3Amaven%2Fredhat%2Flog4j%401.0"
    );
}

#[test]
fn link_identifier_round_trip() {
    for r in package_variants(&sample()) {
        assert_eq!(link_identifier(&r.href), Some(r.purl.clone()));
    }
    let odd = "pkg:npm/@scope/näme@1.0 beta%";
    assert_eq!(link_identifier(&package_link(odd)), Some(odd.to_string()));
}

#[test]
fn link_identifier_rejects_other_text() {
    assert_eq!(link_identifier("/api/other?purl=x"), None);
    assert_eq!(link_identifier("short"), None);
}

#[test]
fn variants_query_drops_version() {
    let id = PackageIdentifier {
        ty: "maven".to_string(),
        namespace: Some("redhat".to_string()),
        name: "log4j".to_string(),
        version: Some("1.0".to_string()),
    };
    assert_eq!(variants_query(&id), Ok("pkg:maven/redhat/log4j".to_string()));
}

#[test]
fn variants_query_needs_namespace() {
    let id = PackageIdentifier {
        ty: "maven".to_string(),
        namespace: None,
        name: "log4j".to_string(),
        version: Some("1.0".to_string()),
    };
    assert_eq!(variants_query(&id), Err(GuacError::MalformedIdentifier));
}

#[test]
fn variants_in_traversal_order_with_trust() {
    let r = package_variants(&sample());
    let purls: Vec<&str> = r.iter().map(|p| p.purl.as_str()).collect();
    assert_eq!(
        purls,
        vec!["pkg:maven/redhat/log4j@1.0", "pkg:maven/redhat/log4j@2.0", "pkg:maven/apache/log4j@2.0"]
    );
    let trust: Vec<Option<bool>> = r.iter().map(|p| p.trusted).collect();
    assert_eq!(trust, vec![Some(true), Some(true), Some(false)]);
    assert_eq!(r[0].href, "/api/package?purl=pkg%3Amaven%2Fredhat%2Flog4j%401.0");
}

#[test]
fn variants_of_family_are_version_qualified() {
    let r = package_variants(&vec![tree("npm", &[("acme", &[("left-pad", &["1.0", "1.1"])])])]);
    assert_eq!(r.len(), 2);
    for p in &r {
        assert!(p.purl.starts_with("pkg:npm/acme/left-pad@"));
    }
}

#[test]
fn empty_trees_give_nothing() {
    assert!(package_variants(&vec![]).is_empty());
    assert!(package_variants(&vec![tree("npm", &[("acme", &[("x", &[])])])]).is_empty());
    assert!(package_dependencies(&vec![]).0.is_empty());
}

#[test]
fn dependencies_carry_no_trust() {
    let d = package_dependencies(&sample());
    assert_eq!(d.0.len(), 3);
    assert!(d.0.iter().all(|p| p.trusted.is_none()));
    let d = package_dependants(&sample());
    assert_eq!(
        d.0[2],
        PackageRef {
            purl: "pkg:maven/apache/log4j@2.0".to_string(),
            href: "/api/package?purl=pkg%3Amaven%2Fapache%2Flog4j%402.0".to_string(),
            trusted: None,
        }
    );
}

#[test]
fn first_party_namespace() {
    assert!(is_first_party(&"redhat".to_string()));
    assert!(!is_first_party(&"RedHat".to_string()));
}

#[test]
fn osv_id_casing() {
    let v = vulnerability_ref(&VulnRecord::Osv("ghsa-abcd-1234-wxyz".to_string())).unwrap();
    assert_eq!(v.cve, "ghsa-abcd-1234-wxyz");
    assert!(v.href.contains("GHSA-abcd-1234-wxyz"));
    assert_eq!(v.href, "https://osv.dev/vulnerability/GHSA-abcd-1234-wxyz");
    assert_eq!(osv_advisory_link("RUSTSEC-2020-1"), "https://osv.dev/vulnerability/RUSTSEC-2020-1");
}

#[test]
fn cve_id_casing() {
    let v = vulnerability_ref(&VulnRecord::Cve("CVE-2023-0001".to_string())).unwrap();
    assert_eq!(v.cve, "CVE-2023-0001");
    assert!(v.href.contains("cve-2023-0001"));
    assert_eq!(v.href, "https://access.redhat.com/security/cve/cve-2023-0001");
    assert_eq!(cve_advisory_link("cve-1"), "https://access.redhat.com/security/cve/cve-1");
}

#[test]
fn duplicates_kept_once_in_first_order() {
    let recs = vec![
        VulnRecord::Cve("CVE-2023-0002".to_string()),
        VulnRecord::Osv("ghsa-aaaa".to_string()),
        VulnRecord::Cve("CVE-2023-0002".to_string()),
        VulnRecord::Osv("ghsa-aaaa".to_string()),
    ];
    let r = vulnerabilities(&recs);
    let ids: Vec<&str> = r.iter().map(|v| v.cve.as_str()).collect();
    assert_eq!(ids, vec!["CVE-2023-0002", "ghsa-aaaa"]);
}

#[test]
fn same_id_different_source_kept_apart() {
    let recs = vec![VulnRecord::Cve("X-1".to_string()), VulnRecord::Osv("X-1".to_string())];
    assert_eq!(vulnerabilities(&recs).len(), 2);
}

#[test]
fn unrecognized_shape_skipped() {
    let recs = vec![
        VulnRecord::Osv("ghsa-abcd-1234-wxyz".to_string()),
        VulnRecord::Cve("CVE-2023-0001".to_string()),
        VulnRecord::Unrecognized,
    ];
    let r = vulnerabilities(&recs);
    assert_eq!(r.len(), 2);
    assert_eq!(vulnerability_ref(&VulnRecord::Unrecognized), None);
}

#[test]
fn contains_ref_compares_both_fields() {
    let a = VulnerabilityRef { cve: "a".to_string(), href: "x".to_string() };
    let b = VulnerabilityRef { cve: "a".to_string(), href: "y".to_string() };
    assert!(contains_ref(&vec![a.clone()], &a));
    assert!(!contains_ref(&vec![a], &b));
}

fn three_variants() -> Vec<PackageTree> {
    vec![tree("maven", &[("redhat", &[("a", &["1", "2"])]), ("other", &[("b", &["3"])])])]
}

#[test]
fn aggregation_collects_every_variant() {
    let mut agg = Aggregation::new(&three_variants());
    let mut asked = Vec::new();
    while let Some(purl) = agg.next_lookup() {
        asked.push(purl.clone());
        agg.record(Ok(vec![VulnRecord::Cve(format!("CVE-{}", asked.len()))]));
    }
    assert_eq!(asked, vec!["pkg:maven/redhat/a@1", "pkg:maven/redhat/a@2", "pkg:maven/other/b@3"]);
    let ps = agg.finish().unwrap();
    assert_eq!(ps.len(), 3);
    assert_eq!(ps[0].purl.as_deref(), Some("pkg:maven/redhat/a@1"));
    assert_eq!(ps[0].href.as_deref(), Some("/api/package?purl=pkg%3Amaven%2Fredhat%2Fa%401"));
    assert_eq!(ps[0].trusted, Some(true));
    assert_eq!(ps[2].trusted, Some(false));
    assert!(ps[1].trusted_versions.is_empty());
    assert!(ps[1].snyk.is_none());
    assert_eq!(ps[1].vulnerabilities[0].cve, "CVE-2");
}

#[test]
fn aggregation_aborts_on_second_failure() {
    let mut agg = Aggregation::new(&three_variants());
    let mut n = 0;
    while agg.next_lookup().is_some() {
        n += 1;
        if n == 2 {
            agg.record(Err("connection refused".to_string()));
        } else {
            agg.record(Ok(vec![]));
        }
    }
    assert_eq!(n, 2);
    assert_eq!(agg.finish(), Err(GuacError::AggregationAborted));
}

#[test]
fn aggregation_of_nothing_is_empty() {
    let agg = Aggregation::new(&vec![]);
    assert_eq!(agg.next_lookup(), None);
    assert_eq!(agg.finish(), Ok(vec![]));
}

#[test]
fn server_settings() {
    let s = Server::new("0.0.0.0".to_string(), 8080, "http://localhost:8080/query".to_string());
    assert_eq!(s.bind, "0.0.0.0");
    assert_eq!(s.port, 8080);
    assert_eq!(s.guac_url, "http://localhost:8080/query");
}

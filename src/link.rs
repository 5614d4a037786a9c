//! Canonical identifiers and the links derived from them.
use vstd::prelude::*;

verus! {

/// What `urlencoding::encode` returns for a string.
pub uninterp spec fn url_encoded(s: Seq<char>) -> Seq<char>;

/// What `str::to_lowercase` returns for a string.
pub uninterp spec fn lower_of(s: Seq<char>) -> Seq<char>;

/// The canonical form `pkg:type/namespace/name@version`.
pub open spec fn canonical_purl(
    ty: Seq<char>,
    ns: Seq<char>,
    name: Seq<char>,
    version: Seq<char>,
) -> Seq<char> {
    family_purl(ty, ns, name) + "@"@ + version
}

/// The version-free form `pkg:type/namespace/name`, which names a family.
pub open spec fn family_purl(ty: Seq<char>, ns: Seq<char>, name: Seq<char>) -> Seq<char> {
    "pkg:"@ + ty + "/"@ + ns + "/"@ + name
}

pub open spec fn link_prefix() -> Seq<char> {
    "/api/package?purl="@
}

/// The lookup link of a canonical identifier.
pub open spec fn purl_link(purl: Seq<char>) -> Seq<char> {
    link_prefix() + url_encoded(purl)
}

/// `s` with every non-overlapping occurrence of `from`, left to right,
/// replaced by `to`.
pub open spec fn replace_all(s: Seq<char>, from: Seq<char>, to: Seq<char>) -> Seq<char>
    decreases s.len(),
{
    if s.len() == 0 || from.len() == 0 {
        s
    } else if from.len() <= s.len() && s.subrange(0, from.len() as int) == from {
        to + replace_all(s.subrange(from.len() as int, s.len() as int), from, to)
    } else {
        seq![s[0]] + replace_all(s.drop_first(), from, to)
    }
}

/// Relies on urlencoding::encode: the percent-encoding of a string depends
/// on its characters alone.
#[verifier::external_body]
fn encode(s: &str) -> (r: String)
    ensures
        r@ == url_encoded(s@),
{
    urlencoding::encode(s).into_owned()
}

/// Relies on urlencoding::decode: it gives back the string that
/// urlencoding::encode encoded.
#[verifier::external_body]
fn decode(s: &str) -> (r: Option<String>)
    ensures
        forall|t: Seq<char>| #[trigger] url_encoded(t) == s@ ==> r.is_some() && r.unwrap()@ == t,
{
    urlencoding::decode(s).ok().map(|d| d.into_owned())
}

/// Relies on str::to_lowercase: the result depends on the characters alone.
#[verifier::external_body]
pub(crate) fn lowercase(s: &str) -> (r: String)
    ensures
        r@ == lower_of(s@),
{
    s.to_lowercase()
}

/// Relies on str::replace: every non-overlapping match of `from`, found
/// left to right, is replaced by `to`.
#[verifier::external_body]
pub(crate) fn replace(s: &str, from: &str, to: &str) -> (r: String)
    requires
        from@.len() > 0,
    ensures
        r@ == replace_all(s@, from@, to@),
{
    s.replace(from, to)
}

/// Builds `pkg:type/namespace/name`.
pub fn family_identifier(ty: &str, ns: &str, name: &str) -> (r: String)
    ensures
        r@ == family_purl(ty@, ns@, name@),
{
    let mut r = String::from_str("pkg:");
    r.append(ty);
    r.append("/");
    r.append(ns);
    r.append("/");
    r.append(name);
    r
}

/// Builds `pkg:type/namespace/name@version`.
pub fn canonical_identifier(ty: &str, ns: &str, name: &str, version: &str) -> (r: String)
    ensures
        r@ == canonical_purl(ty@, ns@, name@, version@),
{
    let mut r = family_identifier(ty, ns, name);
    r.append("@");
    r.append(version);
    r
}

/// The link under which a canonical identifier is looked up.
pub fn package_link(purl: &str) -> (r: String)
    ensures
        r@ == purl_link(purl@),
{
    let encoded = encode(purl);
    let mut r = String::from_str("/api/package?purl=");
    r.append(encoded.as_str());
    r
}

/// The identifier that a package link carries, or `None` when the text is
/// not such a link.
pub fn link_identifier(link: &str) -> (r: Option<String>)
    ensures
        forall|purl: Seq<char>| #[trigger] purl_link(purl) == link@ ==> (r matches Some(d) && d@ == purl),
        !link_prefix().is_prefix_of(link@) ==> r is None,
{
    proof {
        reveal_strlit("/api/package?purl=");
    }
    let prefix = String::from_str("/api/package?purl=");
    let len = link.unicode_len();
    if len < 18 {
        proof {
            assert forall|purl: Seq<char>| #[trigger] purl_link(purl) != link@ by {
                assert(purl_link(purl).len() >= 18);
            }
        }
        return None;
    }
    let head = String::from_str(link.substring_char(0, 18));
    if !(head == prefix) {
        proof {
            assert forall|purl: Seq<char>| #[trigger] purl_link(purl) != link@ by {
                if purl_link(purl) == link@ {
                    assert(link@.subrange(0, 18) =~= link_prefix());
                }
            }
        }
        return None;
    }
    let tail = link.substring_char(18, len);
    let r = decode(tail);
    proof {
        assert forall|purl: Seq<char>| #[trigger] purl_link(purl) == link@ implies (r matches Some(
            d,
        ) && d@ == purl) by {
            assert(link@.subrange(18, len as int) =~= url_encoded(purl));
        }
        assert(link_prefix().is_prefix_of(link@)) by {
            assert(link@.subrange(0, 18) =~= link_prefix());
        }
    }
    r
}

} // verus!

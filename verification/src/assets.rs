//! Installer selection among a release's assets.
//!
//! The selector matches on lowercased display names in two passes:
//! first an asset carrying the product token that ends with the
//! installer suffix and is not a portable build, then any non-portable
//! asset with the installer suffix.  The first match of a pass wins,
//! so the order of the asset list is significant.

use vstd::prelude::*;
use crate::text::contains_sub;
use crate::text::ends_with;
use crate::text::str_contains;
use crate::text::str_ends_with;

verus! {

/// A downloadable release artifact: a display name and a direct
/// download URL, both opaque strings.
#[derive(Debug)]
pub struct Asset {
    pub name: String,
    pub url: String,
}

/// The mathematical shape of an asset.
pub struct AssetView {
    pub name: Seq<char>,
    pub url: Seq<char>,
}

impl View for Asset {
    type V = AssetView;

    open spec fn view(&self) -> AssetView {
        AssetView { name: self.name@, url: self.url@ }
    }
}

impl DeepView for Asset {
    type V = AssetView;

    open spec fn deep_view(&self) -> AssetView {
        self@
    }
}

/// The lowercase form of a string, a function of its characters alone.
pub uninterp spec fn lower_of(s: Seq<char>) -> Seq<char>;

/// Relies on `str::to_lowercase`: the Unicode lowercase form of `s`,
/// which depends on the characters of `s` alone.
#[verifier::external_body]
fn to_lower(s: &str) -> (r: String)
    ensures
        r@ == lower_of(s@),
{
    s.to_lowercase()
}

/// True exactly when the asset name, lowercased, ends with the
/// installer suffix and is not marked portable.
pub open spec fn installer_name(n: Seq<char>) -> bool {
    ends_with(lower_of(n), ".exe"@) && !contains_sub(lower_of(n), "portable"@)
}

/// True exactly when the asset name also carries the product token:
/// the preferred kind of installer.
pub open spec fn preferred_name(n: Seq<char>) -> bool {
    contains_sub(lower_of(n), "quickrun"@) && installer_name(n)
}

/// The URL of the first asset whose name is a preferred installer
/// name.
pub open spec fn first_preferred(assets: Seq<AssetView>) -> Option<Seq<char>>
    decreases assets.len(),
{
    if assets.len() == 0 {
        None
    } else if preferred_name(assets[0].name) {
        Some(assets[0].url)
    } else {
        first_preferred(assets.drop_first())
    }
}

/// The URL of the first asset whose name is an installer name at all.
pub open spec fn first_installer(assets: Seq<AssetView>) -> Option<Seq<char>>
    decreases assets.len(),
{
    if assets.len() == 0 {
        None
    } else if installer_name(assets[0].name) {
        Some(assets[0].url)
    } else {
        first_installer(assets.drop_first())
    }
}

/// The installer the selector picks: the first preferred asset when
/// one exists, else the first installer asset, else none.
pub open spec fn selected_installer(assets: Seq<AssetView>) -> Option<Seq<char>> {
    if first_preferred(assets) is Some {
        first_preferred(assets)
    } else {
        first_installer(assets)
    }
}

/// Scanning past non-preferred assets does not change the first
/// preferred one.
proof fn lemma_first_preferred_skip(assets: Seq<AssetView>, i: int)
    requires
        0 <= i <= assets.len(),
        forall|j: int| 0 <= j < i ==> !preferred_name(assets[j].name),
    ensures
        first_preferred(assets) == first_preferred(assets.skip(i)),
    decreases i,
{
    if i > 0 {
        assert(assets.skip(1) =~= assets.drop_first());
        lemma_first_preferred_skip(assets.drop_first(), i - 1);
        assert(assets.drop_first().skip(i - 1) =~= assets.skip(i));
    } else {
        assert(assets.skip(0) =~= assets);
    }
}

/// Scanning past non-installer assets does not change the first
/// installer.
proof fn lemma_first_installer_skip(assets: Seq<AssetView>, i: int)
    requires
        0 <= i <= assets.len(),
        forall|j: int| 0 <= j < i ==> !installer_name(assets[j].name),
    ensures
        first_installer(assets) == first_installer(assets.skip(i)),
    decreases i,
{
    if i > 0 {
        assert(assets.skip(1) =~= assets.drop_first());
        lemma_first_installer_skip(assets.drop_first(), i - 1);
        assert(assets.drop_first().skip(i - 1) =~= assets.skip(i));
    } else {
        assert(assets.skip(0) =~= assets);
    }
}

/// Decide whether one asset name is an installer name, and whether it
/// is preferred.
fn classify_name(name: &str) -> (r: (bool, bool))
    ensures
        r.0 == installer_name(name@),
        r.1 == preferred_name(name@),
{
    let low = to_lower(name);
    let is_installer = str_ends_with(low.as_str(), ".exe") && !str_contains(
        low.as_str(),
        "portable",
    );
    let is_preferred = is_installer && str_contains(low.as_str(), "quickrun");
    (is_installer, is_preferred)
}

/// Pick the installer download URL from a release's asset list, or
/// `None` when no asset looks like an installer.
pub fn find_installer_asset(assets: &Vec<Asset>) -> (r: Option<String>)
    ensures
        r matches Some(u) ==> selected_installer(assets.deep_view()) == Some(u@),
        r is None ==> selected_installer(assets.deep_view()) is None,
{
    let ghost av = assets.deep_view();
    let n = assets.len();
    for i in 0..n
        invariant
            av == assets.deep_view(),
            n == assets@.len(),
            forall|j: int| 0 <= j < i ==> !preferred_name(av[j].name),
    {
        proof {
            assert(av[i as int] == assets@[i as int].deep_view());
        }
        let (_, is_preferred) = classify_name(assets[i].name.as_str());
        if is_preferred {
            proof {
                lemma_first_preferred_skip(av, i as int);
                assert(av.skip(i as int)[0] == av[i as int]);
            }
            return Some(assets[i].url.clone());
        }
    }
    proof {
        lemma_first_preferred_skip(av, n as int);
    }
    for i in 0..n
        invariant
            av == assets.deep_view(),
            n == assets@.len(),
            first_preferred(av) is None,
            forall|j: int| 0 <= j < i ==> !installer_name(av[j].name),
    {
        proof {
            assert(av[i as int] == assets@[i as int].deep_view());
        }
        let (is_installer, _) = classify_name(assets[i].name.as_str());
        if is_installer {
            proof {
                lemma_first_installer_skip(av, i as int);
                assert(av.skip(i as int)[0] == av[i as int]);
            }
            return Some(assets[i].url.clone());
        }
    }
    proof {
        lemma_first_installer_skip(av, n as int);
    }
    None
}

} // verus!

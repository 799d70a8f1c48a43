//! Choosing the release that an update notice points to.

use vstd::prelude::*;

verus! {

/// A downloadable file of a release.
pub struct Asset {
    pub name: String,
    pub browser_download_url: String,
}

/// A published release of the application.
pub struct Release {
    pub html_url: String,
    /// When it was published, in nanoseconds since the Unix epoch (UTC)
    pub published_at_nanos: Option<i128>,
    pub tag_name: String,
    pub name: String,
    pub draft: bool,
    pub prerelease: bool,
    pub assets: Vec<Asset>,
}

/// A release that users may be offered: neither a draft nor a prerelease.
pub open spec fn is_offerable(r: Release) -> bool {
    !r.draft && !r.prerelease
}

/// The first offerable release of the list (the newest, as the list comes
/// newest first), if any.
pub fn latest_valid_release(releases: &Vec<Release>) -> (r: Option<usize>)
    ensures
        match r {
            Some(i) => i < releases@.len() && is_offerable(releases@[i as int]) && forall|q: int|
                0 <= q < i ==> !is_offerable(#[trigger] releases@[q]),
            None => forall|q: int| 0 <= q < releases@.len() ==> !is_offerable(#[trigger] releases@[q]),
        },
{
    let mut i: usize = 0;
    while i < releases.len()
        invariant
            i <= releases@.len(),
            forall|q: int| 0 <= q < i ==> !is_offerable(#[trigger] releases@[q]),
        decreases releases@.len() - i,
    {
        if !releases[i].draft && !releases[i].prerelease {
            return Some(i);
        }
        i += 1;
    }
    None
}

/// The name ends with `.exe`.
pub open spec fn is_installer_name(name: Seq<char>) -> bool {
    seq!['.', 'e', 'x', 'e'].is_suffix_of(name)
}

fn ends_with_exe(name: &str) -> (r: bool)
    ensures
        r == is_installer_name(name@),
{
    let n = name.unicode_len();
    if n < 4 {
        return false;
    }
    let a = name.get_char(n - 4);
    let b = name.get_char(n - 3);
    let c = name.get_char(n - 2);
    let d = name.get_char(n - 1);
    let r = a == '.' && b == 'e' && c == 'x' && d == 'e';
    proof {
        let suffix = name@.subrange(n - 4, n as int);
        if r {
            assert(suffix =~= seq!['.', 'e', 'x', 'e']);
        } else {
            if suffix == seq!['.', 'e', 'x', 'e'] {
                assert(suffix[0] == a && suffix[1] == b && suffix[2] == c && suffix[3] == d);
            }
        }
    }
    r
}

/// Where to download the release from: the first asset whose name ends with
/// `.exe` (the Windows installer), else the release's page.
pub fn installer_url(release: &Release) -> (r: String)
    ensures
        match first_installer(release.assets@) {
            Some(j) => r == release.assets@[j].browser_download_url,
            None => r == release.html_url,
        },
{
    let mut j: usize = 0;
    while j < release.assets.len()
        invariant
            j <= release.assets@.len(),
            forall|q: int| 0 <= q < j ==> !is_installer_name((#[trigger] release.assets@[q]).name@),
        decreases release.assets@.len() - j,
    {
        if ends_with_exe(release.assets[j].name.as_str()) {
            proof {
                lemma_first_installer_at(release.assets@, j as int);
            }
            return release.assets[j].browser_download_url.clone();
        }
        j += 1;
    }
    proof {
        lemma_first_installer_none(release.assets@);
    }
    release.html_url.clone()
}

/// The index of the first asset named like an installer.
pub open spec fn first_installer(assets: Seq<Asset>) -> Option<int>
    decreases assets.len(),
{
    if assets.len() == 0 {
        None
    } else if is_installer_name(assets[0].name@) {
        Some(0)
    } else {
        match first_installer(assets.drop_first()) {
            Some(j) => Some(j + 1),
            None => None,
        }
    }
}

proof fn lemma_first_installer_at(assets: Seq<Asset>, j: int)
    requires
        0 <= j < assets.len(),
        is_installer_name(assets[j].name@),
        forall|q: int| 0 <= q < j ==> !is_installer_name((#[trigger] assets[q]).name@),
    ensures
        first_installer(assets) == Some(j),
    decreases j,
{
    if j > 0 {
        let t = assets.drop_first();
        assert forall|q: int| 0 <= q < j - 1 implies !is_installer_name((#[trigger] t[q]).name@) by {
            assert(t[q] == assets[q + 1]);
        }
        assert(t[j - 1] == assets[j]);
        assert(!is_installer_name(assets[0].name@));
        lemma_first_installer_at(t, j - 1);
    }
}

proof fn lemma_first_installer_none(assets: Seq<Asset>)
    requires
        forall|q: int| 0 <= q < assets.len() ==> !is_installer_name((#[trigger] assets[q]).name@),
    ensures
        first_installer(assets) is None,
    decreases assets.len(),
{
    if assets.len() > 0 {
        let t = assets.drop_first();
        assert forall|q: int| 0 <= q < t.len() implies !is_installer_name((#[trigger] t[q]).name@) by {
            assert(t[q] == assets[q + 1]);
        }
        assert(!is_installer_name(assets[0].name@));
        lemma_first_installer_none(t);
    }
}

} // verus!

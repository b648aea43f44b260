//! Deciding, from the latest published release, whether to offer an update.
use vstd::prelude::*;

use crate::strings::{chars_of, contains_chars, contains_text, string_of};
use crate::version::{compare_versions, compare_versions_spec};

verus! {

/// One downloadable file of a release, as the release listing gives it.
pub struct ReleaseAsset {
    pub name: Option<String>,
    pub browser_download_url: Option<String>,
}

/// The fields of the latest release that the update check reads; a field
/// that is absent, or not a string (not a list, for `assets`), is `None`.
pub struct ReleaseInfo {
    pub tag_name: Option<String>,
    pub body: Option<String>,
    pub assets: Option<Vec<ReleaseAsset>>,
}

/// An update to offer: the version, the release notes and the address of
/// the installer.
pub struct UpdateOffer {
    pub version: String,
    pub body: String,
    pub download_url: String,
}

pub open spec fn text_or_empty(s: Option<String>) -> Seq<char> {
    match s {
        Some(t) => t@,
        None => Seq::empty(),
    }
}

/// `s` without the `v` characters at its start (`trim_start_matches('v')`).
pub open spec fn without_leading_v(s: Seq<char>) -> Seq<char>
    decreases s.len(),
{
    if s.len() > 0 && s[0] == 'v' {
        without_leading_v(s.drop_first())
    } else {
        s
    }
}

pub open spec fn setup_marker() -> Seq<char> {
    seq!['S', 'e', 't', 'u', 'p']
}

/// Whether the asset's name (empty where it has none) contains `Setup`.
pub open spec fn is_installer(a: ReleaseAsset) -> bool {
    contains_text(text_or_empty(a.name), setup_marker())
}

/// The first asset that is an installer, if any.
pub open spec fn first_installer(assets: Seq<ReleaseAsset>) -> Option<int> {
    if exists|i: int| 0 <= i < assets.len() && is_installer(#[trigger] assets[i]) {
        Some(
            choose|i: int|
                0 <= i < assets.len() && is_installer(#[trigger] assets[i]) && forall|j: int|
                    0 <= j < i ==> !is_installer(#[trigger] assets[j]),
        )
    } else {
        None
    }
}

/// The installer address: that of the first asset whose name contains
/// `Setup`, empty where there is no such asset or it has no address.
pub open spec fn installer_url(info: ReleaseInfo) -> Seq<char> {
    match info.assets {
        Some(assets) => match first_installer(assets@) {
            Some(i) => text_or_empty(assets@[i].browser_download_url),
            None => Seq::empty(),
        },
        None => Seq::empty(),
    }
}

/// The version that the release announces: its tag without leading `v`s.
pub open spec fn release_version(info: ReleaseInfo) -> Seq<char> {
    without_leading_v(text_or_empty(info.tag_name))
}

/// The tag without its leading `v`s.
pub fn strip_leading_v(s: &str) -> (out: String)
    ensures
        out@ == without_leading_v(s@),
{
    let cs = chars_of(s);
    let mut i: usize = 0;
    assert(cs@.skip(0) =~= cs@);
    while i < cs.len() && cs[i] == 'v'
        invariant
            i <= cs.len(),
            without_leading_v(cs@) == without_leading_v(cs@.skip(i as int)),
        decreases cs.len() - i,
    {
        assert(cs@.skip(i as int)[0] == 'v');
        assert(cs@.skip(i as int).drop_first() =~= cs@.skip(i + 1));
        i += 1;
    }
    if i < cs.len() {
        assert(cs@.skip(i as int)[0] == cs@[i as int]);
    }
    assert(without_leading_v(cs@.skip(i as int)) == cs@.skip(i as int));
    let rest = cs.as_slice().split_at(i).1;
    assert(rest@ =~= cs@.skip(i as int));
    string_of(rest)
}

fn clone_or_empty(s: &Option<String>) -> (out: String)
    ensures
        out@ == text_or_empty(*s),
{
    match s {
        Some(t) => t.clone(),
        None => String::new(),
    }
}

fn asset_is_installer(a: &ReleaseAsset) -> (b: bool)
    ensures
        b == is_installer(*a),
{
    let name = clone_or_empty(&a.name);
    let hay = chars_of(name.as_str());
    let marker: [char; 5] = ['S', 'e', 't', 'u', 'p'];
    assert(marker@ =~= setup_marker());
    contains_chars(hay.as_slice(), &marker)
}

/// The installer address of a release (see `installer_url`).
pub fn find_installer_url(info: &ReleaseInfo) -> (out: String)
    ensures
        out@ == installer_url(*info),
{
    match &info.assets {
        None => String::new(),
        Some(assets) => {
            let mut i: usize = 0;
            while i < assets.len()
                invariant
                    i <= assets.len(),
                    info.assets == Some(*assets),
                    forall|j: int| 0 <= j < i ==> !is_installer(#[trigger] assets@[j]),
                decreases assets.len() - i,
            {
                if asset_is_installer(&assets[i]) {
                    proof {
                        let k = first_installer(assets@);
                        assert(is_installer(assets@[i as int]));
                        assert(exists|c: int|
                            0 <= c < assets@.len() && is_installer(#[trigger] assets@[c])
                                && forall|j: int| 0 <= j < c ==> !is_installer(#[trigger] assets@[j]));
                        let c = choose|c: int|
                            0 <= c < assets@.len() && is_installer(#[trigger] assets@[c])
                                && forall|j: int| 0 <= j < c ==> !is_installer(#[trigger] assets@[j]);
                        if c < i {
                        } else if c > i {
                            assert(!is_installer(assets@[i as int]));
                        }
                        assert(k == Some(i as int));
                    }
                    return clone_or_empty(&assets[i].browser_download_url);
                }
                i += 1;
            }
            assert(first_installer(assets@) is None);
            String::new()
        },
    }
}

/// What the update check offers for the latest release: `Some` exactly
/// when the release's version is later than `current_version`, with that
/// version, the release notes (empty where absent) and the installer
/// address (see `installer_url`).
pub fn check_release(info: &ReleaseInfo, current_version: &str) -> (out: Option<UpdateOffer>)
    ensures
        out is Some <==> compare_versions_spec(release_version(*info), current_version@) > 0,
        out matches Some(offer) ==> {
            &&& offer.version@ == release_version(*info)
            &&& offer.body@ == text_or_empty(info.body)
            &&& offer.download_url@ == installer_url(*info)
        },
{
    let tag = clone_or_empty(&info.tag_name);
    let version = strip_leading_v(tag.as_str());
    let body = clone_or_empty(&info.body);
    let download_url = find_installer_url(info);
    if compare_versions(version.as_str(), current_version) > 0 {
        Some(UpdateOffer { version, body, download_url })
    } else {
        None
    }
}

} // verus!

//! Update discovery and installation decisions.
//!
//! The surrounding application fetches the latest-release description
//! and reports the outcome here; this module reduces it to an update
//! summary — derived version, availability, notes, installer choice —
//! and decides how an update is installed.  A missing release (the
//! not-found response) is no error: it reads as "no update available".

use vstd::prelude::*;
use crate::assets::Asset;
use crate::assets::find_installer_asset;
use crate::assets::selected_installer;
use crate::text::split_chars;
use crate::text::split_list;
use crate::version::compare_versions;
use crate::version::compare_versions_spec;

verus! {

/// The user-facing summary of an update check.  Built fresh on every
/// check and never persisted.
#[derive(Debug, Clone)]
pub struct UpdateInfo {
    /// Whether the latest release is newer than the running version.
    pub available: bool,
    /// The latest version, as derived from the release tag.
    pub version: String,
    /// Release notes, empty when the release carries none.
    pub body: String,
    /// The version the check was made against.
    pub current_version: String,
    /// The release's canonical web page.
    pub release_url: String,
    /// Direct download URL of the chosen installer, when one matched.
    pub installer_url: Option<String>,
}

/// The mathematical shape of an update summary.
pub struct UpdateInfoView {
    pub available: bool,
    pub version: Seq<char>,
    pub body: Seq<char>,
    pub current_version: Seq<char>,
    pub release_url: Seq<char>,
    pub installer_url: Option<Seq<char>>,
}

impl View for UpdateInfo {
    type V = UpdateInfoView;

    open spec fn view(&self) -> UpdateInfoView {
        UpdateInfoView {
            available: self.available,
            version: self.version@,
            body: self.body@,
            current_version: self.current_version@,
            release_url: self.release_url@,
            installer_url: match self.installer_url {
                Some(u) => Some(u@),
                None => None,
            },
        }
    }
}

/// The latest release as the release host describes it: raw tag,
/// optional notes body, canonical web URL, and the ordered asset list.
#[derive(Debug)]
pub struct ReleaseInfo {
    pub tag_name: String,
    pub body: Option<String>,
    pub html_url: String,
    pub assets: Vec<Asset>,
}

/// A non-success answer from the release API, other than not-found:
/// the status and the response body, carried verbatim.
#[derive(Debug)]
pub struct ApiError {
    pub status: u16,
    pub body: String,
}

/// What fetching the latest-release description came to.
#[derive(Debug)]
pub enum FetchOutcome {
    /// A successful response, already decoded.
    Release(ReleaseInfo),
    /// The not-found answer: no release has been published.
    NotFound,
    /// Any other non-success answer.
    HttpError(ApiError),
}

/// The version a release tag stands for: the tag with a single
/// leading version marker stripped, when one is present.
pub open spec fn derived_version(tag: Seq<char>) -> Seq<char> {
    if tag.len() > 0 && tag[0] == 'v' {
        tag.drop_first()
    } else {
        tag
    }
}

/// Strip the optional leading version marker from a release tag.
pub fn derive_version(tag: &str) -> (r: String)
    ensures
        r@ == derived_version(tag@),
{
    let n = tag.unicode_len();
    if n > 0 && tag.get_char(0) == 'v' {
        let rest = tag.substring_char(1, n);
        proof {
            assert(rest@ =~= tag@.drop_first());
        }
        String::from_str(rest)
    } else {
        tag.to_owned()
    }
}

/// The notes body of a release, defaulting to empty when absent.
pub open spec fn release_body_view(b: Option<String>) -> Seq<char> {
    match b {
        Some(s) => s@,
        None => Seq::empty(),
    }
}

/// The summary a successful fetch reduces to.
pub open spec fn info_for_release(current: Seq<char>, rel: ReleaseInfo) -> UpdateInfoView {
    UpdateInfoView {
        available: compare_versions_spec(derived_version(rel.tag_name@), current) > 0,
        version: derived_version(rel.tag_name@),
        body: release_body_view(rel.body),
        current_version: current,
        release_url: rel.html_url@,
        installer_url: selected_installer(rel.assets.deep_view()),
    }
}

/// The summary a not-found answer reduces to: no update, the current
/// version on both sides, and the releases page as the only link.
pub open spec fn info_for_no_release(current: Seq<char>) -> UpdateInfoView {
    UpdateInfoView {
        available: false,
        version: current,
        body: Seq::empty(),
        current_version: current,
        release_url: "https://github.com/Swatto86/QuickRun/releases"@,
        installer_url: None,
    }
}

/// What an update check answers for each fetch outcome.
pub open spec fn check_spec(current: Seq<char>, outcome: FetchOutcome) -> Result<
    UpdateInfoView,
    (u16, Seq<char>),
> {
    match outcome {
        FetchOutcome::Release(rel) => Ok(info_for_release(current, rel)),
        FetchOutcome::NotFound => Ok(info_for_no_release(current)),
        FetchOutcome::HttpError(e) => Err((e.status, e.body@)),
    }
}

/// Reduce a fetch outcome to the update summary.  A not-found answer
/// is success with no update on offer; only another non-success
/// answer is an error, carrying its status and body.
pub fn check_for_update_impl(current_version: &str, outcome: FetchOutcome) -> (r: Result<
    UpdateInfo,
    ApiError,
>)
    ensures
        r matches Ok(u) ==> check_spec(current_version@, outcome) matches Ok(v) && u@ == v,
        r matches Err(e) ==> check_spec(current_version@, outcome) matches Err(v) && v == (
        e.status,
        e.body@,
        ),
{
    match outcome {
        FetchOutcome::NotFound => Ok(
            UpdateInfo {
                available: false,
                version: String::from_str(current_version),
                body: String::new(),
                current_version: String::from_str(current_version),
                release_url: String::from_str("https://github.com/Swatto86/QuickRun/releases"),
                installer_url: None,
            },
        ),
        FetchOutcome::HttpError(e) => Err(e),
        FetchOutcome::Release(rel) => {
            let derived = derive_version(rel.tag_name.as_str());
            let newer = compare_versions(derived.as_str(), current_version) > 0;
            let installer_url = find_installer_asset(&rel.assets);
            let body = match rel.body {
                Some(b) => b,
                None => String::new(),
            };
            Ok(
                UpdateInfo {
                    available: newer,
                    version: derived,
                    body,
                    current_version: String::from_str(current_version),
                    release_url: rel.html_url,
                    installer_url,
                },
            )
        },
    }
}

/// An update check is a function of the running version and the
/// fetched outcome alone: two checks against an unchanged release
/// description answer identically.
pub proof fn lemma_check_idempotent(
    current: Seq<char>,
    outcome: FetchOutcome,
    r1: Result<UpdateInfoView, (u16, Seq<char>)>,
    r2: Result<UpdateInfoView, (u16, Seq<char>)>,
)
    requires
        r1 == check_spec(current, outcome),
        r2 == check_spec(current, outcome),
    ensures
        r1 == r2,
{
}

/// The file name an installer download is stored under: the final
/// path segment of its URL, or a fixed default when that segment is
/// empty.
pub open spec fn installer_filename_spec(url: Seq<char>) -> Seq<char> {
    let seg = split_chars(url, '/').last();
    if seg.len() == 0 {
        "quickrun-setup.exe"@
    } else {
        seg
    }
}

/// Pick the file name for a downloaded installer from its URL.
pub fn installer_filename(url: &str) -> (r: String)
    ensures
        r@ == installer_filename_spec(url@),
{
    let parts = split_list(url, '/');
    let last = parts.len() - 1;
    proof {
        assert(parts.deep_view()[last as int] == parts@[last as int]@);
    }
    if parts[last].as_str().is_empty() {
        String::from_str("quickrun-setup.exe")
    } else {
        parts[last].clone()
    }
}

/// How an update is installed.
#[derive(Debug)]
pub enum InstallPlan {
    /// Download the installer to temporary storage under the given
    /// file name, then launch it detached.
    RunInstaller { url: String, filename: String },
    /// Open the release page in the default handler.  Also the
    /// fallback when downloading or launching the installer fails.
    OpenBrowser { url: String },
}

/// Decide how to install an update: fetch and launch the installer
/// when a direct URL is known, otherwise open the release page.
pub fn plan_install(info: &UpdateInfo) -> (r: InstallPlan)
    ensures
        info.installer_url matches Some(u) ==> (r matches InstallPlan::RunInstaller {
            url,
            filename,
        } && url@ == u@ && filename@ == installer_filename_spec(u@)),
        info.installer_url is None ==> (r matches InstallPlan::OpenBrowser { url } && url@
            == info.release_url@),
{
    match &info.installer_url {
        Some(u) => InstallPlan::RunInstaller {
            url: u.clone(),
            filename: installer_filename(u.as_str()),
        },
        None => InstallPlan::OpenBrowser { url: info.release_url.clone() },
    }
}

/// What follows a failed install step: a failed installer download or
/// launch falls back, once, to opening the release page; a failed
/// browser open is final, with no third fallback.
pub fn next_install_step(info: &UpdateInfo, failed: &InstallPlan) -> (r: Option<InstallPlan>)
    ensures
        failed matches InstallPlan::RunInstaller { .. } ==> (r matches Some(p) && p matches
            InstallPlan::OpenBrowser { url } && url@ == info.release_url@),
        failed matches InstallPlan::OpenBrowser { .. } ==> r is None,
{
    match failed {
        InstallPlan::RunInstaller { .. } => Some(
            InstallPlan::OpenBrowser { url: info.release_url.clone() },
        ),
        InstallPlan::OpenBrowser { .. } => None,
    }
}

} // verus!

use vstd::prelude::*;

use crate::notifications::Notice;

verus! {

/// What a check of the release feed found.
#[derive(Debug, Clone, Copy, PartialEq, Eq, Structural)]
pub enum UpdateCheckStatus {
    /// The feed holds no release.
    RemoteIsEmpty,
    /// No release is newer than the running version.
    NoUpdateAvailable,
    /// A newer release exists.
    UpdateAvailable,
    /// The check itself failed.
    CheckFailed,
}

/// The URL of a GitHub repository `owner/name`, from which releases are fetched.
pub open spec fn repo_url(repo: Seq<char>) -> Seq<char> {
    "https://github.com/"@ + repo
}

/// The URL of the GitHub repository `owner/name`.
pub fn github_repo_url(repo: &str) -> (r: String)
    ensures
        r@ == repo_url(repo@),
{
    let base = String::from_str("https://github.com/");
    base.concat(repo)
}

/// Where to look for updates, given the configured repository (the value of the
/// `HYPNOS_GITHUB_REPO` setting, if set): no repository, or an empty one, means
/// update checks are skipped.
pub fn configured_repo_url(repo: Option<String>) -> (r: Option<String>)
    ensures
        match repo {
            Some(name) if name@.len() > 0 => r matches Some(url) && url@ == repo_url(name@),
            _ => r is None,
        },
{
    match repo {
        Some(name) => {
            if name.as_str().unicode_len() == 0 {
                None
            } else {
                Some(github_repo_url(name.as_str()))
            }
        },
        None => None,
    }
}

/// Whether a check's finding calls for downloading: only a newer release does. A
/// failed check counts as "nothing to download", not as an error.
pub fn should_download(status: UpdateCheckStatus) -> (r: bool)
    ensures
        r <==> status == UpdateCheckStatus::UpdateAvailable,
{
    match status {
        UpdateCheckStatus::UpdateAvailable => true,
        _ => false,
    }
}

/// The notification to show after checking for and downloading an update:
/// `Ok(true)` means one was downloaded, `Ok(false)` that there was none, and an
/// error that checking or downloading failed.
pub fn check_and_download_notify(result: Result<bool, String>) -> (n: Notice)
    ensures
        n == match result {
            Ok(true) => Notice::UpdateDownloaded,
            Ok(false) => Notice::UpToDate,
            Err(_) => Notice::UpdateCheckFailed,
        },
{
    match result {
        Ok(true) => Notice::UpdateDownloaded,
        Ok(false) => Notice::UpToDate,
        Err(_) => Notice::UpdateCheckFailed,
    }
}

/// The repository URL is the 19-character prefix `https://github.com/` followed by
/// the whole repository name, whatever its length.
pub proof fn law_repo_url_keeps_whole_name(repo: Seq<char>)
    ensures
        repo_url(repo).len() == 19 + repo.len(),
        repo_url(repo).skip(19) == repo,
        repo_url(repo).take(19) == seq![
            'h', 't', 't', 'p', 's', ':', '/', '/', 'g', 'i', 't', 'h', 'u', 'b', '.', 'c', 'o',
            'm', '/',
        ],
{
    reveal_strlit("https://github.com/");
    assert(repo_url(repo).skip(19) =~= repo);
    assert(repo_url(repo).take(19) =~= "https://github.com/"@);
}

/// Different repositories give different URLs.
pub proof fn law_repo_url_injective(a: Seq<char>, b: Seq<char>)
    requires
        repo_url(a) == repo_url(b),
    ensures
        a == b,
{
    law_repo_url_keeps_whole_name(a);
    law_repo_url_keeps_whole_name(b);
}

} // verus!

//! Data and decisions of the self-update flow: the coordinates of a
//! released binary, the shape of the release metadata, and the choices the
//! flow makes — which URL to fetch, which asset to download, whether a
//! download response is acceptable. The fetching, downloading and
//! executable replacement themselves are sequential I/O performed by the
//! embedding application; on success it triggers a process-replacement
//! restart (see `lifecycle`).

use vstd::prelude::*;
use vstd::string::StringExecFns;

verus! {

/// Where to look for the latest released binary.
pub struct GithubUpdater {
    pub repo: String,
    pub owner: String,
    pub token: Option<String>,
    pub app_name: String,
}

/// Release metadata: the release name and its downloadable assets.
pub struct ApiResponse {
    pub name: String,
    pub assets: Vec<ApiResponseAsset>,
}

/// One downloadable asset of a release.
pub struct ApiResponseAsset {
    pub name: String,
    pub size: u32,
    pub content_type: String,
    pub url: String,
}

impl GithubUpdater {
    /// The URL of the latest release's metadata for this repository.
    pub fn release_url(&self) -> (r: String)
        ensures
            r@ == "https://api.github.com/repos/"@ + self.owner@ + "/"@ + self.repo@
                + "/releases/latest"@,
    {
        let mut s = "https://api.github.com/repos/".to_owned();
        s.append(self.owner.as_str());
        s.append("/");
        s.append(self.repo.as_str());
        s.append("/releases/latest");
        proof {
            assert(s@ =~= "https://api.github.com/repos/"@ + self.owner@ + "/"@ + self.repo@
                + "/releases/latest"@);
        }
        s
    }
}

/// The authorization header value carrying an access token.
pub fn bearer_value(token: &str) -> (r: String)
    ensures
        r@ == "Bearer "@ + token@,
{
    let mut s = "Bearer ".to_owned();
    s.append(token);
    s
}

/// Whether a download response may be used: only a plain success is —
/// anything else aborts the update rather than silently installing an
/// error page.
pub fn download_acceptable(status: u16) -> (r: bool)
    ensures
        r == (status == 200),
{
    status == 200
}

impl ApiResponse {
    /// The position of the first asset named `name`, if any — the one the
    /// update downloads.
    pub fn find_asset(&self, name: &str) -> (r: Option<usize>)
        ensures
            match r {
                Some(i) => i < self.assets@.len() && self.assets@[i as int].name@ == name@
                    && forall|j: int| 0 <= j < i ==> (#[trigger] self.assets@[j]).name@ != name@,
                None => forall|j: int|
                    0 <= j < self.assets@.len() ==> (#[trigger] self.assets@[j]).name@ != name@,
            },
    {
        let n = self.assets.len();
        let mut i: usize = 0;
        while i < n
            invariant
                i <= n,
                n == self.assets@.len(),
                forall|j: int| 0 <= j < i ==> (#[trigger] self.assets@[j]).name@ != name@,
            decreases n - i,
        {
            if crate::os::str_eq(self.assets[i].name.as_str(), name) {
                return Some(i);
            }
            i = i + 1;
        }
        None
    }
}

} // verus!

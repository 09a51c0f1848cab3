//! Resolution of an application's file locations: a file may live beside
//! the program (current directory) or under the platform's per-user
//! configuration directory, in a subdirectory named after the application.
//! Paths are handled as plain `/`-separated strings.

use vstd::prelude::*;
use vstd::string::StringExecFns;

verus! {

/// Relies on `dirs::config_dir`: the platform's per-user configuration
/// directory, when the platform defines one, rendered as a string. The
/// result depends on the environment, so nothing is promised of it.
#[verifier::external_body]
fn config_base() -> (r: Option<String>) {
    dirs::config_dir().map(|p| p.to_string_lossy().to_string())
}

/// Relies on `std::path::Path::exists`: whether the path points at an
/// entity that exists on disk right now. The result depends on the
/// filesystem, so nothing is promised of it.
#[verifier::external_body]
fn path_exists(p: &str) -> (r: bool) {
    std::path::Path::new(p).exists()
}

/// `a`, a path separator, then `b`.
pub open spec fn spec_join(a: Seq<char>, b: Seq<char>) -> Seq<char> {
    a + seq!['/'] + b
}

/// Joins two path fragments with a separator.
fn join_path(a: &str, b: &str) -> (r: String)
    ensures
        r@ == spec_join(a@, b@),
{
    let mut s = a.to_owned();
    s.append("/");
    s.append(b);
    proof {
        reveal_strlit("/");
        assert(s@ =~= spec_join(a@, b@));
    }
    s
}

/// A generalized location for an application's files: the application's
/// name (which names its configuration subdirectory) and a resolved path.
#[derive(Debug, Clone)]
pub struct Sysdir {
    app_name: String,
    path: String,
}

impl Sysdir {
    /// The application name used for the configuration subdirectory.
    pub closed spec fn app_name(self) -> Seq<char> {
        self.app_name@
    }

    /// The resolved path.
    pub closed spec fn path(self) -> Seq<char> {
        self.path@
    }

    /// A resolver for the given application name, with no path resolved
    /// yet.
    pub fn custom_name(app_name: &str) -> (r: Self)
        ensures
            r.app_name() == app_name@,
            r.path() == Seq::<char>::empty(),
    {
        Sysdir { app_name: app_name.to_owned(), path: String::new() }
    }

    /// The path of `file` directly under the current directory.
    pub fn current_dir(&self, file: &str) -> (r: Self)
        ensures
            r.app_name() == self.app_name(),
            r.path() == spec_join(seq!['.'], file@),
    {
        let p = join_path(".", file);
        proof {
            reveal_strlit(".");
            assert(p@ =~= spec_join(seq!['.'], file@));
        }
        Sysdir { app_name: self.app_name.clone(), path: p }
    }

    /// The path of `file` under `base` and the application's
    /// subdirectory.
    fn sys_path(&self, base: &str, file: &str) -> (r: Self)
        ensures
            r.app_name() == self.app_name(),
            r.path() == spec_join(spec_join(base@, self.app_name()), file@),
    {
        let under_app = join_path(base, self.app_name.as_str());
        let p = join_path(under_app.as_str(), file);
        Sysdir { app_name: self.app_name.clone(), path: p }
    }

    /// The path of `file` under the platform's configuration directory and
    /// the application's subdirectory. On a platform that defines no
    /// configuration directory, the current directory stands in as the
    /// base rather than failing.
    pub fn config_dir(&self, file: &str) -> (r: Self)
        ensures
            r.app_name() == self.app_name(),
            exists|base: Seq<char>|
                r.path() == spec_join(#[trigger] spec_join(base, self.app_name()), file@),
    {
        let base = match config_base() {
            Some(b) => b,
            None => ".".to_owned(),
        };
        self.sys_path(base.as_str(), file)
    }

    /// Picks between the two candidate locations of a file from their
    /// liveness on disk: the current-directory candidate wins when it
    /// exists, the configuration-directory one is next, and `None` means
    /// the file was found in neither place.
    pub fn choose_found(cur: Sysdir, sys: Sysdir, cur_exists: bool, sys_exists: bool) -> (r:
        Option<Sysdir>)
        ensures
            cur_exists ==> r == Some(cur),
            !cur_exists && sys_exists ==> r == Some(sys),
            !cur_exists && !sys_exists ==> r is None,
    {
        if cur_exists {
            Some(cur)
        } else if sys_exists {
            Some(sys)
        } else {
            None
        }
    }

    /// Looks for `file` beside the program first, then under the
    /// configuration directory (see `choose_found` for the choice). `None`
    /// when it exists in neither place.
    pub fn find_path(&self, file: &str) -> (r: Option<Self>)
        ensures
            r matches Some(x) ==> x.app_name() == self.app_name() && (x.path() == spec_join(
                seq!['.'],
                file@,
            ) || exists|base: Seq<char>|
                x.path() == spec_join(#[trigger] spec_join(base, self.app_name()), file@)),
    {
        let cur = self.current_dir(file);
        let sys = self.config_dir(file);
        let cur_exists = path_exists(cur.path.as_str());
        let sys_exists = path_exists(sys.path.as_str());
        Self::choose_found(cur, sys, cur_exists, sys_exists)
    }

    /// The resolved path, for display and for handing to the platform.
    pub fn path_string(&self) -> (r: String)
        ensures
            r@ == self.path(),
    {
        self.path.clone()
    }
}

impl Default for Sysdir {
    /// A resolver named after this crate, with no path resolved yet.
    fn default() -> (r: Self)
        ensures
            r.app_name() == "appflow"@,
            r.path() == Seq::<char>::empty(),
    {
        Sysdir { app_name: "appflow".to_owned(), path: String::new() }
    }
}

} // verus!

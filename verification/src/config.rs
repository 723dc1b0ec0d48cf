//! Shared configuration of the resolver: the workspace root and the ordered
//! list of partial search directories, initialized once from the client's
//! root URI together with the directory list read from the workspace's
//! configuration file.

use vstd::prelude::*;
use vstd::string::StrSliceExecFns;
use vstd::string::StringExecFns;

verus! {

/// Why an initialization attempt left the search path untouched.
#[derive(Clone, Copy, Debug, PartialEq, Eq)]
pub enum ConfigError {
    /// The client provided no usable root URI.
    MissingRootUri,
    /// No directory list could be read from the workspace's configuration
    /// file.
    MissingConfig,
}

/// The configuration values one resolution call runs against: the ordered
/// partial search directories (absolute paths, resolution precedence first
/// to last) and the workspace root, unset until initialized.
#[derive(Clone, Debug)]
pub struct ConfigValues {
    pub partials_dirs: Vec<String>,
    pub workspace_root: Option<String>,
}

/// A consistent snapshot of the configuration, handed to each resolution
/// call; a re-initialization produces a wholly new value.
#[derive(Clone, Debug)]
pub struct Config(pub ConfigValues);

/// Joining a relative path onto a base path: an absolute right-hand side
/// replaces the base; otherwise the two are separated by exactly one `/`.
pub open spec fn spec_path_join(base: Seq<char>, rel: Seq<char>) -> Seq<char> {
    if rel.len() > 0 && rel[0] == '/' {
        rel
    } else if base.len() == 0 {
        rel
    } else if base[base.len() - 1] == '/' {
        base + rel
    } else {
        base + seq!['/'] + rel
    }
}

/// Forms the path of `rel` taken relative to `base`.
pub fn path_join(base: &str, rel: &str) -> (r: String)
    ensures
        r@ == spec_path_join(base@, rel@),
{
    proof {
        reveal_strlit("/");
    }
    if rel.unicode_len() > 0 && rel.get_char(0) == '/' {
        return String::from_str(rel);
    }
    let base_len = base.unicode_len();
    if base_len == 0 {
        return String::from_str(rel);
    }
    let mut joined = String::from_str(base);
    if base.get_char(base_len - 1) != '/' {
        joined.append("/");
        proof {
            assert(joined@ =~= base@ + seq!['/']);
        }
    }
    joined.append(rel);
    proof {
        assert(joined@ =~= spec_path_join(base@, rel@));
    }
    joined
}

impl Default for ConfigValues {
    /// The state before initialization: no workspace root, empty search
    /// path.
    fn default() -> (r: Self)
        ensures
            r.partials_dirs@.len() == 0,
            r.workspace_root is None,
    {
        ConfigValues { partials_dirs: Vec::new(), workspace_root: None }
    }
}

impl Default for Config {
    /// A snapshot of the uninitialized state.
    fn default() -> (r: Self)
        ensures
            r.0.partials_dirs@.len() == 0,
            r.0.workspace_root is None,
    {
        Config(ConfigValues::default())
    }
}

impl ConfigValues {
    /// Applies one initialization: `workspace_root` is the root the client
    /// supplied, already converted to a filesystem path (none when absent or
    /// not convertible); `partials_dirs` is the directory list read from the
    /// configuration file in that root (none when the file is absent or
    /// unreadable as a directory list). Without a root nothing changes; with
    /// a root but no directory list only the root is recorded; otherwise the
    /// search path becomes the listed directories, each taken relative to
    /// the root. A later call overwrites: last write wins.
    pub fn update(&mut self, workspace_root: Option<String>, partials_dirs: Option<Vec<String>>)
        -> (r: Result<(), ConfigError>)
        ensures
            workspace_root is None ==> r == Err::<(), ConfigError>(ConfigError::MissingRootUri)
                && *final(self) == *old(self),
            workspace_root matches Some(root) ==> final(self).workspace_root == Some(root),
            workspace_root is Some && partials_dirs is None ==> r == Err::<(), ConfigError>(
                ConfigError::MissingConfig,
            ) && final(self).partials_dirs == old(self).partials_dirs,
            workspace_root matches Some(root) ==> (partials_dirs matches Some(dirs) ==> r == Ok::<
                (),
                ConfigError,
            >(()) && final(self).partials_dirs@.len() == dirs@.len() && (forall|i: int|
                0 <= i < dirs@.len() ==> final(self).partials_dirs@[i]@ == spec_path_join(
                    root@,
                    dirs@[i]@,
                ))),
    {
        let root = match workspace_root {
            Some(root) => root,
            None => {
                return Err(ConfigError::MissingRootUri);
            },
        };

        let dirs = match partials_dirs {
            Some(dirs) => dirs,
            None => {
                self.workspace_root = Some(root);
                return Err(ConfigError::MissingConfig);
            },
        };

        let mut joined: Vec<String> = Vec::new();
        let mut j: usize = 0;
        while j < dirs.len()
            invariant
                j <= dirs@.len(),
                joined@.len() == j,
                forall|k: int|
                    0 <= k < j ==> joined@[k]@ == spec_path_join(root@, #[trigger] dirs@[k]@),
            decreases dirs@.len() - j,
        {
            joined.push(path_join(root.as_str(), dirs[j].as_str()));
            j += 1;
        }

        self.partials_dirs = joined;
        self.workspace_root = Some(root);
        Ok(())
    }
}

} // verus!

//! The `belt.toml` configuration and the pipeline path it points to.
use vstd::prelude::*;
use crate::text::{path_join, path_join_exec, substring};

verus! {

/// Parsed representation of a `belt.toml` configuration file.
#[derive(Debug)]
pub struct BeltConfig {
    /// Path to the pipeline YAML file, relative to the config file's directory.
    pub pipeline: String,
}

/// `s` without trailing `/` characters.
pub open spec fn trim_end_slash(s: Seq<char>) -> Seq<char>
    decreases s.len(),
{
    if s.len() > 0 && s.last() == '/' {
        trim_end_slash(s.drop_last())
    } else {
        s
    }
}

/// Index of the last `/` in `s`, if any.
pub open spec fn last_slash(s: Seq<char>) -> Option<int>
    decreases s.len(),
{
    if s.len() == 0 {
        None
    } else if s.last() == '/' {
        Some(s.len() - 1)
    } else {
        last_slash(s.drop_last())
    }
}

/// The parent directory of a Unix path, as `Path::parent` gives it for
/// paths without `.` or `..` components: `None` for the empty path and the
/// root, the empty path for a single relative component, the root for a
/// single absolute component, and otherwise everything before the last
/// component (trailing and separating slashes dropped).
pub open spec fn parent_dir(p: Seq<char>) -> Option<Seq<char>> {
    let t = trim_end_slash(p);
    if t.len() == 0 {
        None
    } else {
        match last_slash(t) {
            None => Some(Seq::empty()),
            Some(k) => {
                let head = trim_end_slash(t.subrange(0, k));
                if head.len() == 0 {
                    Some(seq!['/'])
                } else {
                    Some(head)
                }
            },
        }
    }
}

fn trim_end_slash_len(s: &str, n: usize) -> (r: usize)
    requires
        n <= s@.len(),
    ensures
        r <= n,
        trim_end_slash(s@.subrange(0, n as int)) == s@.subrange(0, r as int),
{
    let mut b = n;
    while b > 0 && s.get_char(b - 1) == '/'
        invariant
            b <= n,
            n <= s@.len(),
            trim_end_slash(s@.subrange(0, n as int)) == trim_end_slash(s@.subrange(0, b as int)),
        decreases b,
    {
        assert(s@.subrange(0, b as int).drop_last() =~= s@.subrange(0, b - 1));
        b = b - 1;
    }
    b
}

fn last_slash_in(s: &str, n: usize) -> (r: Option<usize>)
    requires
        n <= s@.len(),
    ensures
        match r {
            Some(k) => last_slash(s@.subrange(0, n as int)) == Some(k as int) && k < n,
            None => last_slash(s@.subrange(0, n as int)) is None,
        },
{
    let mut b = n;
    while b > 0 && s.get_char(b - 1) != '/'
        invariant
            b <= n,
            n <= s@.len(),
            last_slash(s@.subrange(0, n as int)) == last_slash(s@.subrange(0, b as int)),
        decreases b,
    {
        assert(s@.subrange(0, b as int).drop_last() =~= s@.subrange(0, b - 1));
        b = b - 1;
    }
    if b == 0 {
        None
    } else {
        Some(b - 1)
    }
}

/// The parent directory of `p` (see [`parent_dir`]).
pub fn parent_dir_exec(p: &str) -> (r: Option<String>)
    ensures
        match r {
            Some(d) => parent_dir(p@) == Some(d@),
            None => parent_dir(p@) is None,
        },
{
    let n = p.unicode_len();
    let t = trim_end_slash_len(p, n);
    assert(p@.subrange(0, n as int) =~= p@);
    if t == 0 {
        return None;
    }
    match last_slash_in(p, t) {
        None => Some(String::new()),
        Some(k) => {
            let h = trim_end_slash_len(p, k);
            proof {
                assert(p@.subrange(0, t as int).subrange(0, k as int) =~= p@.subrange(0, k as int));
            }
            if h == 0 {
                proof {
                    reveal_strlit("/");
                }
                Some(String::from_str("/"))
            } else {
                Some(substring(p, 0, h))
            }
        },
    }
}

/// The pipeline path a config names: its `pipeline` field joined onto the
/// config file's directory (`.` when that has none). Existence is not checked.
pub open spec fn resolve_pipeline_path_spec(config_path: Seq<char>, pipeline: Seq<char>) -> Seq<char> {
    let base = match parent_dir(config_path) {
        Some(d) => d,
        None => seq!['.'],
    };
    path_join(base, pipeline)
}

/// Resolves the pipeline file path from a config file's location.
pub fn resolve_pipeline_path(config_path: &str, config: &BeltConfig) -> (r: String)
    ensures
        r@ == resolve_pipeline_path_spec(config_path@, config.pipeline@),
{
    let base = match parent_dir_exec(config_path) {
        Some(d) => d,
        None => {
            proof {
                reveal_strlit(".");
            }
            String::from_str(".")
        },
    };
    path_join_exec(base.as_str(), config.pipeline.as_str())
}

/// An absolute pipeline path in the config is used as it is, whatever the
/// config file's location.
pub proof fn law_absolute_pipeline_path_kept(config_path: Seq<char>, pipeline: Seq<char>)
    requires
        pipeline.len() > 0,
        pipeline[0] == '/',
    ensures
        resolve_pipeline_path_spec(config_path, pipeline) == pipeline,
{
}

} // verus!

//! Pre-flight configuration: the owner and repository derived from the
//! configured remote URL, and the token taken from a flag or from the
//! environment. The caller reads the remote URL and the environment; the
//! decisions are made and verified here. A problem at this stage is fatal to
//! the whole run — no upload is attempted after it.

use vstd::prelude::*;
use vstd::string::StrSliceExecFns;
use vstd::string::StringExecFns;

use crate::errors::ConfigurationError;

verus! {

/// `s` split at every occurrence of `sep`: the segments between separators,
/// in order, with an empty segment between adjacent separators and at a
/// leading or trailing separator. Never empty — the whole of `s` is one
/// segment when no separator occurs.
pub open spec fn split_on(s: Seq<char>, sep: char) -> Seq<Seq<char>>
    decreases s.len(),
{
    if s.len() == 0 {
        seq![Seq::<char>::empty()]
    } else {
        let rest = split_on(s.drop_last(), sep);
        if s.last() == sep {
            rest.push(Seq::empty())
        } else {
            rest.update(rest.len() - 1, rest.last().push(s.last()))
        }
    }
}

/// Splitting yields at least one segment.
pub proof fn lemma_split_on_len(s: Seq<char>, sep: char)
    ensures
        split_on(s, sep).len() >= 1,
    decreases s.len(),
{
    if s.len() > 0 {
        lemma_split_on_len(s.drop_last(), sep);
    }
}

/// Splits `s` at every `/`, exactly as [`split_on`] states.
fn split_slash(s: &str) -> (r: Vec<String>)
    ensures
        r@.map_values(|p: String| p@) == split_on(s@, '/'),
{
    let n = s.unicode_len();
    let mut segs: Vec<String> = Vec::new();
    let mut cur = String::new();
    let mut i: usize = 0;
    proof {
        assert(s@.subrange(0, 0) =~= Seq::<char>::empty());
        assert(segs@.map_values(|p: String| p@).push(cur@) =~= split_on(s@.subrange(0, 0), '/'));
    }
    while i < n
        invariant
            i <= n,
            n == s@.len(),
            segs@.map_values(|p: String| p@).push(cur@) == split_on(s@.subrange(0, i as int), '/'),
        decreases n - i,
    {
        let ghost prev = split_on(s@.subrange(0, i as int), '/');
        proof {
            lemma_split_on_len(s@.subrange(0, i as int), '/');
            assert(s@.subrange(0, i + 1).drop_last() =~= s@.subrange(0, i as int));
            assert(s@.subrange(0, i + 1).last() == s@[i as int]);
        }
        let c = s.get_char(i);
        if c == '/' {
            segs.push(cur);
            cur = String::new();
            proof {
                segs@.drop_last().lemma_push_map_commute(|p: String| p@, segs@.last());
                assert(segs@.drop_last().push(segs@.last()) =~= segs@);
                assert(segs@.map_values(|p: String| p@).push(cur@) =~= prev.push(Seq::empty()));
            }
        } else {
            let piece = s.substring_char(i, i + 1);
            proof {
                assert(piece@ =~= seq![s@[i as int]]);
            }
            let ghost cur0 = cur@;
            cur.append(piece);
            proof {
                assert(cur@ =~= cur0.push(s@[i as int]));
                assert(prev.last() == cur0);
                assert(segs@.map_values(|p: String| p@).push(cur@) =~= prev.update(
                    prev.len() - 1,
                    prev.last().push(s@[i as int]),
                ));
            }
        }
        i = i + 1;
    }
    proof {
        assert(s@.subrange(0, n as int) =~= s@);
    }
    segs.push(cur);
    proof {
        segs@.drop_last().lemma_push_map_commute(|p: String| p@, segs@.last());
        assert(segs@.drop_last().push(segs@.last()) =~= segs@);
    }
    segs
}

/// The segment with one trailing `.git` suffix removed, if it carries one.
pub open spec fn strip_dot_git(s: Seq<char>) -> Seq<char> {
    if s.len() >= 4 && s.subrange(s.len() - 4, s.len() as int) == ".git"@ {
        s.subrange(0, s.len() - 4)
    } else {
        s
    }
}

/// Removes one trailing `.git` from `s`, exactly as [`strip_dot_git`] states.
fn remove_dot_git(s: &str) -> (r: String)
    ensures
        r@ == strip_dot_git(s@),
{
    let n = s.unicode_len();
    if n >= 4 {
        proof {
            reveal_strlit(".git");
        }
        if s.get_char(n - 4) == '.' && s.get_char(n - 3) == 'g' && s.get_char(n - 2) == 'i'
            && s.get_char(n - 1) == 't' {
            proof {
                assert(s@.subrange(n - 4, n as int) =~= ".git"@);
            }
            return s.substring_char(0, n - 4).to_owned();
        }
        proof {
            if s@.subrange(n - 4, n as int) == ".git"@ {
                assert(s@.subrange(n - 4, n as int)[0] == s@[n - 4]);
                assert(s@.subrange(n - 4, n as int)[1] == s@[n - 3]);
                assert(s@.subrange(n - 4, n as int)[2] == s@[n - 2]);
                assert(s@.subrange(n - 4, n as int)[3] == s@[n - 1]);
            }
        }
    }
    s.to_owned()
}

/// Derives `(owner, repository)` from the configured remote URL: the fourth
/// and fifth `/`-separated segments, the repository with one trailing `.git`
/// removed — as in `https://<host>/<owner>/<repository>.git`. A URL with too
/// few segments is unreadable: a fatal configuration error.
pub fn parse_remote_url(origin_url: &str) -> (r: Result<(String, String), ConfigurationError>)
    ensures
        split_on(origin_url@, '/').len() > 4 ==> (r matches Ok(p) && p.0@ == split_on(
            origin_url@,
            '/',
        )[3] && p.1@ == strip_dot_git(split_on(origin_url@, '/')[4])),
        split_on(origin_url@, '/').len() <= 4 ==> (r matches Err(e) && e
            == ConfigurationError::UnreadableRemote),
{
    let segs = split_slash(origin_url);
    if segs.len() > 4 {
        let owner = segs[3].clone();
        let repo = remove_dot_git(segs[4].as_str());
        proof {
            assert(segs@.map_values(|p: String| p@)[3] == segs@[3]@);
            assert(segs@.map_values(|p: String| p@)[4] == segs@[4]@);
        }
        Ok((owner, repo))
    } else {
        Err(ConfigurationError::UnreadableRemote)
    }
}

/// Picks the API token: a token given as a flag wins; otherwise the one from
/// the environment is used; with neither, the run stops before any upload
/// with the fatal configuration error for a missing token.
pub fn select_token(flag_token: Option<String>, env_token: Option<String>) -> (r: Result<
    String,
    ConfigurationError,
>)
    ensures
        flag_token matches Some(t) ==> (r matches Ok(rt) && rt == t),
        flag_token is None ==> ((env_token matches Some(t) ==> (r matches Ok(rt) && rt == t))
            && (env_token is None ==> (r matches Err(e) && e
            == ConfigurationError::MissingToken))),
{
    match flag_token {
        Some(t) => Ok(t),
        None => match env_token {
            Some(t) => Ok(t),
            None => Err(ConfigurationError::MissingToken),
        },
    }
}

} // verus!

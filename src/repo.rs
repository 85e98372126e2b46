//! A git repository reference written `url@branch`, as the template
//! comparison harness takes it on its command line.

use vstd::prelude::*;

verus! {

/// `s` has exactly one `@`, at position `k`.
pub open spec fn sole_at(s: Seq<char>, k: int) -> bool {
    &&& 0 <= k < s.len()
    &&& s[k] == '@'
    &&& forall|j: int| 0 <= j < s.len() && j != k ==> s[j] != '@'
}

/// The URL and branch of `url@branch`, where the text holds exactly one `@`.
pub open spec fn parse_repo_spec(s: Seq<char>) -> Option<(Seq<char>, Seq<char>)> {
    if exists|k: int| sole_at(s, k) {
        let k = choose|k: int| sole_at(s, k);
        Some((s.take(k), s.skip(k + 1)))
    } else {
        None
    }
}

/// A git repository and the branch to clone.
#[derive(Debug)]
pub struct GitRepo {
    pub repo_url: String,
    pub repo_branch: String,
}

/// Why a repository reference was refused.
#[derive(Debug)]
pub enum GitRepoError {
    /// The text does not hold exactly one `@`.
    InvalidGitRepo,
}

impl GitRepo {
    /// Reads `url@branch`; refused unless the text holds exactly one `@`.
    pub fn parse(s: &str) -> (r: Result<GitRepo, GitRepoError>)
        ensures
            match parse_repo_spec(s@) {
                Some((url, branch)) => r matches Ok(g) && g.repo_url@ == url && g.repo_branch@
                    == branch,
                None => r is Err,
            },
    {
        let n = s.unicode_len();
        let mut first: usize = n;
        let mut count: usize = 0;
        let mut i: usize = 0;
        while i < n
            invariant
                n == s@.len(),
                i <= n,
                count <= i,
                count == 0 ==> first == n && forall|j: int| 0 <= j < i ==> s@[j] != '@',
                count >= 1 ==> first < i && s@[first as int] == '@',
                count == 1 ==> forall|j: int| 0 <= j < i && j != first ==> s@[j] != '@',
                count >= 2 ==> exists|j: int| 0 <= j < i && j != first && s@[j] == '@',
            decreases n - i,
        {
            if s.get_char(i) == '@' {
                if count == 0 {
                    first = i;
                }
                count = count + 1;
            }
            i = i + 1;
        }
        if count == 1 {
            proof {
                assert(sole_at(s@, first as int));
                let k = choose|k: int| sole_at(s@, k);
                assert(k == first);
            }
            let url = String::from_str(s.substring_char(0, first));
            let branch = String::from_str(s.substring_char(first + 1, n));
            assert(url@ =~= s@.take(first as int));
            assert(branch@ =~= s@.skip(first + 1));
            Ok(GitRepo { repo_url: url, repo_branch: branch })
        } else {
            assert(!exists|k: int| sole_at(s@, k)) by {
                if exists|k: int| sole_at(s@, k) {
                    let k = choose|k: int| sole_at(s@, k);
                    if count >= 2 {
                        let j = choose|j: int| 0 <= j < n && j != first && s@[j] == '@';
                        assert(s@[first as int] == '@');
                    }
                }
            }
            Err(GitRepoError::InvalidGitRepo)
        }
    }
}

impl std::str::FromStr for GitRepo {
    type Err = GitRepoError;

    fn from_str(s: &str) -> (r: Result<GitRepo, GitRepoError>)
        ensures
            match parse_repo_spec(s@) {
                Some((url, branch)) => r matches Ok(g) && g.repo_url@ == url && g.repo_branch@
                    == branch,
                None => r is Err,
            },
    {
        GitRepo::parse(s)
    }
}

} // verus!

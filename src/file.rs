use vstd::prelude::*;
use crate::models::{AddTargetRequest, Target, Targets};

verus! {

/// `s` with every trailing ".git" removed.
pub open spec fn trim_git(s: Seq<char>) -> Seq<char>
    decreases s.len(),
{
    if s.len() >= 4 && s.subrange(s.len() - 4, s.len() as int) == seq!['.', 'g', 'i', 't'] {
        trim_git(s.subrange(0, s.len() - 4))
    } else {
        s
    }
}

/// The part of `s` after its last '/', or all of `s` when it has none.
pub open spec fn last_segment(s: Seq<char>) -> Seq<char>
    decreases s.len(),
{
    if s.len() == 0 {
        s
    } else if s.last() == '/' {
        seq![]
    } else {
        last_segment(s.drop_last()).push(s.last())
    }
}

/// The name of a repository: the last path segment of its address, without
/// a ".git" ending.
pub open spec fn repo_name(repository: Seq<char>) -> Seq<char> {
    last_segment(trim_git(repository))
}

/// `s` with each '/' replaced by '_'.
pub open spec fn slashes_to_underscores(s: Seq<char>) -> Seq<char> {
    s.map_values(|c: char| if c == '/' { '_' } else { c })
}

/// The file name under which the pipeline definition of a repository and
/// branch is kept.
pub open spec fn config_file_name(repository: Seq<char>, branch: Seq<char>) -> Seq<char> {
    repo_name(repository) + seq!['_'] + slashes_to_underscores(branch) + seq!['.', 'y', 'm', 'l']
}

proof fn last_segment_from(t: Seq<char>, st: int)
    requires
        0 <= st <= t.len(),
        st == 0 || t[st - 1] == '/',
        forall|q: int| st <= q < t.len() ==> t[q] != '/',
    ensures
        last_segment(t) == t.subrange(st, t.len() as int),
    decreases t.len(),
{
    if t.len() == 0 {
        assert(t.subrange(st, 0) =~= t);
    } else if t.last() == '/' {
        assert(st == t.len());
        assert(t.subrange(st, t.len() as int) =~= seq![]);
    } else {
        assert(st < t.len());
        last_segment_from(t.drop_last(), st);
        assert(t.drop_last().subrange(st, t.len() - 1).push(t.last()) =~= t.subrange(st, t.len() as int));
    }
}

/// The name of a repository: "https://host/team/app.git" gives "app".
pub fn extract_repo_name(repository: &str) -> (r: String)
    ensures
        r@ == repo_name(repository@),
{
    let ghost s = repository@;
    let n = repository.unicode_len();
    let mut end: usize = n;
    proof {
        assert(s.subrange(0, n as int) =~= s);
    }
    while end >= 4 && repository.get_char(end - 4) == '.' && repository.get_char(end - 3) == 'g'
        && repository.get_char(end - 2) == 'i' && repository.get_char(end - 1) == 't'
        invariant
            end <= n,
            n == s.len(),
            s == repository@,
            trim_git(s) == trim_git(s.subrange(0, end as int)),
        decreases end,
    {
        proof {
            let t = s.subrange(0, end as int);
            assert(t.subrange(t.len() - 4, t.len() as int) =~= seq!['.', 'g', 'i', 't']);
            assert(t.subrange(0, t.len() - 4) =~= s.subrange(0, end - 4));
        }
        end -= 4;
    }
    proof {
        let t = s.subrange(0, end as int);
        if t.len() >= 4 && t.subrange(t.len() - 4, t.len() as int) == seq!['.', 'g', 'i', 't'] {
            assert(t.subrange(t.len() - 4, t.len() as int)[0] == s[end - 4]);
            assert(t.subrange(t.len() - 4, t.len() as int)[1] == s[end - 3]);
            assert(t.subrange(t.len() - 4, t.len() as int)[2] == s[end - 2]);
            assert(t.subrange(t.len() - 4, t.len() as int)[3] == s[end - 1]);
        }
        assert(trim_git(t) == t);
    }
    let mut start: usize = end;
    while start > 0 && repository.get_char(start - 1) != '/'
        invariant
            start <= end <= n,
            n == s.len(),
            s == repository@,
            forall|q: int| start <= q < end ==> s[q] != '/',
        decreases start,
    {
        start -= 1;
    }
    proof {
        let t = s.subrange(0, end as int);
        last_segment_from(t, start as int);
        assert(t.subrange(start as int, end as int) =~= s.subrange(start as int, end as int));
    }
    repository.substring_char(start, end).to_owned()
}

/// The file name of the pipeline definition of a repository and branch:
/// "https://host/app.git" on "feature/x" gives "app_feature_x.yml".
pub fn repo_to_filename(repository: &str, branch: &str) -> (r: String)
    ensures
        r@ == config_file_name(repository@, branch@),
{
    let mut r = extract_repo_name(repository);
    let ghost base = r@;
    proof { reveal_strlit("_"); }
    r.append("_");
    let n = branch.unicode_len();
    let mut i: usize = 0;
    while i < n
        invariant
            i <= n,
            n == branch@.len(),
            r@ == base + seq!['_'] + slashes_to_underscores(branch@.subrange(0, i as int)),
        decreases n - i,
    {
        let ghost prev = r@;
        if branch.get_char(i) == '/' {
            proof { reveal_strlit("_"); }
            r.append("_");
        } else {
            r.append(branch.substring_char(i, i + 1));
        }
        proof {
            assert(slashes_to_underscores(branch@.subrange(0, i + 1)) =~= slashes_to_underscores(
                branch@.subrange(0, i as int),
            ).push(if branch@[i as int] == '/' { '_' } else { branch@[i as int] }));
            assert(r@ =~= base + seq!['_'] + slashes_to_underscores(branch@.subrange(0, i + 1)));
        }
        i += 1;
    }
    proof {
        reveal_strlit(".yml");
        assert(branch@.subrange(0, n as int) =~= branch@);
    }
    r.append(".yml");
    proof {
        assert(r@ =~= config_file_name(repository@, branch@));
    }
    r
}

/// The name a new target is registered under: the requested one, or else
/// the repository's name.
pub open spec fn requested_name(request: AddTargetRequest) -> Seq<char> {
    match request.name {
        Some(n) => n@,
        None => repo_name(request.repository@),
    }
}

pub open spec fn name_taken(targets: Seq<Target>, name: Seq<char>) -> bool {
    exists|i: int| 0 <= i < targets.len() && #[trigger] targets[i].name@ == name
}

impl Targets {
    /// The position of the first target named `name`.
    pub fn find(&self, name: &str) -> (r: Option<usize>)
        ensures
            r is None <==> !name_taken(self.targets@, name@),
            r matches Some(i) ==> i < self.targets@.len() && self.targets@[i as int].name@ == name@
                && forall|k: int| 0 <= k < i ==> #[trigger] self.targets@[k].name@ != name@,
    {
        let key = name.to_owned();
        let mut i: usize = 0;
        while i < self.targets.len()
            invariant
                i <= self.targets@.len(),
                key@ == name@,
                forall|k: int| 0 <= k < i ==> #[trigger] self.targets@[k].name@ != name@,
            decreases self.targets@.len() - i,
        {
            if self.targets[i].name == key {
                return Some(i);
            }
            i += 1;
        }
        None
    }

    /// The target to add for `request`, named as requested or after the
    /// repository; `None` when a target of that name already exists.
    pub fn new_target(&self, request: &AddTargetRequest) -> (r: Option<Target>)
        ensures
            name_taken(self.targets@, requested_name(*request)) <==> r is None,
            r matches Some(t) ==> t.name@ == requested_name(*request) && t.repository@
                == request.repository@ && t.branch@ == request.branch@,
    {
        let name = match &request.name {
            Some(n) => n.clone(),
            None => extract_repo_name(request.repository.as_str()),
        };
        if self.find(name.as_str()).is_some() {
            return None;
        }
        Some(
            Target {
                name,
                repository: request.repository.clone(),
                branch: request.branch.clone(),
            },
        )
    }
}

} // verus!

//! Locating an external command along a colon-separated search path.
use vstd::prelude::*;

use crate::text::{concat_str, split_on, split_str, strip_trailing, strip_trailing_str};

verus! {

/// The directory prefixes of a search-path value: trailing `/` trimmed, one `/`
/// appended, then split on `:`.
pub open spec fn search_dirs(value: Seq<char>) -> Seq<Seq<char>> {
    split_on(strip_trailing(value, '/').push('/'), ':')
}

/// The first form tried in a directory: prefix and name run together.
pub open spec fn direct_form(dir: Seq<char>, command: Seq<char>) -> Seq<char> {
    dir + command
}

/// The second form tried in a directory: prefix, `/`, then the name.
pub open spec fn joined_form(dir: Seq<char>, command: Seq<char>) -> Seq<char> {
    dir.push('/') + command
}

/// Every path tried for `command`, in priority order: directory by directory,
/// the direct form before the joined one.
pub open spec fn candidates_in(dirs: Seq<Seq<char>>, command: Seq<char>) -> Seq<Seq<char>> {
    Seq::new(
        2 * dirs.len(),
        |i: int|
            if i % 2 == 0 {
                direct_form(dirs[i / 2], command)
            } else {
                joined_form(dirs[i / 2], command)
            },
    )
}

/// Every path tried for `command` under the search-path value `value`.
pub open spec fn search_candidates(value: Seq<char>, command: Seq<char>) -> Seq<Seq<char>> {
    candidates_in(search_dirs(value), command)
}

/// The first candidate whose probe found a regular file; probes past the end of
/// `found` count as misses.
pub open spec fn first_found_spec(candidates: Seq<Seq<char>>, found: Seq<bool>) -> Option<Seq<char>>
    decreases candidates.len(),
{
    if candidates.len() == 0 || found.len() == 0 {
        None
    } else if found[0] {
        Some(candidates[0])
    } else {
        first_found_spec(candidates.drop_first(), found.drop_first())
    }
}

/// What resolving `command` gives when the probes of the candidates, in order,
/// come out as `found`; without a search path nothing is found.
pub open spec fn resolution(search_path: Option<Seq<char>>, command: Seq<char>, found: Seq<bool>) -> Option<Seq<char>> {
    match search_path {
        None => None,
        Some(v) => first_found_spec(search_candidates(v, command), found),
    }
}

/// Probes that all missed find nothing; one more probe that hits finds the
/// candidate at its position.
pub proof fn lemma_first_found_after_misses(candidates: Seq<Seq<char>>, found: Seq<bool>)
    requires
        found.len() <= candidates.len(),
        forall|i: int| 0 <= i < found.len() ==> !found[i],
    ensures
        first_found_spec(candidates, found) == None::<Seq<char>>,
        found.len() < candidates.len() ==> first_found_spec(candidates, found.push(true)) == Some(
            candidates[found.len() as int],
        ),
    decreases found.len(),
{
    if found.len() > 0 {
        lemma_first_found_after_misses(candidates.drop_first(), found.drop_first());
        assert(found.push(true).drop_first() =~= found.drop_first().push(true));
    }
}

/// Probes past the last candidate do not matter.
pub proof fn lemma_first_found_ignores_tail(candidates: Seq<Seq<char>>, found: Seq<bool>)
    requires
        candidates.len() <= found.len(),
    ensures
        first_found_spec(candidates, found) == first_found_spec(
            candidates,
            found.take(candidates.len() as int),
        ),
    decreases candidates.len(),
{
    if candidates.len() > 0 {
        lemma_first_found_ignores_tail(candidates.drop_first(), found.drop_first());
        assert(found.take(candidates.len() as int).drop_first() =~= found.drop_first().take(
            candidates.len() - 1,
        ));
    }
}

/// The search order: where the probe of candidate `i` hits and every earlier one
/// misses, candidate `i` is the result, whatever the later probes say.
pub proof fn lemma_earliest_hit_wins(candidates: Seq<Seq<char>>, found: Seq<bool>, i: int)
    requires
        0 <= i < candidates.len(),
        i < found.len(),
        found[i],
        forall|j: int| 0 <= j < i ==> !found[j],
    ensures
        first_found_spec(candidates, found) == Some(candidates[i]),
    decreases i,
{
    if i > 0 {
        lemma_earliest_hit_wins(candidates.drop_first(), found.drop_first(), i - 1);
    }
}

/// Tells whether `path` names an existing regular file (following symbolic links).
/// Relies on std::path::Path::is_file; what it answers depends on the file system,
/// so nothing is promised of it.
#[verifier::external_body]
fn is_file(path: &str) -> (r: bool) {
    std::path::Path::new(path).is_file()
}

/// The directory prefixes of the search-path value `value`.
pub fn search_dirs_of(value: &str) -> (r: Vec<String>)
    ensures
        r.deep_view() == search_dirs(value@),
{
    let trimmed = strip_trailing_str(value, '/');
    let normalized = concat_str(trimmed, "/");
    proof {
        reveal_strlit("/");
        assert(normalized@ =~= strip_trailing(value@, '/').push('/'));
    }
    let r = split_str(normalized.as_str(), ':');
    assert(r.deep_view() =~= r@.map_values(|x: String| x@));
    r
}

/// Every path tried for `command` under the search-path value `value`, in order.
pub fn search_candidates_of(value: &str, command: &str) -> (r: Vec<String>)
    ensures
        r.deep_view() == search_candidates(value@, command@),
{
    let dirs = search_dirs_of(value);
    let ghost ds = dirs.deep_view();
    let mut r: Vec<String> = Vec::new();
    let mut k: usize = 0;
    proof {
        reveal_strlit("/");
    }
    while k < dirs.len()
        invariant
            ds == dirs.deep_view(),
            ds == search_dirs(value@),
            k <= dirs.len(),
            r@.len() == 2 * k,
            forall|i: int|
                0 <= i < 2 * k ==> #[trigger] r@[i]@ == (if i % 2 == 0 {
                    direct_form(ds[i / 2], command@)
                } else {
                    joined_form(ds[i / 2], command@)
                }),
        decreases dirs.len() - k,
    {
        let dir = dirs[k].as_str();
        let direct = concat_str(dir, command);
        let mut joined = concat_str(dir, "/");
        joined.append(command);
        proof {
            reveal_strlit("/");
        }
        assert(joined@ =~= joined_form(ds[k as int], command@));
        r.push(direct);
        r.push(joined);
        k = k + 1;
    }
    assert(r.deep_view() =~= candidates_in(ds, command@));
    r
}

/// The first of `candidates` whose probe in `found` hit, if any: the search order
/// applied to given probe outcomes.
pub fn first_found(candidates: &Vec<String>, found: &Vec<bool>) -> (r: Option<String>)
    ensures
        r.deep_view() == first_found_spec(candidates.deep_view(), found@),
{
    let mut i: usize = 0;
    let n = if candidates.len() < found.len() { candidates.len() } else { found.len() };
    assert(candidates.deep_view().skip(0) =~= candidates.deep_view());
    assert(found@.skip(0) =~= found@);
    while i < n
        invariant
            n <= candidates.len(),
            n <= found.len(),
            n == candidates.len() || n == found.len(),
            i <= n,
            first_found_spec(candidates.deep_view(), found@) == first_found_spec(
                candidates.deep_view().skip(i as int),
                found@.skip(i as int),
            ),
        decreases n - i,
    {
        if found[i] {
            return Some(candidates[i].clone());
        }
        assert(candidates.deep_view().skip(i as int).drop_first() =~= candidates.deep_view().skip(i + 1));
        assert(found@.skip(i as int).drop_first() =~= found@.skip(i + 1));
        i = i + 1;
    }
    None
}

/// The choice between the two forms tried in one directory, given what their
/// probes found: the direct form if it is a regular file, else the joined form
/// if it is, else nothing.
pub open spec fn form_choice(direct: Seq<char>, direct_hit: bool, joined: Seq<char>, joined_hit: bool) -> Option<Seq<char>> {
    if direct_hit {
        Some(direct)
    } else if joined_hit {
        Some(joined)
    } else {
        None
    }
}

/// Chooses between the two forms tried in one directory, given what their probes
/// found: the direct form wins over the joined one.
pub fn pick_form(direct: String, direct_hit: bool, joined: String, joined_hit: bool) -> (r: Option<String>)
    ensures
        r.deep_view() == form_choice(direct@, direct_hit, joined@, joined_hit),
{
    if direct_hit {
        Some(direct)
    } else if joined_hit {
        Some(joined)
    } else {
        None
    }
}

/// Looks for `command` in the directory prefix `path`: first at `path` and
/// `command` run together, then with a `/` between them; gives the first that
/// names a regular file. The second form is probed only where the first missed.
pub fn try_get_command_in_path(path: &str, command: &str) -> (r: Option<String>)
    ensures
        exists|direct_hit: bool, joined_hit: bool|
            r.deep_view() == form_choice(
                direct_form(path@, command@),
                direct_hit,
                joined_form(path@, command@),
                joined_hit,
            ),
{
    let direct = concat_str(path, command);
    let mut joined = concat_str(path, "/");
    joined.append(command);
    proof {
        reveal_strlit("/");
        assert(joined@ =~= joined_form(path@, command@));
    }
    let direct_hit = is_file(direct.as_str());
    let joined_hit = if direct_hit {
        false
    } else {
        is_file(joined.as_str())
    };
    assert(direct@ == direct_form(path@, command@));
    let r = pick_form(direct, direct_hit, joined, joined_hit);
    assert(r.deep_view() == form_choice(
        direct_form(path@, command@),
        direct_hit,
        joined_form(path@, command@),
        joined_hit,
    ));
    r
}

/// Whatever the probes found, the search gives nothing or one of the candidates.
pub proof fn lemma_first_found_is_candidate(candidates: Seq<Seq<char>>, found: Seq<bool>)
    ensures
        first_found_spec(candidates, found) matches Some(c) ==> candidates.contains(c),
    decreases candidates.len(),
{
    if candidates.len() > 0 && found.len() > 0 && !found[0] {
        lemma_first_found_is_candidate(candidates.drop_first(), found.drop_first());
        if let Some(c) = first_found_spec(candidates, found) {
            let i = choose|i: int| 0 <= i < candidates.len() - 1 && candidates.drop_first()[i] == c;
            assert(candidates[i + 1] == c);
        }
    } else if candidates.len() > 0 && found.len() > 0 {
        assert(candidates[0] == candidates[0]);
    }
}

/// Resolves `command` along the search-path value `value` (absent: nothing is
/// found). Every candidate is probed in search order until one names a regular
/// file; the result is the search order applied to those probe answers.
pub fn resolve(value: Option<&str>, command: &str) -> (r: Option<String>)
    ensures
        exists|found: Seq<bool>| r.deep_view() == resolution(value.deep_view(), command@, found),
        r matches Some(c) ==> value matches Some(v) && search_candidates(v@, command@).contains(c@),
{
    match value {
        None => {
            assert(None::<String>.deep_view() == resolution(value.deep_view(), command@, Seq::empty()));
            None
        },
        Some(v) => {
            let candidates = search_candidates_of(v, command);
            let mut found: Vec<bool> = Vec::new();
            let mut i: usize = 0;
            while i < candidates.len()
                invariant
                    i <= candidates.len(),
                decreases candidates.len() - i,
            {
                let hit = is_file(candidates[i].as_str());
                found.push(hit);
                if hit {
                    break;
                }
                i = i + 1;
            }
            let r = first_found(&candidates, &found);
            proof {
                lemma_first_found_is_candidate(candidates.deep_view(), found@);
                assert(value.deep_view() == Some(v@));
                assert(r.deep_view() == resolution(value.deep_view(), command@, found@));
            }
            r
        },
    }
}

} // verus!

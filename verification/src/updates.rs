//! Whether there is a newer version.

use vstd::prelude::*;

use crate::app::UpdateStatus;
use crate::clock::{numbers, numbers_of};
use crate::json::{entry, parse_json, parsed_json, Json, JsonView};
use crate::text::{after, number, pieces, same, starts, strip_prefix, trim_end_char, without_trailing};

verus! {

/// The number at a place of a version, zero behind its last.
pub open spec fn number_at(v: Seq<nat>, i: int) -> nat {
    if 0 <= i < v.len() {
        v[i]
    } else {
        0
    }
}

/// Whether `a` is greater than `b` at place `i` and the same at all before.
pub open spec fn greater_at(a: Seq<nat>, b: Seq<nat>, i: int) -> bool {
    &&& 0 <= i
    &&& number_at(a, i) > number_at(b, i)
    &&& forall|j: int| 0 <= j < i ==> #[trigger] number_at(a, j) == number_at(b, j)
}

/// Whether version `a` is newer than version `b`: greater at the first place at which they
/// differ.
pub open spec fn newer(a: Seq<nat>, b: Seq<nat>) -> bool {
    exists|i: int| greater_at(a, b, i)
}

/// The numbers of a version: its pieces between the dots, without those that are no numbers.
pub open spec fn version_numbers(v: Seq<char>) -> Seq<nat> {
    numbers(pieces(v, '.'))
}

/// The numbers of a version.
fn parse_version(v: &str) -> (r: Vec<u32>)
    ensures
        r@.map_values(|n: u32| n as nat) == version_numbers(v@),
{
    let r = numbers_of(v, '.');
    assert(r@.map_values(|n: u32| n as nat) =~= version_numbers(v@));
    r
}

/// Whether version `a` is newer than version `b`.
pub fn version_is_newer(a: &str, b: &str) -> (r: bool)
    ensures
        r == newer(version_numbers(a@), version_numbers(b@)),
{
    let va = parse_version(a);
    let vb = parse_version(b);
    let ghost na = version_numbers(a@);
    let ghost nb = version_numbers(b@);
    let n: usize = if va.len() > vb.len() {
        va.len()
    } else {
        vb.len()
    };
    let mut i: usize = 0;
    while i < n
        invariant
            i <= n,
            n >= va@.len(),
            n >= vb@.len(),
            na == va@.map_values(|n: u32| n as nat),
            nb == vb@.map_values(|n: u32| n as nat),
            na == version_numbers(a@),
            nb == version_numbers(b@),
            forall|j: int| 0 <= j < i ==> #[trigger] number_at(na, j) == number_at(nb, j),
        decreases n - i,
    {
        let pa: u32 = if i < va.len() {
            va[i]
        } else {
            0
        };
        let pb: u32 = if i < vb.len() {
            vb[i]
        } else {
            0
        };
        assert(pa == number_at(na, i as int));
        assert(pb == number_at(nb, i as int));
        if pa > pb {
            assert(greater_at(na, nb, i as int));
            return true;
        }
        if pa < pb {
            assert forall|k: int| !greater_at(na, nb, k) by {
                if k > i {
                    assert(number_at(na, i as int) != number_at(nb, i as int));
                }
            }
            return false;
        }
        i = i + 1;
    }
    assert forall|k: int| !greater_at(na, nb, k) by {
        if 0 <= k < n {
            assert(number_at(na, k) == number_at(nb, k));
        }
    }
    false
}

/// No version is newer than itself, and of two versions not both are newer than the other.
pub proof fn newer_is_one_sided(a: Seq<nat>, b: Seq<nat>)
    ensures
        !newer(a, a),
        !(newer(a, b) && newer(b, a)),
{
    if newer(a, b) && newer(b, a) {
        let i = choose|i: int| greater_at(a, b, i);
        let j = choose|j: int| greater_at(b, a, j);
        assert(number_at(a, i) > number_at(b, i));
        assert(number_at(b, j) > number_at(a, j));
        if i < j {
            assert(number_at(b, i) == number_at(a, i));
        } else if j < i {
            assert(number_at(a, j) == number_at(b, j));
        }
    }
}

/// What is newer than a newer version is newer.
pub proof fn newer_is_transitive(a: Seq<nat>, b: Seq<nat>, c: Seq<nat>)
    requires
        newer(a, b),
        newer(b, c),
    ensures
        newer(a, c),
{
    let i = choose|i: int| greater_at(a, b, i);
    let j = choose|j: int| greater_at(b, c, j);
    let k = if i < j {
        i
    } else {
        j
    };
    assert forall|m: int| 0 <= m < k implies #[trigger] number_at(a, m) == number_at(c, m) by {
        assert(number_at(a, m) == number_at(b, m));
        assert(number_at(b, m) == number_at(c, m));
    }
    if i < j {
        assert(number_at(b, i) == number_at(c, i));
    } else if j < i {
        assert(number_at(a, j) == number_at(b, j));
    }
    assert(greater_at(a, c, k));
}

/// A version without the `v` before it.
pub open spec fn bare_version(v: Seq<char>) -> Seq<char> {
    if starts(v, "v"@) {
        after(v, "v"@)
    } else {
        v
    }
}

/// A version without the `v` before it.
fn strip_v(v: &str) -> (r: String)
    ensures
        r@ == bare_version(v@),
{
    match strip_prefix(v, "v") {
        Some(t) => t,
        None => v.to_owned(),
    }
}

/// The project that a repository's address names.
pub open spec fn project_of(repo: Seq<char>) -> Seq<char> {
    let r = without_trailing(repo, '/');
    if starts(r, "https://github.com/"@) {
        after(r, "https://github.com/"@)
    } else {
        "skyline69/agcp"@
    }
}

/// Where the latest release of a repository is asked for.
pub fn release_url(repo: &str) -> (r: String)
    ensures
        r@ == "https://api.github.com/repos/"@ + project_of(repo@) + "/releases/latest"@,
{
    let bare = trim_end_char(repo, '/');
    let project = match strip_prefix(&bare, "https://github.com/") {
        Some(t) => t,
        None => "skyline69/agcp".to_owned(),
    };
    let mut r = "https://api.github.com/repos/".to_owned();
    r.push_str(&project);
    r.push_str("/releases/latest");
    r
}

/// The text under a key of a value.
pub open spec fn text_at(v: JsonView, key: Seq<char>) -> Option<Seq<char>> {
    match entry(v, key) {
        Some(JsonView::Text(t)) => Some(t),
        _ => None,
    }
}

/// The tag that an answer about the latest release names, or why there is none.
pub open spec fn tag_in(answer: Option<JsonView>) -> Result<Seq<char>, Seq<char>> {
    match answer {
        Some(v) => match text_at(v, "tag_name"@) {
            Some(t) => Ok(t),
            None => match text_at(v, "message"@) {
                Some(m) => Err(m),
                None => Err("Could not parse GitHub API response"@),
            },
        },
        None => Err("Could not parse GitHub API response"@),
    }
}

/// The text under a key of a value.
fn get_text(v: &Json, key: &str) -> (r: Option<String>)
    ensures
        crate::chat::opt(r) == text_at(v@, key@),
{
    match v.get(key) {
        Some(j) => match j.as_str() {
            Some(t) => Some(t.to_owned()),
            None => None,
        },
        None => None,
    }
}

/// The tag that an answer about the latest release names, or why there is none.
pub fn release_tag(body: &str) -> (r: Result<String, String>)
    ensures
        match r {
            Ok(t) => tag_in(parsed_json(body@)) == Ok::<Seq<char>, Seq<char>>(t@),
            Err(e) => tag_in(parsed_json(body@)) == Err::<Seq<char>, Seq<char>>(e@),
        },
{
    match parse_json(body) {
        Some(v) => match get_text(&v, "tag_name") {
            Some(t) => Ok(t),
            None => match get_text(&v, "message") {
                Some(m) => Err(m),
                None => Err("Could not parse GitHub API response".to_owned()),
            },
        },
        None => Err("Could not parse GitHub API response".to_owned()),
    }
}

/// What is known of a newer version once the latest release is known.
pub fn update_status_of(latest: Result<String, String>, current_version: &str) -> (r: UpdateStatus)
    ensures
        match latest {
            Err(e) => r == UpdateStatus::Error(e),
            Ok(tag) => {
                let l = bare_version(tag@);
                let c = bare_version(current_version@);
                if l != c && newer(version_numbers(l), version_numbers(c)) {
                    r matches UpdateStatus::UpdateAvailable { current, latest } && current@ == c
                        && latest@ == l
                } else {
                    r == UpdateStatus::UpToDate
                }
            },
        },
{
    match latest {
        Err(e) => UpdateStatus::Error(e),
        Ok(tag) => {
            let l = strip_v(&tag);
            let c = strip_v(current_version);
            if same(&c, &l) {
                UpdateStatus::UpToDate
            } else if version_is_newer(&l, &c) {
                UpdateStatus::UpdateAvailable { current: c, latest: l }
            } else {
                UpdateStatus::UpToDate
            }
        },
    }
}

/// A version with a greater number at some place, and the same before it, is newer, whatever
/// follows; a zero behind the last number makes no difference.
pub proof fn a_greater_number_is_newer(v: Seq<nat>, i: int, n: nat, more: Seq<nat>)
    requires
        0 <= i < v.len(),
        n > v[i],
    ensures
        newer(v.take(i).push(n) + more, v),
        !newer(v, v.take(i).push(n) + more),
        !newer(v.push(0), v),
        !newer(v, v.push(0)),
        n > 0 ==> newer(v.push(n), v),
{
    let a = v.take(i).push(n) + more;
    assert forall|j: int| 0 <= j < i implies #[trigger] number_at(a, j) == number_at(v, j) by {}
    assert(number_at(a, i) == n);
    assert(greater_at(a, v, i));
    newer_is_one_sided(a, v);
    let z = v.push(0);
    assert forall|k: int| !greater_at(z, v, k) && !greater_at(v, z, k) by {
        assert(number_at(z, k) == number_at(v, k));
    }
    let p = v.push(n);
    assert forall|j: int| 0 <= j < v.len() implies #[trigger] number_at(p, j) == number_at(v, j) by {}
    assert(number_at(p, v.len() as int) == n);
    if n > 0 {
        assert(greater_at(p, v, v.len() as int));
    }
}

/// The `v` before a version does not count, and the project is what follows the host in the
/// address of a repository, with or without a slash at its end.
pub proof fn names_are_taken_from_addresses(v: Seq<char>, project: Seq<char>)
    requires
        project.len() > 0,
        project.last() != '/',
    ensures
        bare_version("v"@ + v) == v,
        !starts(v, "v"@) ==> bare_version(v) == v,
        project_of("https://github.com/"@ + project) == project,
        project_of("https://github.com/"@ + project + "/"@) == project,
{
    reveal_strlit("/");
    let a = "v"@ + v;
    assert(a.subrange(0, "v"@.len() as int) =~= "v"@);
    assert(after(a, "v"@) =~= v);
    let base = "https://github.com/"@;
    let r = base + project;
    assert(r.last() == project.last());
    assert(without_trailing(r, '/') == r);
    assert(r.subrange(0, base.len() as int) =~= base);
    assert(after(r, base) =~= project);
    let s = base + project + "/"@;
    assert(s.last() == '/');
    assert(s.drop_last() =~= r);
    assert(without_trailing(s, '/') == without_trailing(r, '/'));
}

/// The tag of a release is the one that the answer names; where it names none, the answer's
/// own message says why.
pub proof fn the_tag_is_the_one_named(v: JsonView, t: Seq<char>)
    ensures
        entry(v, "tag_name"@) == Some(JsonView::Text(t)) ==> tag_in(Some(v)) == Ok::<
            Seq<char>,
            Seq<char>,
        >(t),
        entry(v, "tag_name"@) is None && entry(v, "message"@) == Some(JsonView::Text(t)) ==> tag_in(
            Some(v),
        ) == Err::<Seq<char>, Seq<char>>(t),
        tag_in(None) is Err,
{
}

} // verus!

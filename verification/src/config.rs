//! The pure parts of recipe and repository management: where a repository
//! goes, and how recipes are listed.

use vstd::prelude::*;
use vstd::string::{StrSliceExecFns, StringExecFns};

use crate::error::Error;
use crate::text::{lemma_seq_lt_total, lemma_seq_lt_trans, seq_lt, starts_with, str_eq, str_lt};

verus! {

/// Where a recipe comes from: the user's own recipes, or a repository.
#[derive(Debug, Clone, PartialEq, Eq)]
pub enum RecipeSource {
    Local(String),
    Remote(String),
}

/// `s` without the trailing characters `c`.
pub open spec fn trim_end_char(s: Seq<char>, c: char) -> Seq<char>
    decreases s.len(),
{
    if s.len() > 0 && s.last() == c {
        trim_end_char(s.drop_last(), c)
    } else {
        s
    }
}

/// `s` without trailing repetitions of the nonempty `suffix`.
pub open spec fn trim_end_suffix(s: Seq<char>, suffix: Seq<char>) -> Seq<char>
    decreases s.len(),
{
    if suffix.len() > 0 && s.len() >= suffix.len() && s.skip(s.len() - suffix.len()) == suffix {
        trim_end_suffix(s.take(s.len() - suffix.len()), suffix)
    } else {
        s
    }
}

/// `s` with its first `from` replaced by `to`.
pub open spec fn replace_first(s: Seq<char>, from: char, to: char) -> Seq<char>
    decreases s.len(),
{
    if s.len() == 0 {
        s
    } else if s[0] == from {
        seq![to] + s.drop_first()
    } else {
        seq![s[0]] + replace_first(s.drop_first(), from, to)
    }
}

/// A git URL with its trailing slashes, then its trailing `.git`, removed.
pub open spec fn trimmed_url(url: Seq<char>) -> Seq<char> {
    trim_end_suffix(trim_end_char(url, '/'), ".git"@)
}

/// The repository path of a git URL: `git@host:path` gives `host/path`,
/// `https://rest` and `http://rest` give `rest`; any other URL has none.
pub open spec fn spec_repo_path(url: Seq<char>) -> Option<Seq<char>> {
    let u = trimmed_url(url);
    if u.len() >= 4 && u.take(4) == "git@"@ {
        Some(replace_first(u.skip(4), ':', '/'))
    } else if u.len() >= 8 && u.take(8) == "https://"@ {
        Some(u.skip(8))
    } else if u.len() >= 7 && u.take(7) == "http://"@ {
        Some(u.skip(7))
    } else {
        None
    }
}

/// `replace_first` splits at the first occurrence.
proof fn lemma_replace_first(s: Seq<char>, from: char, to: char, i: int)
    requires
        0 <= i <= s.len(),
        forall|j: int| 0 <= j < i ==> s[j] != from,
        i == s.len() || s[i] == from,
    ensures
        replace_first(s, from, to) == (if i == s.len() {
            s
        } else {
            s.take(i) + seq![to] + s.skip(i + 1)
        }),
    decreases i,
{
    if i > 0 {
        let rest = s.drop_first();
        assert forall|j: int| 0 <= j < i - 1 implies rest[j] != from by {
            assert(rest[j] == s[j + 1]);
        }
        lemma_replace_first(rest, from, to, i - 1);
        if i == s.len() {
            assert(seq![s[0]] + rest == s);
        } else {
            assert(seq![s[0]] + (rest.take(i - 1) + seq![to] + rest.skip(i)) == s.take(i) + seq![
                to,
            ] + s.skip(i + 1));
        }
    } else if s.len() > 0 {
        assert(s.skip(1) == s.drop_first());
    }
}

/// `s` without its trailing characters `c`.
fn trim_end_matches_char(s: &str, c: char) -> (res: &str)
    ensures
        res@ == trim_end_char(s@, c),
{
    let mut n = s.unicode_len();
    assert(s@.take(n as int) == s@);
    while n > 0 && s.get_char(n - 1) == c
        invariant
            n <= s@.len(),
            trim_end_char(s@, c) == trim_end_char(s@.take(n as int), c),
        decreases n,
    {
        assert(s@.take(n as int).drop_last() == s@.take(n - 1));
        n = n - 1;
    }
    s.substring_char(0, n)
}

/// `s` without trailing repetitions of the nonempty `suffix`.
fn trim_end_matches_str<'a>(s: &'a str, suffix: &str) -> (res: &'a str)
    requires
        suffix@.len() > 0,
    ensures
        res@ == trim_end_suffix(s@, suffix@),
{
    let k = suffix.unicode_len();
    let mut n = s.unicode_len();
    assert(s@.take(n as int) == s@);
    while n >= k && str_eq(s.substring_char(n - k, n), suffix)
        invariant
            n <= s@.len(),
            k == suffix@.len(),
            k > 0,
            trim_end_suffix(s@, suffix@) == trim_end_suffix(s@.take(n as int), suffix@),
        decreases n,
    {
        let ghost t = s@.take(n as int);
        assert(t.skip(n - k) == s@.subrange(n - k, n as int));
        assert(t.take(n - k) == s@.take(n - k));
        n = n - k;
    }
    proof {
        let t = s@.take(n as int);
        if n >= k {
            assert(t.skip(n - k) == s@.subrange(n - k, n as int));
        }
    }
    s.substring_char(0, n)
}

/// Extract a repository path from a git URL.
///
/// Examples:
///   git@github.com:calder/fujixweekly.git -> github.com/calder/fujixweekly
///   https://github.com/calder/fujixweekly.git -> github.com/calder/fujixweekly
pub fn repo_path(url: &str) -> (res: Result<String, Error>)
    ensures
        match spec_repo_path(url@) {
            Some(p) => res matches Ok(s) && s@ == p,
            None => res matches Err(Error::BadRepoUrl(s)) && s@ == trimmed_url(url@),
        },
{
    proof {
        reveal_strlit(".git");
        reveal_strlit("git@");
        reveal_strlit("https://");
        reveal_strlit("http://");
        reveal_strlit("/");
    }
    let url = trim_end_matches_str(trim_end_matches_char(url, '/'), ".git");
    let n = url.unicode_len();

    // SSH: git@github.com:calder/fujixweekly
    if starts_with(url, "git@") {
        let rest = url.substring_char(4, n);
        let m = n - 4;
        let mut i: usize = 0;
        while i < m && rest.get_char(i) != ':'
            invariant
                m == rest@.len(),
                0 <= i <= m,
                forall|j: int| 0 <= j < i ==> rest@[j] != ':',
            decreases m - i,
        {
            i = i + 1;
        }
        proof {
            lemma_replace_first(rest@, ':', '/', i as int);
        }
        let mut path = String::new();
        path.append(rest.substring_char(0, i));
        if i < m {
            path.append("/");
            path.append(rest.substring_char(i + 1, m));
        }
        return Ok(path);
    }
    // HTTPS: https://github.com/calder/fujixweekly
    if starts_with(url, "https://") {
        return Ok(url.substring_char(8, n).to_owned());
    }
    if starts_with(url, "http://") {
        return Ok(url.substring_char(7, n).to_owned());
    }
    Err(Error::BadRepoUrl(url.to_owned()))
}

/// Recipes grouped by source: the user's own recipes first (under the source
/// name `local`, and only when there are any), then each repository in the
/// order given, with its recipe names.
pub fn list_recipes_per_source(
    local_names: Vec<String>,
    repos: Vec<(String, Vec<String>)>,
) -> (res: Vec<(RecipeSource, Vec<String>)>)
    ensures
        ({
            let off: int = if local_names@.len() > 0 {
                1
            } else {
                0
            };
            &&& res@.len() == off + repos@.len()
            &&& local_names@.len() > 0 ==> (res@[0].0 matches RecipeSource::Local(s) && s@
                == "local"@ && res@[0].1 == local_names)
            &&& local_names@.len() > 0 ==> forall|k: int|
                0 <= k < repos@.len() ==> #[trigger] res@[1 + k] == (
                    RecipeSource::Remote(repos@[k].0),
                    repos@[k].1,
                )
            &&& local_names@.len() == 0 ==> forall|k: int|
                0 <= k < repos@.len() ==> #[trigger] res@[k] == (
                    RecipeSource::Remote(repos@[k].0),
                    repos@[k].1,
                )
        }),
{
    let ghost orig_local = local_names;
    let ghost orig = repos@;
    let mut sources: Vec<(RecipeSource, Vec<String>)> = Vec::new();
    let has_local = local_names.len() > 0;
    if has_local {
        sources.push((RecipeSource::Local("local".to_owned()), local_names));
    }
    let off: usize = if has_local {
        1
    } else {
        0
    };
    let ghost first = sources@[0];
    let mut repos = repos;
    let total = repos.len();
    let mut k: usize = 0;
    while repos.len() > 0
        invariant
            k <= orig.len(),
            orig.len() == total,
            off == (if has_local {
                1usize
            } else {
                0usize
            }),
            has_local == (orig_local@.len() > 0),
            has_local ==> sources@[0] == first,
            repos@ == orig.skip(k as int),
            sources@.len() == off + k,
            has_local ==> (sources@[0].0 matches RecipeSource::Local(s) && s@ == "local"@
                && sources@[0].1 == orig_local),
            forall|j: int|
                0 <= j < k ==> #[trigger] sources@[off + j] == (
                    RecipeSource::Remote(orig[j].0),
                    orig[j].1,
                ),
        decreases repos@.len(),
    {
        let (name, names) = repos.remove(0);
        assert(orig[k as int] == (name, names));
        let ghost before = sources@;
        sources.push((RecipeSource::Remote(name), names));
        assert(has_local ==> before.len() >= 1);
        assert(has_local ==> sources@[0] == before[0]);
        k = k + 1;
        assert(repos@ == orig.skip(k as int));
    }
    proof {
        if has_local {
            assert forall|j: int| 0 <= j < orig.len() implies #[trigger] sources@[1 + j] == (
                RecipeSource::Remote(orig[j].0),
                orig[j].1,
            ) by {
                assert(sources@[off + j] == (RecipeSource::Remote(orig[j].0), orig[j].1));
            }
        } else {
            assert forall|j: int| 0 <= j < orig.len() implies #[trigger] sources@[j] == (
                RecipeSource::Remote(orig[j].0),
                orig[j].1,
            ) by {
                assert(sources@[off + j] == (RecipeSource::Remote(orig[j].0), orig[j].1));
            }
        }
    }
    sources
}

/// A recipe source as plain values: whether it is the user's own, and its
/// name.
pub open spec fn source_view(s: RecipeSource) -> (bool, Seq<char>) {
    match s {
        RecipeSource::Local(n) => (true, n@),
        RecipeSource::Remote(n) => (false, n@),
    }
}

/// The sources of a list, as plain values.
pub open spec fn sources_view(s: Seq<RecipeSource>) -> Seq<(bool, Seq<char>)> {
    s.map_values(|x: RecipeSource| source_view(x))
}

/// Each of the user's recipe names, with its source `local`.
pub open spec fn local_entries(local: Seq<String>) -> Seq<(Seq<char>, (bool, Seq<char>))> {
    Seq::new(local.len(), |i: int| (local[i]@, (true, "local"@)))
}

/// Each recipe name of each repository, with the repository as its source,
/// repository after repository.
pub open spec fn repo_entries(repos: Seq<(String, Vec<String>)>) -> Seq<
    (Seq<char>, (bool, Seq<char>)),
>
    decreases repos.len(),
{
    if repos.len() == 0 {
        seq![]
    } else {
        let (name, names) = repos.last();
        repo_entries(repos.drop_last()) + Seq::new(
            names@.len(),
            |i: int| (names@[i]@, (false, name@)),
        )
    }
}

/// Every recipe name with its source, in priority order: the user's own
/// recipes, then the repositories in order.
pub open spec fn recipe_entries(local: Seq<String>, repos: Seq<(String, Vec<String>)>) -> Seq<
    (Seq<char>, (bool, Seq<char>)),
> {
    local_entries(local) + repo_entries(repos)
}

/// The sources of the entries named `name`, in order.
pub open spec fn sources_of(entries: Seq<(Seq<char>, (bool, Seq<char>))>, name: Seq<char>) -> Seq<
    (bool, Seq<char>),
>
    decreases entries.len(),
{
    if entries.len() == 0 {
        seq![]
    } else {
        sources_of(entries.drop_last(), name) + if entries.last().0 == name {
            seq![entries.last().1]
        } else {
            Seq::<(bool, Seq<char>)>::empty()
        }
    }
}

/// `groups` lists each name of `entries` once, in sorted order, with the
/// sources of that name in the order of `entries`.
pub open spec fn grouped(
    groups: Seq<(String, Vec<RecipeSource>)>,
    entries: Seq<(Seq<char>, (bool, Seq<char>))>,
) -> bool {
    &&& forall|i: int, j: int|
        0 <= i < j < groups.len() ==> seq_lt(#[trigger] groups[i].0@, #[trigger] groups[j].0@)
    &&& forall|i: int|
        0 <= i < groups.len() ==> sources_view(#[trigger] groups[i].1@) == sources_of(
            entries,
            groups[i].0@,
        ) && sources_of(entries, groups[i].0@).len() > 0
    &&& forall|k: int|
        0 <= k < entries.len() ==> exists|i: int|
            0 <= i < groups.len() && #[trigger] groups[i].0@ == #[trigger] entries[k].0
}

proof fn lemma_sources_push(
    entries: Seq<(Seq<char>, (bool, Seq<char>))>,
    e: (Seq<char>, (bool, Seq<char>)),
    name: Seq<char>,
)
    ensures
        sources_of(entries.push(e), name) == sources_of(entries, name) + if e.0 == name {
            seq![e.1]
        } else {
            Seq::<(bool, Seq<char>)>::empty()
        },
{
    assert(entries.push(e).drop_last() == entries);
}

proof fn lemma_sources_absent(entries: Seq<(Seq<char>, (bool, Seq<char>))>, name: Seq<char>)
    requires
        forall|k: int| 0 <= k < entries.len() ==> entries[k].0 != name,
    ensures
        sources_of(entries, name) == Seq::<(bool, Seq<char>)>::empty(),
    decreases entries.len(),
{
    if entries.len() > 0 {
        let init = entries.drop_last();
        assert forall|k: int| 0 <= k < init.len() implies init[k].0 != name by {
            assert(init[k] == entries[k]);
        }
        lemma_sources_absent(init, name);
        assert(entries[entries.len() - 1] == entries.last());
    }
}

/// Add one recipe name with its source to sorted, grouped recipes.
#[verifier::spinoff_prover]
#[verifier::rlimit(40)]
fn add_entry(
    groups: &mut Vec<(String, Vec<RecipeSource>)>,
    name: String,
    source: RecipeSource,
    Ghost(entries): Ghost<Seq<(Seq<char>, (bool, Seq<char>))>>,
)
    requires
        grouped(old(groups)@, entries),
    ensures
        grouped(final(groups)@, entries.push((name@, source_view(source)))),
{
    let ghost e = (name@, source_view(source));
    let ghost new_entries = entries.push(e);
    let ghost old_groups = groups@;
    let n = groups.len();
    let mut p: usize = 0;
    while p < n && str_lt(groups[p].0.as_str(), name.as_str())
        invariant
            n == groups@.len(),
            groups@ == old_groups,
            p <= n,
            forall|q: int| 0 <= q < p ==> seq_lt(#[trigger] groups@[q].0@, name@),
        decreases n - p,
    {
        p = p + 1;
    }
    proof {
        assert forall|q: int| 0 <= q < p implies #[trigger] old_groups[q].0@ != name@ by {
            lemma_seq_lt_total(name@, name@);
        }
        assert forall|i: int| 0 <= i < n implies #[trigger] old_groups[i].0@ != name@ || i == p by {
            if i > p {
                lemma_seq_lt_total(old_groups[p as int].0@, name@);
                assert(seq_lt(old_groups[p as int].0@, old_groups[i].0@));
                if old_groups[p as int].0@ != name@ {
                    lemma_seq_lt_trans(name@, old_groups[p as int].0@, old_groups[i].0@);
                    lemma_seq_lt_total(name@, name@);
                } else {
                    lemma_seq_lt_total(name@, name@);
                }
            }
        }
        assert forall|i: int| 0 <= i < n && old_groups[i].0@ != name@ implies sources_of(
            new_entries,
            #[trigger] old_groups[i].0@,
        ) == sources_of(entries, old_groups[i].0@) by {
            lemma_sources_push(entries, e, old_groups[i].0@);
        }
        lemma_sources_push(entries, e, name@);
    }
    if p < n && str_eq(groups[p].0.as_str(), name.as_str()) {
        let (existing, mut sources) = groups.remove(p);
        let ghost old_sources = sources@;
        sources.push(source);
        proof {
            assert(sources_view(sources@) == sources_view(old_sources).push(source_view(source)));
        }
        groups.insert(p, (existing, sources));
        proof {
            let g = groups@;
            assert(g.len() == n);
            assert forall|i: int| 0 <= i < n && i != p implies #[trigger] g[i] == old_groups[i] by {}
            assert forall|i: int, j: int| 0 <= i < j < g.len() implies seq_lt(
                #[trigger] g[i].0@,
                #[trigger] g[j].0@,
            ) by {
                assert(g[i].0@ == old_groups[i].0@);
                assert(g[j].0@ == old_groups[j].0@);
            }
            assert forall|i: int| 0 <= i < g.len() implies sources_view(#[trigger] g[i].1@)
                == sources_of(new_entries, g[i].0@) && sources_of(new_entries, g[i].0@).len()
                > 0 by {
                if i != p {
                    assert(g[i] == old_groups[i]);
                }
            }
            assert forall|k: int| 0 <= k < new_entries.len() implies exists|i: int|
                0 <= i < g.len() && #[trigger] g[i].0@ == #[trigger] new_entries[k].0 by {
                if k < entries.len() {
                    assert(new_entries[k] == entries[k]);
                    let i = choose|i: int|
                        0 <= i < old_groups.len() && #[trigger] old_groups[i].0@ == entries[k].0;
                    assert(g[i].0@ == old_groups[i].0@);
                } else {
                    assert(g[p as int].0@ == new_entries[k].0);
                }
            }
        }
    } else {
        proof {
            if p < n {
                lemma_seq_lt_total(name@, old_groups[p as int].0@);
            }
            assert forall|k: int| 0 <= k < entries.len() implies entries[k].0 != name@ by {
                let i = choose|i: int|
                    0 <= i < old_groups.len() && #[trigger] old_groups[i].0@ == #[trigger] entries[k].0;
            }
            lemma_sources_absent(entries, name@);
        }
        let ghost name_view = name@;
        let mut sources: Vec<RecipeSource> = Vec::new();
        sources.push(source);
        proof {
            assert(sources_view(sources@) == seq![source_view(source)]);
        }
        groups.insert(p, (name, sources));
        proof {
            let g = groups@;
            assert(g.len() == n + 1);
            assert(g[p as int].0@ == name_view);
            assert forall|i: int| 0 <= i < p implies #[trigger] g[i] == old_groups[i] by {}
            assert forall|i: int| p < i < g.len() implies #[trigger] g[i] == old_groups[i - 1] by {}
            assert forall|i: int, j: int| 0 <= i < j < g.len() implies seq_lt(
                #[trigger] g[i].0@,
                #[trigger] g[j].0@,
            ) by {
                if j < p {
                } else if j == p {
                    assert(seq_lt(old_groups[i].0@, name_view));
                } else if i == p {
                    if j - 1 > p {
                        assert(seq_lt(old_groups[p as int].0@, old_groups[j - 1].0@));
                        lemma_seq_lt_trans(name_view, old_groups[p as int].0@, old_groups[j - 1].0@);
                    }
                } else if i < p {
                    assert(g[j] == old_groups[j - 1]);
                } else {
                    assert(g[i] == old_groups[i - 1]);
                    assert(g[j] == old_groups[j - 1]);
                }
            }
            assert forall|i: int| 0 <= i < g.len() implies sources_view(#[trigger] g[i].1@)
                == sources_of(new_entries, g[i].0@) && sources_of(new_entries, g[i].0@).len()
                > 0 by {
                if i < p {
                    assert(g[i] == old_groups[i]);
                    assert(old_groups[i].0@ != name_view);
                    assert(sources_of(new_entries, old_groups[i].0@) == sources_of(
                        entries,
                        old_groups[i].0@,
                    ));
                    assert(sources_view(old_groups[i].1@) == sources_of(entries, old_groups[i].0@));
                    assert(sources_view(g[i].1@) == sources_of(new_entries, g[i].0@));
                } else if i > p {
                    assert(g[i] == old_groups[i - 1]);
                    assert(old_groups[i - 1].0@ != name_view);
                    assert(sources_of(new_entries, old_groups[i - 1].0@) == sources_of(
                        entries,
                        old_groups[i - 1].0@,
                    ));
                    assert(sources_view(old_groups[i - 1].1@) == sources_of(
                        entries,
                        old_groups[i - 1].0@,
                    ));
                    assert(sources_view(g[i].1@) == sources_of(new_entries, g[i].0@));
                } else {
                    assert(sources_of(new_entries, name_view) == seq![e.1]);
                    assert(g[i].1@ == sources@);
                    assert(sources_view(g[i].1@) == sources_of(new_entries, g[i].0@));
                }
            }
            assert forall|k: int| 0 <= k < new_entries.len() implies exists|i: int|
                0 <= i < g.len() && #[trigger] g[i].0@ == #[trigger] new_entries[k].0 by {
                if k < entries.len() {
                    assert(new_entries[k] == entries[k]);
                    let i = choose|i: int|
                        0 <= i < old_groups.len() && #[trigger] old_groups[i].0@ == entries[k].0;
                    if i < p {
                        assert(g[i] == old_groups[i]);
                    } else {
                        assert(g[i + 1] == old_groups[i]);
                    }
                } else {
                    assert(g[p as int].0@ == new_entries[k].0);
                }
            }
        }
    }
}

/// List all available recipes, grouped by name with all sources listed:
/// the names in sorted order, each with its sources in priority order (the
/// user's own first, as `local`, then the repositories in the order given).
pub fn list_recipes(local_names: &Vec<String>, repos: &Vec<(String, Vec<String>)>) -> (res: Vec<
    (String, Vec<RecipeSource>),
>)
    ensures
        grouped(res@, recipe_entries(local_names@, repos@)),
{
    let mut groups: Vec<(String, Vec<RecipeSource>)> = Vec::new();
    let ghost mut entries = Seq::<(Seq<char>, (bool, Seq<char>))>::empty();
    proof {
        reveal_strlit("local");
    }
    let mut i: usize = 0;
    while i < local_names.len()
        invariant
            0 <= i <= local_names@.len(),
            entries == local_entries(local_names@).take(i as int),
            grouped(groups@, entries),
        decreases local_names@.len() - i,
    {
        let name = local_names[i].clone();
        let source = RecipeSource::Local("local".to_owned());
        add_entry(&mut groups, name, source, Ghost(entries));
        proof {
            entries = entries.push((local_names@[i as int]@, (true, "local"@)));
        }
        i = i + 1;
        assert(entries == local_entries(local_names@).take(i as int));
    }
    assert(entries == local_entries(local_names@));
    let mut k: usize = 0;
    while k < repos.len()
        invariant
            0 <= k <= repos@.len(),
            entries == local_entries(local_names@) + repo_entries(repos@.take(k as int)),
            grouped(groups@, entries),
        decreases repos@.len() - k,
    {
        let repo = &repos[k];
        let ghost before = entries;
        let mut j: usize = 0;
        while j < repo.1.len()
            invariant
                0 <= j <= repo.1@.len(),
                *repo == repos@[k as int],
                entries == before + Seq::new(
                    j as nat,
                    |m: int| (repo.1@[m]@, (false, repo.0@)),
                ),
                grouped(groups@, entries),
            decreases repo.1@.len() - j,
        {
            let name = repo.1[j].clone();
            let source = RecipeSource::Remote(repo.0.clone());
            add_entry(&mut groups, name, source, Ghost(entries));
            proof {
                entries = entries.push((repo.1@[j as int]@, (false, repo.0@)));
            }
            j = j + 1;
            assert(entries == before + Seq::new(j as nat, |m: int| (repo.1@[m]@, (false, repo.0@))));
        }
        proof {
            assert(repos@.take(k + 1).drop_last() == repos@.take(k as int));
            assert(repos@.take(k + 1).last() == repos@[k as int]);
        }
        k = k + 1;
    }
    assert(repos@.take(repos@.len() as int) == repos@);
    groups
}


/// The recipe name in a file name: `name.yaml` gives `name` for a nonempty
/// `name`; any other file name gives none.  (A leading dot starts no
/// extension, so `.yaml` itself names no recipe.)
pub open spec fn yaml_stem(file_name: Seq<char>) -> Option<Seq<char>> {
    let n = file_name.len();
    if n > 5 && file_name.skip(n - 5) == ".yaml"@ {
        Some(file_name.take(n - 5))
    } else {
        None
    }
}

/// The recipe names among `file_names`, in the order given.
pub open spec fn yaml_stems(file_names: Seq<String>) -> Seq<Seq<char>>
    decreases file_names.len(),
{
    if file_names.len() == 0 {
        seq![]
    } else {
        let rest = yaml_stems(file_names.drop_last());
        match yaml_stem(file_names.last()@) {
            Some(stem) => rest.push(stem),
            None => rest,
        }
    }
}

/// The characters of each string.
pub open spec fn names_view(names: Seq<String>) -> Seq<Seq<char>> {
    names.map_values(|s: String| s@)
}

/// `names` is in sorted order.
pub open spec fn sorted_names(names: Seq<Seq<char>>) -> bool {
    forall|i: int, j: int| 0 <= i < j < names.len() ==> !seq_lt(#[trigger] names[j], #[trigger] names[i])
}

/// The recipe name of a file name, if it has one.
fn yaml_stem_of(file_name: &str) -> (res: Option<String>)
    ensures
        match yaml_stem(file_name@) {
            Some(stem) => res matches Some(s) && s@ == stem,
            None => res is None,
        },
{
    proof {
        reveal_strlit(".yaml");
    }
    let n = file_name.unicode_len();
    if n > 5 && str_eq(file_name.substring_char(n - 5, n), ".yaml") {
        proof {
            assert(file_name@.subrange(n - 5, n as int) == file_name@.skip(n - 5));
        }
        Some(file_name.substring_char(0, n - 5).to_owned())
    } else {
        proof {
            if n > 5 {
                assert(file_name@.subrange(n - 5, n as int) == file_name@.skip(n - 5));
            }
        }
        None
    }
}

/// Insert `name` into the sorted `names`, keeping them sorted.
fn insert_sorted(names: &mut Vec<String>, name: String)
    requires
        sorted_names(names_view(old(names)@)),
    ensures
        sorted_names(names_view(final(names)@)),
        names_view(final(names)@).to_multiset() == names_view(old(names)@).to_multiset().insert(
            name@,
        ),
{
    let ghost old_view = names_view(names@);
    let n = names.len();
    let mut p: usize = 0;
    while p < n && str_lt(names[p].as_str(), name.as_str())
        invariant
            n == names@.len(),
            names_view(names@) == old_view,
            p <= n,
            forall|q: int| 0 <= q < p ==> seq_lt(#[trigger] old_view[q], name@),
        decreases n - p,
    {
        p = p + 1;
    }
    let ghost name_view = name@;
    names.insert(p, name);
    proof {
        let nv = names_view(names@);
        assert(nv == old_view.insert(p as int, name_view));
        broadcast use vstd::seq_lib::to_multiset_insert;

        assert(nv.to_multiset() == old_view.to_multiset().insert(name_view));
        if p < n {
            lemma_seq_lt_total(old_view[p as int], name_view);
        }
        assert forall|i: int, j: int| 0 <= i < j < nv.len() implies !seq_lt(
            #[trigger] nv[j],
            #[trigger] nv[i],
        ) by {
            if j < p {
                assert(nv[i] == old_view[i] && nv[j] == old_view[j]);
            } else if j == p {
                assert(nv[i] == old_view[i]);
                lemma_seq_lt_total(old_view[i], name_view);
            } else if i == p {
                // name <= old[p] <= old[j - 1]
                assert(nv[j] == old_view[j - 1]);
                if seq_lt(old_view[j - 1], name_view) {
                    if j - 1 > p {
                        if old_view[p as int] == old_view[j - 1] {
                        } else {
                            lemma_seq_lt_total(old_view[p as int], old_view[j - 1]);
                            lemma_seq_lt_trans(old_view[j - 1], name_view, old_view[p as int]);
                        }
                    }
                }
            } else if i < p {
                assert(nv[i] == old_view[i] && nv[j] == old_view[j - 1]);
                if seq_lt(old_view[j - 1], old_view[i]) {
                    // old[i] < name <= old[p] <= old[j - 1]
                    lemma_seq_lt_trans(old_view[j - 1], old_view[i], name_view);
                    if j - 1 > p {
                        if old_view[p as int] != old_view[j - 1] {
                            lemma_seq_lt_total(old_view[p as int], old_view[j - 1]);
                            lemma_seq_lt_trans(old_view[j - 1], name_view, old_view[p as int]);
                        }
                    }
                }
            } else {
                assert(nv[i] == old_view[i - 1] && nv[j] == old_view[j - 1]);
            }
        }
    }
}

/// The recipe names among the file names of a directory, sorted: each
/// `name.yaml` gives `name`, and other files are passed over.
pub fn yaml_names(file_names: &Vec<String>) -> (res: Vec<String>)
    ensures
        sorted_names(names_view(res@)),
        names_view(res@).to_multiset() == yaml_stems(file_names@).to_multiset(),
{
    let mut names: Vec<String> = Vec::new();
    let mut i: usize = 0;
    proof {
        assert(file_names@.take(0) == Seq::<String>::empty());
        assert(names_view(names@) == Seq::<Seq<char>>::empty());
    }
    while i < file_names.len()
        invariant
            i <= file_names@.len(),
            sorted_names(names_view(names@)),
            names_view(names@).to_multiset() == yaml_stems(file_names@.take(i as int)).to_multiset(),
        decreases file_names@.len() - i,
    {
        let ghost before = file_names@.take(i as int);
        proof {
            assert(file_names@.take(i + 1).drop_last() == before);
            assert(file_names@.take(i + 1).last() == file_names@[i as int]);
        }
        match yaml_stem_of(file_names[i].as_str()) {
            Some(stem) => {
                proof {
                    broadcast use vstd::seq_lib::to_multiset_build;

                    assert(yaml_stems(file_names@.take(i + 1)) == yaml_stems(before).push(stem@));
                }
                insert_sorted(&mut names, stem);
            },
            None => {},
        }
        i = i + 1;
    }
    assert(file_names@.take(file_names@.len() as int) == file_names@);
    names
}


/// The text of "https://".
pub open spec fn https_prefix() -> Seq<char> {
    seq!['h', 't', 't', 'p', 's', ':', '/', '/']
}

/// The text of ".git".
pub open spec fn git_suffix() -> Seq<char> {
    seq!['.', 'g', 'i', 't']
}

/// `s` ends with `suffix`.
pub open spec fn ends_with(s: Seq<char>, suffix: Seq<char>) -> bool {
    s.len() >= suffix.len() && s.skip(s.len() - suffix.len()) == suffix
}

/// Repository paths of git URLs: `https://rest` gives `rest`, and
/// `git@host:path` gives `host/path` (the first `:` after `git@` is the
/// separator), for a URL with no trailing `/` or `.git`; a trailing `/`, or
/// a `.git` after a URL that does not end in `/`, changes nothing.
pub proof fn lemma_repo_path_forms(url: Seq<char>, rest: Seq<char>, host: Seq<char>, path: Seq<char>)
    ensures
        rest.len() > 0 && rest.last() != '/' && !ends_with(rest, git_suffix()) ==> spec_repo_path(
            https_prefix() + rest,
        ) == Some(rest),
        !host.contains(':') && path.len() > 0 && path.last() != '/' && !ends_with(
            path,
            git_suffix(),
        ) ==> spec_repo_path(seq!['g', 'i', 't', '@'] + host + seq![':'] + path) == Some(
            host + seq!['/'] + path,
        ),
        spec_repo_path(url.push('/')) == spec_repo_path(url),
        url.len() > 0 && url.last() != '/' ==> spec_repo_path(url + git_suffix())
            == spec_repo_path(url),
{
    reveal_strlit(".git");
    reveal_strlit("git@");
    reveal_strlit("https://");
    reveal_strlit("http://");
    assert(".git"@ == git_suffix());
    // A trailing slash is trimmed first.
    assert(url.push('/').drop_last() == url);
    // `.git` after a URL that does not end in `/`.
    if url.len() > 0 && url.last() != '/' {
        let u = url + git_suffix();
        assert(u.last() == 't');
        assert(u.skip(u.len() - 4) == git_suffix());
        assert(u.take(u.len() - 4) == url);
        assert(trim_end_char(url, '/') == url);
    }
    // https
    if rest.len() > 0 && rest.last() != '/' && !ends_with(rest, git_suffix()) {
        let u = https_prefix() + rest;
        assert(u.last() == rest.last());
        assert(trim_end_char(u, '/') == u);
        if rest.len() >= 4 {
            assert(u.skip(u.len() - 4) == rest.skip(rest.len() - 4));
        } else {
            let k = 3 - rest.len();
            assert(u[u.len() - 1 - rest.len()] == '/');
            assert(u.skip(u.len() - 4)[k] == '/');
            assert(u.skip(u.len() - 4) != git_suffix());
        }
        assert(trim_end_suffix(u, ".git"@) == u);
        assert(u.take(4) != "git@"@) by {
            assert(u.take(4)[0] == 'h');
            assert("git@"@[0] == 'g');
        }
        assert(u.take(8) == "https://"@);
        assert(u.skip(8) == rest);
    }
    // git@
    if !host.contains(':') && path.len() > 0 && path.last() != '/' && !ends_with(
        path,
        git_suffix(),
    ) {
        let u = seq!['g', 'i', 't', '@'] + host + seq![':'] + path;
        assert(u.last() == path.last());
        assert(trim_end_char(u, '/') == u);
        if path.len() >= 4 {
            assert(u.skip(u.len() - 4) == path.skip(path.len() - 4));
        } else {
            let k = 3 - path.len();
            assert(u[u.len() - 1 - path.len()] == ':');
            assert(u.skip(u.len() - 4)[k] == ':');
            assert(u.skip(u.len() - 4) != git_suffix());
        }
        assert(trim_end_suffix(u, ".git"@) == u);
        assert(u.take(4) == "git@"@);
        let t = u.skip(4);
        assert(t == host + seq![':'] + path);
        let i = host.len() as int;
        assert forall|j: int| 0 <= j < i implies t[j] != ':' by {
            assert(t[j] == host[j]);
        }
        lemma_replace_first(t, ':', '/', i);
        assert(t.take(i) == host);
        assert(t.skip(i + 1) == path);
    }
}

} // verus!

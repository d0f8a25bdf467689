//! Repository addresses: normalisation of what a user types, and the split
//! of a normalised address into owner and name.
use vstd::prelude::*;
use vstd::string::StringExecFns;

use crate::text::{
    chars_of, is_ascii_alphanumeric, is_ascii_alphanumeric_spec, is_whitespace_spec, occurs_at,
    string_from_chars, trim_end_ws, trim_start_ws,
    strip_leading, strip_trailing, trim, trim_end_matches, trim_start_matches, trim_ws,
};

verus! {

broadcast use vstd::seq_lib::group_seq_properties;

// ---------------------------------------------------------------------------
// Splitting on '/'
// ---------------------------------------------------------------------------

/// The pieces of `s` between the slashes, empty pieces included
/// (what `str::split('/')` yields; never empty).
pub open spec fn split_slash(s: Seq<char>) -> Seq<Seq<char>>
    decreases s.len(),
{
    if s.len() == 0 {
        seq![Seq::empty()]
    } else {
        let init = split_slash(s.drop_last());
        if s.last() == '/' {
            init.push(Seq::empty())
        } else {
            init.drop_last().push(init.last().push(s.last()))
        }
    }
}

/// Whether a piece is not empty.
pub open spec fn nonempty() -> spec_fn(Seq<char>) -> bool {
    |p: Seq<char>| p.len() > 0
}

/// The non-empty pieces of `s` between slashes.
pub open spec fn segments(s: Seq<char>) -> Seq<Seq<char>> {
    split_slash(s).filter(nonempty())
}

/// The character views of a sequence of character vectors.
pub open spec fn vec_views(v: Seq<Vec<char>>) -> Seq<Seq<char>> {
    v.map_values(|x: Vec<char>| x@)
}

pub proof fn lemma_split_slash_nonempty(s: Seq<char>)
    ensures
        split_slash(s).len() >= 1,
    decreases s.len(),
{
    if s.len() > 0 {
        lemma_split_slash_nonempty(s.drop_last());
    }
}

/// The pieces of `s` between slashes.
pub fn split_parts(s: &Vec<char>) -> (parts: Vec<Vec<char>>)
    ensures
        vec_views(parts@) == split_slash(s@),
{
    let mut done: Vec<Vec<char>> = Vec::new();
    let mut cur: Vec<char> = Vec::new();
    let mut i: usize = 0;
    assert(s@.take(0) =~= Seq::<char>::empty());
    while i < s.len()
        invariant
            i <= s.len(),
            split_slash(s@.take(i as int)) == vec_views(done@).push(cur@),
        decreases s.len() - i,
    {
        let ghost prev = s@.take(i as int);
        assert(s@.take(i + 1).drop_last() =~= prev);
        let ghost before = vec_views(done@);
        proof {
            lemma_split_slash_nonempty(prev);
        }
        if s[i] == '/' {
            done.push(cur);
            cur = Vec::new();
            assert(vec_views(done@) =~= before.push(split_slash(prev).last()));
            assert(split_slash(s@.take(i + 1)) =~= vec_views(done@).push(cur@));
        } else {
            cur.push(s[i]);
            assert(split_slash(prev).drop_last() =~= before);
            assert(split_slash(s@.take(i + 1)) =~= vec_views(done@).push(cur@));
        }
        i = i + 1;
    }
    assert(s@.take(s@.len() as int) =~= s@);
    let ghost before = vec_views(done@);
    done.push(cur);
    assert(vec_views(done@) =~= before.push(cur@));
    done
}

/// The non-empty pieces of `parts`, in order.
pub fn keep_nonempty(parts: Vec<Vec<char>>) -> (kept: Vec<Vec<char>>)
    ensures
        vec_views(kept@) == vec_views(parts@).filter(nonempty()),
{
    let mut kept: Vec<Vec<char>> = Vec::new();
    let mut i: usize = 0;
    assert(vec_views(parts@).take(0) =~= Seq::<Seq<char>>::empty());
    assert(Seq::<Seq<char>>::empty().filter(nonempty()) =~= Seq::<Seq<char>>::empty()) by {
        reveal(Seq::filter);
    }
    while i < parts.len()
        invariant
            i <= parts.len(),
            vec_views(kept@) == vec_views(parts@).take(i as int).filter(nonempty()),
        decreases parts.len() - i,
    {
        let ghost all = vec_views(parts@);
        assert(all.take(i + 1) =~= all.take(i as int).push(all[i as int]));
        proof {
            all.take(i as int).lemma_filter_push(all[i as int], nonempty());
        }
        let ghost before = vec_views(kept@);
        if parts[i].len() > 0 {
            kept.push(parts[i].clone());
            assert(vec_views(kept@) =~= before.push(all[i as int]));
        }
        i = i + 1;
    }
    assert(vec_views(parts@).take(parts@.len() as int) =~= vec_views(parts@));
    kept
}

// ---------------------------------------------------------------------------
// Slugs
// ---------------------------------------------------------------------------

/// Characters allowed in an owner or repository name.
pub open spec fn is_slug_char(c: char) -> bool {
    is_ascii_alphanumeric_spec(c) || c == '-' || c == '_' || c == '.'
}

/// A non-empty name made only of slug characters.
pub open spec fn is_slug(s: Seq<char>) -> bool {
    s.len() > 0 && forall|i: int| 0 <= i < s.len() ==> is_slug_char(#[trigger] s[i])
}

fn slug_chars(v: &Vec<char>) -> (b: bool)
    ensures
        b == is_slug(v@),
{
    if v.len() == 0 {
        return false;
    }
    let mut i: usize = 0;
    while i < v.len()
        invariant
            i <= v.len(),
            forall|k: int| 0 <= k < i ==> is_slug_char(#[trigger] v@[k]),
        decreases v.len() - i,
    {
        let c = v[i];
        if !(is_ascii_alphanumeric(c) || c == '-' || c == '_' || c == '.') {
            return false;
        }
        i = i + 1;
    }
    true
}

/// Whether `s` is a non-empty name of ASCII letters, digits, `-`, `_` and `.`.
pub fn is_simple_slug(s: &str) -> (b: bool)
    ensures
        b == is_slug(s@),
{
    slug_chars(&chars_of(s))
}

// ---------------------------------------------------------------------------
// Normalisation
// ---------------------------------------------------------------------------

/// What remains of a trimmed, non-empty address once the accepted prefixes
/// (`git@github.com:`, or `https://`, `http://`, `www.github.com/`,
/// `github.com/`, `github.com` and leading slashes) and the trailing slashes
/// and `.git` suffixes are removed.
pub open spec fn repo_path(s: Seq<char>) -> Seq<char> {
    let front = if "git@github.com:"@.is_prefix_of(s) {
        trim_start_matches(s, "git@github.com:"@)
    } else {
        trim_start_matches(
            trim_start_matches(
                trim_start_matches(
                    trim_start_matches(
                        trim_start_matches(trim_start_matches(s, "https://"@), "http://"@),
                        "www.github.com/"@,
                    ),
                    "github.com/"@,
                ),
                "github.com"@,
            ),
            seq!['/'],
        )
    };
    trim_end_matches(trim_end_matches(front, seq!['/']), ".git"@)
}

/// The canonical address of the repository `name` of `owner`.
pub open spec fn canonical_url(owner: Seq<char>, name: Seq<char>) -> Seq<char> {
    "https://github.com/"@ + owner + "/"@ + name
}

/// The normalised address for what a user typed, or the reason it is refused.
pub open spec fn normalize_spec(input: Seq<char>) -> Result<Seq<char>, Seq<char>> {
    let s = trim_ws(input);
    if s.len() == 0 {
        Err("Empty repo URL"@)
    } else {
        let parts = segments(repo_path(s));
        if parts.len() == 0 {
            Err("Missing owner"@)
        } else if parts.len() == 1 {
            Err("Missing repo"@)
        } else if parts.len() > 2 {
            Err("Repo must be OWNER/REPO (no extra path segments)"@)
        } else if !is_slug(parts[0]) || !is_slug(parts[1]) {
            Err("Owner/repo contains invalid characters"@)
        } else {
            Ok(canonical_url(parts[0], parts[1]))
        }
    }
}

/// The view of a string result.
pub open spec fn result_view(r: Result<String, String>) -> Result<Seq<char>, Seq<char>> {
    match r {
        Ok(s) => Ok(s@),
        Err(e) => Err(e@),
    }
}

fn literal(s: &str) -> (v: Vec<char>)
    ensures
        v@ == s@,
{
    chars_of(s)
}

fn strip_front(s: &Vec<char>) -> (v: Vec<char>)
    ensures
        v@ == (if "git@github.com:"@.is_prefix_of(s@) {
            trim_start_matches(s@, "git@github.com:"@)
        } else {
            trim_start_matches(
                trim_start_matches(
                    trim_start_matches(
                        trim_start_matches(
                            trim_start_matches(trim_start_matches(s@, "https://"@), "http://"@),
                            "www.github.com/"@,
                        ),
                        "github.com/"@,
                    ),
                    "github.com"@,
                ),
                seq!['/'],
            )
        }),
{
    let git = literal("git@github.com:");
    assert(s@.skip(0) =~= s@);
    if occurs_at(s, 0, &git) {
        strip_leading(s, &git)
    } else {
        let w = strip_leading(s, &literal("https://"));
        let w = strip_leading(&w, &literal("http://"));
        let w = strip_leading(&w, &literal("www.github.com/"));
        let w = strip_leading(&w, &literal("github.com/"));
        let w = strip_leading(&w, &literal("github.com"));
        let mut slash: Vec<char> = Vec::new();
        slash.push('/');
        assert(slash@ =~= seq!['/']);
        strip_leading(&w, &slash)
    }
}

/// Normalises a repository address to `https://github.com/OWNER/REPO`.
///
/// Accepted forms are `OWNER/REPO`, `github.com/OWNER/REPO`, full `http(s)`
/// addresses and `git@github.com:OWNER/REPO(.git)`.
pub fn normalize_repo_url(input: &str) -> (res: Result<String, String>)
    ensures
        result_view(res) == normalize_spec(input@),
{
    let chars = chars_of(input);
    let s = trim(&chars);
    if s.len() == 0 {
        return Err(String::from_str("Empty repo URL"));
    }
    let front = strip_front(&s);
    let mut slash: Vec<char> = Vec::new();
    slash.push('/');
    assert(slash@ =~= seq!['/']);
    let work = strip_trailing(&front, &slash);
    let work = strip_trailing(&work, &literal(".git"));
    assert(work@ == repo_path(s@));
    let parts = keep_nonempty(split_parts(&work));
    assert(vec_views(parts@) == segments(work@));
    if parts.len() == 0 {
        return Err(String::from_str("Missing owner"));
    }
    if parts.len() == 1 {
        return Err(String::from_str("Missing repo"));
    }
    if parts.len() > 2 {
        return Err(String::from_str("Repo must be OWNER/REPO (no extra path segments)"));
    }
    assert(vec_views(parts@)[0] == parts@[0]@);
    assert(vec_views(parts@)[1] == parts@[1]@);
    if !slug_chars(&parts[0]) || !slug_chars(&parts[1]) {
        return Err(String::from_str("Owner/repo contains invalid characters"));
    }
    let mut url = String::from_str("https://github.com/");
    url.append(string_from_chars(&parts[0]).as_str());
    url.append("/");
    url.append(string_from_chars(&parts[1]).as_str());
    Ok(url)
}

// ---------------------------------------------------------------------------
// Owner and name of a normalised address
// ---------------------------------------------------------------------------

/// The last two pieces of an address (after trimming white space and
/// trailing slashes), or the reason there are not two.
pub open spec fn owner_and_name_spec(url: Seq<char>) -> Result<(Seq<char>, Seq<char>), Seq<char>> {
    let parts = split_slash(trim_end_matches(trim_ws(url), seq!['/']));
    if parts.len() < 2 {
        Err("Invalid repo URL"@)
    } else {
        Ok((parts[parts.len() - 2], parts[parts.len() - 1]))
    }
}

/// The view of an owner/name result.
pub open spec fn pair_result_view(r: Result<(String, String), String>) -> Result<
    (Seq<char>, Seq<char>),
    Seq<char>,
> {
    match r {
        Ok((o, n)) => Ok((o@, n@)),
        Err(e) => Err(e@),
    }
}

/// The owner and repository name of an address `.../OWNER/REPO`.
pub fn owner_and_name(normalized_repo_url: &str) -> (res: Result<(String, String), String>)
    ensures
        pair_result_view(res) == owner_and_name_spec(normalized_repo_url@),
{
    let chars = chars_of(normalized_repo_url);
    let s = trim(&chars);
    let mut slash: Vec<char> = Vec::new();
    slash.push('/');
    assert(slash@ =~= seq!['/']);
    let s = strip_trailing(&s, &slash);
    let parts = split_parts(&s);
    let n = parts.len();
    if n < 2 {
        return Err(String::from_str("Invalid repo URL"));
    }
    assert(vec_views(parts@)[n - 2] == parts@[n - 2]@);
    assert(vec_views(parts@)[n - 1] == parts@[n - 1]@);
    let owner = string_from_chars(&parts[n - 2]);
    let name = string_from_chars(&parts[n - 1]);
    Ok((owner, name))
}

} // verus!

verus! {

// ---------------------------------------------------------------------------
// Laws
// ---------------------------------------------------------------------------

/// Splitting `s + t`, where `t` holds no slash, extends the last piece of `s` by `t`.
pub proof fn lemma_split_append_plain(s: Seq<char>, t: Seq<char>)
    requires
        forall|i: int| 0 <= i < t.len() ==> t[i] != '/',
    ensures
        split_slash(s + t) == split_slash(s).drop_last().push(split_slash(s).last() + t),
    decreases t.len(),
{
    lemma_split_slash_nonempty(s);
    if t.len() == 0 {
        assert(s + t =~= s);
        assert(split_slash(s).last() + t =~= split_slash(s).last());
        assert(split_slash(s).drop_last().push(split_slash(s).last()) =~= split_slash(s));
    } else {
        let t0 = t.drop_last();
        lemma_split_append_plain(s, t0);
        assert((s + t).drop_last() =~= s + t0);
        assert((s + t).last() == t.last());
        lemma_split_slash_nonempty(s + t0);
        assert((split_slash(s).last() + t0).push(t.last()) =~= split_slash(s).last() + t);
        assert(split_slash(s + t) =~= split_slash(s).drop_last().push(split_slash(s).last() + t));
    }
}

proof fn lemma_slug_has_no_slash_or_space(s: Seq<char>)
    requires
        is_slug(s),
    ensures
        forall|i: int| 0 <= i < s.len() ==> s[i] != '/',
        !is_whitespace_spec(s.last()),
{
    assert(is_slug_char(s[s.len() - 1]));
}

/// The canonical address of a slug owner and name splits back into them.
pub proof fn lemma_canonical_url_splits(owner: Seq<char>, name: Seq<char>)
    requires
        is_slug(owner),
        is_slug(name),
    ensures
        owner_and_name_spec(canonical_url(owner, name)) == Ok::<(Seq<char>, Seq<char>), Seq<char>>(
            (owner, name),
        ),
{
    reveal_strlit("https://github.com/");
    reveal_strlit("/");
    let p = "https://github.com/"@;
    let u = canonical_url(owner, name);
    lemma_slug_has_no_slash_or_space(owner);
    lemma_slug_has_no_slash_or_space(name);
    // white space and trailing slashes leave `u` unchanged
    assert(u[0] == 'h');
    assert(trim_start_ws(u) == u);
    assert(u.last() == name.last());
    assert(trim_end_ws(u) == u);
    assert(!seq!['/'].is_suffix_of(u)) by {
        if seq!['/'].is_suffix_of(u) {
            assert(u.subrange(u.len() - 1, u.len() as int)[0] == u.last());
        }
    }
    assert(trim_end_matches(u, seq!['/']) == u);
    // the pieces of `u`
    let po = p + owner;
    let pos = po.push('/');
    assert(p.drop_last().push('/') =~= p);
    assert(split_slash(p) == split_slash(p.drop_last()).push(Seq::empty()));
    lemma_split_append_plain(p, owner);
    assert(Seq::<char>::empty() + owner =~= owner);
    assert(split_slash(po) == split_slash(p).drop_last().push(owner));
    assert(pos.drop_last() =~= po);
    assert(split_slash(pos) == split_slash(po).push(Seq::empty()));
    assert(p + owner + "/"@ =~= pos);
    lemma_split_append_plain(pos, name);
    assert(Seq::<char>::empty() + name =~= name);
    assert(split_slash(u) =~= split_slash(po).push(name));
    lemma_split_slash_nonempty(po);
}

/// Every address that normalisation accepts is the canonical address of a slug
/// owner and name, and splits back into exactly that owner and name.
pub proof fn lemma_normalized_url_splits(input: Seq<char>)
    requires
        normalize_spec(input) is Ok,
    ensures
        ({
            let u = normalize_spec(input)->Ok_0;
            exists|owner: Seq<char>, name: Seq<char>|
                {
                    &&& is_slug(owner)
                    &&& is_slug(name)
                    &&& u == canonical_url(owner, name)
                    &&& owner_and_name_spec(u) == Ok::<(Seq<char>, Seq<char>), Seq<char>>(
                        (owner, name),
                    )
                }
        }),
{
    let parts = segments(repo_path(trim_ws(input)));
    lemma_canonical_url_splits(parts[0], parts[1]);
}

} // verus!

verus! {

proof fn lemma_not_prefix_at(p: Seq<char>, s: Seq<char>, i: int)
    requires
        0 <= i < p.len(),
        i < s.len(),
        p[i] != s[i],
    ensures
        !p.is_prefix_of(s),
{
    if p.is_prefix_of(s) {
        assert(s.subrange(0, p.len() as int)[i] == s[i]);
    }
}

proof fn lemma_trim_start_stops(s: Seq<char>, p: Seq<char>)
    requires
        !p.is_prefix_of(s),
    ensures
        trim_start_matches(s, p) == s,
{
}

proof fn lemma_trim_start_once(s: Seq<char>, p: Seq<char>)
    requires
        p.len() > 0,
        !p.is_prefix_of(s),
    ensures
        trim_start_matches(p + s, p) == s,
{
    assert(p.is_prefix_of(p + s)) by {
        assert((p + s).subrange(0, p.len() as int) =~= p);
    }
    assert((p + s).skip(p.len() as int) =~= s);
    lemma_trim_start_stops(s, p);
}

/// An owner that does not begin with `github.com`, followed by a slash, does
/// not begin with `github.com/` nor with `github.com`.
proof fn lemma_host_not_prefix(o: Seq<char>, rest: Seq<char>)
    requires
        is_slug(o),
        !"github.com"@.is_prefix_of(o),
        rest.len() > 0,
        rest[0] == '/',
    ensures
        !"github.com/"@.is_prefix_of(o + rest),
        !"github.com"@.is_prefix_of(o + rest),
{
    reveal_strlit("github.com/");
    reveal_strlit("github.com");
    let h = "github.com"@;
    let s = o + rest;
    lemma_slug_has_no_slash_or_space(o);
    if o.len() >= 10 {
        if h.is_prefix_of(s) {
            assert(s.subrange(0, 10) =~= o.subrange(0, 10));
            assert(h.is_prefix_of(o));
        }
        if "github.com/"@.is_prefix_of(s) {
            assert(forall|i: int| 0 <= i < 10 ==> s[i] == "github.com/"@[i]);
            assert(s.subrange(0, 10) =~= h);
            assert(h.is_prefix_of(o)) by {
                assert(o.subrange(0, 10) =~= s.subrange(0, 10));
            }
        }
    } else {
        // the slash after the owner meets a character of the host name
        let k = o.len() as int;
        assert(s[k] == '/');
        lemma_not_prefix_at(h, s, k);
        lemma_not_prefix_at("github.com/"@, s, k);
    }
}

/// A non-empty piece with no slash that does not end in white space.
pub open spec fn plain_tail(s: Seq<char>) -> bool {
    &&& s.len() > 0
    &&& forall|i: int| 0 <= i < s.len() ==> s[i] != '/'
    &&& !is_whitespace_spec(s.last())
}

proof fn lemma_canonical_trimmed(owner: Seq<char>, name: Seq<char>)
    requires
        plain_tail(name),
    ensures
        trim_ws(canonical_url(owner, name)) == canonical_url(owner, name),
{
    reveal_strlit("https://github.com/");
    let u = canonical_url(owner, name);
    assert(u[0] == 'h');
    assert(trim_start_ws(u) == u);
    assert(u.last() == name.last());
    assert(trim_end_ws(u) == u);
}

proof fn lemma_canonical_front(owner: Seq<char>, name: Seq<char>)
    requires
        is_slug(owner),
        !"github.com"@.is_prefix_of(owner),
    ensures
        ({
            let front = owner + (seq!['/'] + name);
            let g = "github.com/"@ + front;
            &&& canonical_url(owner, name) == "https://"@ + g
            &&& !"git@github.com:"@.is_prefix_of(canonical_url(owner, name))
            &&& trim_start_matches(
                trim_start_matches(
                    trim_start_matches(
                        trim_start_matches(
                            trim_start_matches(
                                trim_start_matches(canonical_url(owner, name), "https://"@),
                                "http://"@,
                            ),
                            "www.github.com/"@,
                        ),
                        "github.com/"@,
                    ),
                    "github.com"@,
                ),
                seq!['/'],
            ) == front
        }),
{
    reveal_strlit("https://github.com/");
    reveal_strlit("https://");
    reveal_strlit("http://");
    reveal_strlit("www.github.com/");
    reveal_strlit("github.com/");
    reveal_strlit("git@github.com:");
    reveal_strlit("/");
    let u = canonical_url(owner, name);
    lemma_slug_has_no_slash_or_space(owner);
    let tail = seq!['/'] + name;
    let front = owner + tail;
    let g = "github.com/"@ + front;
    assert(u =~= "https://"@ + g);
    lemma_not_prefix_at("git@github.com:"@, u, 1);
    lemma_not_prefix_at("https://"@, g, 0);
    lemma_trim_start_once(g, "https://"@);
    lemma_not_prefix_at("http://"@, g, 0);
    lemma_trim_start_stops(g, "http://"@);
    lemma_not_prefix_at("www.github.com/"@, g, 0);
    lemma_trim_start_stops(g, "www.github.com/"@);
    lemma_host_not_prefix(owner, tail);
    lemma_trim_start_once(front, "github.com/"@);
    lemma_trim_start_stops(front, "github.com"@);
    assert(front[0] == owner[0]);
    assert(is_slug_char(owner[0]));
    lemma_not_prefix_at(seq!['/'], front, 0);
    lemma_trim_start_stops(front, seq!['/']);
}

proof fn lemma_canonical_end(owner: Seq<char>, name: Seq<char>)
    requires
        plain_tail(name),
        !".git"@.is_suffix_of(name),
    ensures
        trim_end_matches(trim_end_matches(owner + (seq!['/'] + name), seq!['/']), ".git"@)
            == owner + (seq!['/'] + name),
        !seq!['/'].is_suffix_of(owner + (seq!['/'] + name)),
        !".git"@.is_suffix_of(owner + (seq!['/'] + name)),
{
    reveal_strlit(".git");
    let front = owner + (seq!['/'] + name);
    assert(front.last() == name.last());
    assert(!seq!['/'].is_suffix_of(front)) by {
        if seq!['/'].is_suffix_of(front) {
            assert(front.subrange(front.len() - 1, front.len() as int)[0] == front.last());
        }
    }
    assert(!".git"@.is_suffix_of(front)) by {
        if ".git"@.is_suffix_of(front) {
            let n = front.len();
            if name.len() >= 4 {
                assert(name.subrange(name.len() - 4, name.len() as int) =~= front.subrange(
                    n - 4,
                    n as int,
                ));
            } else {
                let k = n - 1 - name.len();
                assert(front[k] == '/');
                assert(front.subrange(n - 4, n as int)[k - (n - 4)] == front[k]);
            }
        }
    }
}

proof fn lemma_two_segments(owner: Seq<char>, name: Seq<char>)
    requires
        is_slug(owner),
        plain_tail(name),
    ensures
        segments(owner + (seq!['/'] + name)) == seq![owner, name],
{
    let front = owner + (seq!['/'] + name);
    lemma_slug_has_no_slash_or_space(owner);
    assert(split_slash(Seq::<char>::empty()) == seq![Seq::<char>::empty()]);
    lemma_split_append_plain(Seq::<char>::empty(), owner);
    assert(Seq::<char>::empty() + owner =~= owner);
    assert(split_slash(owner) =~= seq![owner]);
    assert(owner.push('/').drop_last() =~= owner);
    assert(split_slash(owner.push('/')) =~= seq![owner, Seq::<char>::empty()]);
    lemma_split_append_plain(owner.push('/'), name);
    assert(owner.push('/') + name =~= front);
    assert(Seq::<char>::empty() + name =~= name);
    assert(split_slash(front) =~= seq![owner, name]);
    let e = Seq::<Seq<char>>::empty();
    assert(e.filter(nonempty()) =~= e) by {
        reveal(Seq::filter);
    }
    e.lemma_filter_push(owner, nonempty());
    assert(e.push(owner) =~= seq![owner]);
    seq![owner].lemma_filter_push(name, nonempty());
    assert(seq![owner].push(name) =~= seq![owner, name]);
    assert(e.push(owner) =~= seq![owner]);
    assert(segments(front) =~= seq![owner, name]);
}

/// Normalising a canonical address gives it back, unless the owner begins
/// with `github.com` or the name ends with `.git` (both are stripped again).
pub proof fn lemma_canonical_url_is_stable(owner: Seq<char>, name: Seq<char>)
    requires
        is_slug(owner),
        is_slug(name),
        !"github.com"@.is_prefix_of(owner),
        !".git"@.is_suffix_of(name),
    ensures
        normalize_spec(canonical_url(owner, name)) == Ok::<Seq<char>, Seq<char>>(
            canonical_url(owner, name),
        ),
{
    let u = canonical_url(owner, name);
    let front = owner + (seq!['/'] + name);
    lemma_slug_has_no_slash_or_space(name);
    lemma_canonical_trimmed(owner, name);
    lemma_canonical_front(owner, name);
    lemma_canonical_end(owner, name);
    assert(repo_path(u) == front);
    lemma_two_segments(owner, name);
    assert(u.len() > 0);
}

/// Normalising an accepted address again gives the same address, unless its
/// owner begins with `github.com` or its name ends with `.git`.
pub proof fn lemma_normalize_idempotent(input: Seq<char>)
    requires
        normalize_spec(input) is Ok,
        !"github.com"@.is_prefix_of(segments(repo_path(trim_ws(input)))[0]),
        !".git"@.is_suffix_of(segments(repo_path(trim_ws(input)))[1]),
    ensures
        normalize_spec(normalize_spec(input)->Ok_0) == normalize_spec(input),
{
    let parts = segments(repo_path(trim_ws(input)));
    lemma_canonical_url_is_stable(parts[0], parts[1]);
}

/// Every address that normalisation accepts is `https://github.com/`, a
/// non-empty owner, `/` and a non-empty name, where owner and name hold only
/// ASCII letters, digits, `-`, `_` and `.`.
pub proof fn lemma_accepted_address_form(input: Seq<char>)
    requires
        normalize_spec(input) is Ok,
    ensures
        exists|owner: Seq<char>, name: Seq<char>|
            {
                &&& normalize_spec(input)->Ok_0 == "https://github.com/"@ + owner + "/"@ + name
                &&& owner.len() > 0
                &&& name.len() > 0
                &&& forall|i: int|
                    0 <= i < owner.len() ==> {
                        let c = #[trigger] owner[i];
                        ('a' <= c <= 'z') || ('A' <= c <= 'Z') || ('0' <= c <= '9') || c == '-'
                            || c == '_' || c == '.'
                    }
                &&& forall|i: int|
                    0 <= i < name.len() ==> {
                        let c = #[trigger] name[i];
                        ('a' <= c <= 'z') || ('A' <= c <= 'Z') || ('0' <= c <= '9') || c == '-'
                            || c == '_' || c == '.'
                    }
            },
{
    let parts = segments(repo_path(trim_ws(input)));
    let owner = parts[0];
    let name = parts[1];
    assert(forall|i: int| 0 <= i < owner.len() ==> is_slug_char(#[trigger] owner[i]));
    assert(forall|i: int| 0 <= i < name.len() ==> is_slug_char(#[trigger] name[i]));
}

/// A canonical address whose owner is plain and whose name holds any
/// character other than ASCII letters, digits, `-`, `_` and `.` (such as `?`
/// or `=`) is refused with "Owner/repo contains invalid characters".
pub proof fn lemma_bad_name_refused(owner: Seq<char>, name: Seq<char>, bad: int)
    requires
        owner.len() > 0,
        forall|i: int|
            0 <= i < owner.len() ==> {
                let c = #[trigger] owner[i];
                ('a' <= c <= 'z') || ('A' <= c <= 'Z') || ('0' <= c <= '9') || c == '-' || c
                    == '_' || c == '.'
            },
        !"github.com"@.is_prefix_of(owner),
        name.len() > 0,
        forall|i: int| 0 <= i < name.len() ==> name[i] != '/',
        !is_whitespace_spec(name.last()),
        !".git"@.is_suffix_of(name),
        0 <= bad < name.len(),
        !(('a' <= name[bad] <= 'z') || ('A' <= name[bad] <= 'Z') || ('0' <= name[bad] <= '9')
            || name[bad] == '-' || name[bad] == '_' || name[bad] == '.'),
    ensures
        normalize_spec("https://github.com/"@ + owner + "/"@ + name) == Err::<
            Seq<char>,
            Seq<char>,
        >("Owner/repo contains invalid characters"@),
{
    assert(is_slug(owner)) by {
        assert forall|i: int| 0 <= i < owner.len() implies is_slug_char(#[trigger] owner[i]) by {
            let c = owner[i];
            assert(('a' <= c <= 'z') || ('A' <= c <= 'Z') || ('0' <= c <= '9') || c == '-' || c
                == '_' || c == '.');
        }
    }
    assert(!is_slug(name)) by {
        assert(!is_slug_char(name[bad]));
    }
    let u = canonical_url(owner, name);
    assert(u == "https://github.com/"@ + owner + "/"@ + name);
    let front = owner + (seq!['/'] + name);
    lemma_canonical_trimmed(owner, name);
    lemma_canonical_front(owner, name);
    lemma_canonical_end(owner, name);
    assert(repo_path(u) == front);
    lemma_two_segments(owner, name);
    assert(u.len() > 0);
}

/// A pattern whose `k`-th character is neither a slug character nor a slash,
/// with no slash before it, does not begin `owner/name`.
proof fn lemma_prefix_blocked(owner: Seq<char>, name: Seq<char>, p: Seq<char>, k: int)
    requires
        is_slug(owner),
        0 <= k < p.len(),
        !is_slug_char(p[k]),
        p[k] != '/',
        forall|j: int| 0 <= j < k ==> p[j] != '/',
    ensures
        !p.is_prefix_of(owner + (seq!['/'] + name)),
{
    let front = owner + (seq!['/'] + name);
    if owner.len() > k {
        assert(front[k] == owner[k]);
        assert(is_slug_char(owner[k]));
        lemma_not_prefix_at(p, front, k);
    } else {
        let m = owner.len() as int;
        assert(front[m] == '/');
        lemma_not_prefix_at(p, front, m);
    }
}

/// `owner/name` begins with none of the prefixes that normalisation strips
/// (given the owner is not a host name).
#[verifier::rlimit(30)]
proof fn lemma_front_plain(owner: Seq<char>, name: Seq<char>)
    requires
        is_slug(owner),
        !"github.com"@.is_prefix_of(owner),
        owner != "www.github.com"@,
    ensures
        ({
            let front = owner + (seq!['/'] + name);
            &&& !"git@github.com:"@.is_prefix_of(front)
            &&& !"https://"@.is_prefix_of(front)
            &&& !"http://"@.is_prefix_of(front)
            &&& !"www.github.com/"@.is_prefix_of(front)
            &&& !"github.com/"@.is_prefix_of(front)
            &&& !"github.com"@.is_prefix_of(front)
            &&& !seq!['/'].is_prefix_of(front)
        }),
{
    reveal_strlit("git@github.com:");
    reveal_strlit("https://");
    reveal_strlit("http://");
    reveal_strlit("www.github.com/");
    let front = owner + (seq!['/'] + name);
    lemma_slug_has_no_slash_or_space(owner);
    lemma_prefix_blocked(owner, name, "git@github.com:"@, 3);
    lemma_prefix_blocked(owner, name, "https://"@, 5);
    lemma_prefix_blocked(owner, name, "http://"@, 4);
    let w = "www.github.com/"@;
    if owner.len() < 14 {
        let m = owner.len() as int;
        assert(front[m] == '/');
        lemma_not_prefix_at(w, front, m);
    } else if owner.len() > 14 {
        assert(front[14] == owner[14]);
        assert(is_slug_char(owner[14]));
        lemma_not_prefix_at(w, front, 14);
    } else if w.is_prefix_of(front) {
        assert(owner =~= w.take(14)) by {
            assert forall|j: int| 0 <= j < 14 implies owner[j] == w[j] by {
                assert(front.subrange(0, 15)[j] == front[j]);
                assert(front[j] == owner[j]);
            }
        }
        reveal_strlit("www.github.com");
        assert(w.take(14) =~= "www.github.com"@);
    }
    lemma_host_not_prefix(owner, seq!['/'] + name);
    assert(front[0] == owner[0]);
    assert(is_slug_char(owner[0]));
    lemma_not_prefix_at(seq!['/'], front, 0);
}

/// A trimmed address whose path is `owner/name`, both slugs, normalises to
/// the canonical address.
proof fn lemma_path_gives(s: Seq<char>, owner: Seq<char>, name: Seq<char>)
    requires
        s.len() > 0,
        !is_whitespace_spec(s[0]),
        !is_whitespace_spec(s.last()),
        repo_path(s) == owner + (seq!['/'] + name),
        is_slug(owner),
        is_slug(name),
    ensures
        normalize_spec(s) == Ok::<Seq<char>, Seq<char>>(canonical_url(owner, name)),
{
    assert(trim_start_ws(s) == s);
    assert(trim_end_ws(s) == s);
    lemma_slug_has_no_slash_or_space(name);
    lemma_two_segments(owner, name);
}

/// The conditions under which the forms below are accepted.
pub open spec fn plain_pair(owner: Seq<char>, name: Seq<char>) -> bool {
    &&& is_slug(owner)
    &&& is_slug(name)
    &&& !"github.com"@.is_prefix_of(owner)
    &&& owner != "www.github.com"@
    &&& !".git"@.is_suffix_of(name)
}

#[verifier::rlimit(30)]
proof fn lemma_form_plain(owner: Seq<char>, name: Seq<char>)
    requires
        plain_pair(owner, name),
    ensures
        normalize_spec(owner + "/"@ + name) == Ok::<Seq<char>, Seq<char>>(
            canonical_url(owner, name),
        ),
{
    reveal_strlit("/");
    let front = owner + (seq!['/'] + name);
    assert(owner + "/"@ + name =~= front);
    lemma_slug_has_no_slash_or_space(name);
    lemma_front_plain(owner, name);
    lemma_canonical_end(owner, name);
    assert(front[0] == owner[0]);
    assert(front.last() == name.last());
    assert(is_slug_char(owner[0]));
    assert(repo_path(front) == front);
    lemma_path_gives(front, owner, name);
}

#[verifier::rlimit(30)]
proof fn lemma_form_host(owner: Seq<char>, name: Seq<char>)
    requires
        plain_pair(owner, name),
    ensures
        normalize_spec("github.com/"@ + owner + "/"@ + name) == Ok::<
            Seq<char>,
            Seq<char>,
        >(canonical_url(owner, name)),
{
    reveal_strlit("github.com/");
    reveal_strlit("https://");
    reveal_strlit("http://");
    reveal_strlit("www.github.com/");
    reveal_strlit("git@github.com:");
    let front = owner + (seq!['/'] + name);
    lemma_slug_has_no_slash_or_space(name);
    lemma_front_plain(owner, name);
    lemma_canonical_end(owner, name);
    let g = "github.com/"@ + front;
    reveal_strlit("/");
    assert("github.com/"@ + owner + "/"@ + name =~= g);
    lemma_not_prefix_at("git@github.com:"@, g, 3);
    lemma_not_prefix_at("https://"@, g, 0);
    lemma_not_prefix_at("http://"@, g, 0);
    lemma_not_prefix_at("www.github.com/"@, g, 0);
    lemma_trim_start_once(front, "github.com/"@);
    assert(repo_path(g) == front);
    assert(g.last() == name.last());
    lemma_path_gives(g, owner, name);
}

#[verifier::rlimit(30)]
proof fn lemma_form_http(owner: Seq<char>, name: Seq<char>)
    requires
        plain_pair(owner, name),
    ensures
        normalize_spec("http://github.com/"@ + owner + "/"@ + name) == Ok::<
            Seq<char>,
            Seq<char>,
        >(canonical_url(owner, name)),
{
    reveal_strlit("github.com/");
    reveal_strlit("https://");
    reveal_strlit("http://");
    reveal_strlit("www.github.com/");
    reveal_strlit("git@github.com:");
    let front = owner + (seq!['/'] + name);
    lemma_slug_has_no_slash_or_space(name);
    lemma_front_plain(owner, name);
    lemma_canonical_end(owner, name);
    let g = "github.com/"@ + front;
    let h = "http://"@ + g;
    reveal_strlit("/");
    reveal_strlit("http://github.com/");
    assert("http://github.com/"@ + owner + "/"@ + name =~= h);
    lemma_not_prefix_at("git@github.com:"@, h, 0);
    lemma_not_prefix_at("https://"@, h, 4);
    lemma_not_prefix_at("http://"@, g, 0);
    lemma_trim_start_once(g, "http://"@);
    lemma_not_prefix_at("www.github.com/"@, g, 0);
    lemma_trim_start_once(front, "github.com/"@);
    assert(repo_path(h) == front);
    assert(h.last() == name.last());
    lemma_path_gives(h, owner, name);
}

#[verifier::rlimit(30)]
proof fn lemma_form_ssh(owner: Seq<char>, name: Seq<char>)
    requires
        plain_pair(owner, name),
    ensures
        normalize_spec("git@github.com:"@ + owner + "/"@ + name) == Ok::<
            Seq<char>,
            Seq<char>,
        >(canonical_url(owner, name)),
{
    reveal_strlit("git@github.com:");
    let front = owner + (seq!['/'] + name);
    let gp = "git@github.com:"@;
    lemma_slug_has_no_slash_or_space(name);
    lemma_front_plain(owner, name);
    lemma_canonical_end(owner, name);
    let s1 = gp + front;
    reveal_strlit("/");
    assert(gp + owner + "/"@ + name =~= s1);
    assert(gp.is_prefix_of(s1)) by {
        assert(s1.subrange(0, gp.len() as int) =~= gp);
    }
    lemma_trim_start_once(front, gp);
    assert(repo_path(s1) == front);
    assert(s1.last() == name.last());
    lemma_path_gives(s1, owner, name);
}

#[verifier::rlimit(30)]
proof fn lemma_form_ssh_git(owner: Seq<char>, name: Seq<char>)
    requires
        plain_pair(owner, name),
    ensures
        normalize_spec("git@github.com:"@ + owner + "/"@ + name + ".git"@) == Ok::<
            Seq<char>,
            Seq<char>,
        >(canonical_url(owner, name)),
{
    reveal_strlit("git@github.com:");
    reveal_strlit(".git");
    let front = owner + (seq!['/'] + name);
    let gp = "git@github.com:"@;
    lemma_slug_has_no_slash_or_space(name);
    lemma_canonical_end(owner, name);
    let fg = front + ".git"@;
    let nameg = name + ".git"@;
    assert(is_slug(nameg)) by {
        assert forall|i: int| 0 <= i < nameg.len() implies is_slug_char(#[trigger] nameg[i]) by {
            if i < name.len() {
                assert(nameg[i] == name[i]);
            }
        }
    }
    assert(fg =~= owner + (seq!['/'] + nameg));
    lemma_prefix_blocked(owner, nameg, gp, 3);
    let s2 = gp + fg;
    reveal_strlit("/");
    assert(gp + owner + "/"@ + name + ".git"@ =~= s2);
    assert(gp.is_prefix_of(s2)) by {
        assert(s2.subrange(0, gp.len() as int) =~= gp);
    }
    lemma_trim_start_once(fg, gp);
    assert(fg.last() == 't');
    assert(!seq!['/'].is_suffix_of(fg)) by {
        if seq!['/'].is_suffix_of(fg) {
            assert(fg.subrange(fg.len() - 1, fg.len() as int)[0] == fg.last());
        }
    }
    assert(trim_end_matches(fg, seq!['/']) == fg);
    assert(".git"@.is_suffix_of(fg)) by {
        assert(fg.subrange(fg.len() - 4, fg.len() as int) =~= ".git"@);
    }
    assert(fg.take(fg.len() - 4) =~= front);
    assert(trim_end_matches(fg, ".git"@) == trim_end_matches(front, ".git"@));
    assert(trim_end_matches(front, ".git"@) == front);
    assert(repo_path(s2) == front);
    assert(s2.last() == 't');
    lemma_path_gives(s2, owner, name);
}

/// The forms of address that normalisation accepts: `OWNER/REPO`,
/// `github.com/OWNER/REPO`, `http://` or `https://github.com/OWNER/REPO`,
/// and `git@github.com:OWNER/REPO` with or without `.git`, all give
/// `https://github.com/OWNER/REPO`, for every owner and name made of ASCII
/// letters, digits, `-`, `_` and `.` (but an owner that is itself a GitHub
/// host name, or a name ending in `.git`, which normalisation strips).
#[verifier::rlimit(30)]
pub proof fn lemma_accepted_forms(owner: Seq<char>, name: Seq<char>)
    requires
        is_slug(owner),
        is_slug(name),
        !"github.com"@.is_prefix_of(owner),
        owner != "www.github.com"@,
        !".git"@.is_suffix_of(name),
    ensures
        ({
            let want = Ok::<Seq<char>, Seq<char>>("https://github.com/"@ + owner + "/"@ + name);
            &&& normalize_spec(owner + "/"@ + name) == want
            &&& normalize_spec("github.com/"@ + owner + "/"@ + name) == want
            &&& normalize_spec("http://github.com/"@ + owner + "/"@ + name) == want
            &&& normalize_spec("https://github.com/"@ + owner + "/"@ + name) == want
            &&& normalize_spec("git@github.com:"@ + owner + "/"@ + name) == want
            &&& normalize_spec("git@github.com:"@ + owner + "/"@ + name + ".git"@) == want
        }),
{
    lemma_form_plain(owner, name);
    lemma_form_host(owner, name);
    lemma_form_http(owner, name);
    lemma_canonical_url_is_stable(owner, name);
    lemma_form_ssh(owner, name);
    lemma_form_ssh_git(owner, name);
}

proof fn lemma_trim_start_push(x: Seq<char>, c: char)
    requires
        is_whitespace_spec(c),
    ensures
        trim_start_ws(x).len() == 0 ==> trim_start_ws(x.push(c)).len() == 0,
        trim_start_ws(x).len() > 0 ==> trim_start_ws(x.push(c)) == trim_start_ws(x).push(c),
    decreases x.len(),
{
    if x.len() == 0 {
        assert(x.push(c) =~= seq![c]);
        assert(seq![c].drop_first().len() == 0);
    } else if is_whitespace_spec(x[0]) {
        assert(x.push(c).drop_first() =~= x.drop_first().push(c));
        lemma_trim_start_push(x.drop_first(), c);
    } else {
        assert(x.push(c)[0] == x[0]);
    }
}

/// White space before or after a typed address changes nothing: the
/// address is trimmed first.
pub proof fn lemma_surrounding_space(x: Seq<char>, c: char)
    requires
        is_whitespace_spec(c),
    ensures
        normalize_spec(seq![c] + x) == normalize_spec(x),
        normalize_spec(x.push(c)) == normalize_spec(x),
{
    assert((seq![c] + x).drop_first() =~= x);
    assert(trim_start_ws(seq![c] + x) == trim_start_ws(x));
    lemma_trim_start_push(x, c);
    let t = trim_start_ws(x);
    if t.len() > 0 {
        assert(t.push(c).drop_last() =~= t);
        assert(trim_end_ws(t.push(c)) == trim_end_ws(t));
    } else {
        assert(trim_start_ws(x.push(c)) =~= Seq::<char>::empty());
        assert(trim_ws(x) =~= Seq::<char>::empty());
        assert(trim_ws(x.push(c)) =~= Seq::<char>::empty());
    }
    assert(trim_ws(x.push(c)) == trim_ws(x));
}

} // verus!

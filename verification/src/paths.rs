//! Path and filename logic.
//!
//! The core handles paths as plain `/`-separated strings: the application
//! canonicalizes a path before handing it in, and the functions here take
//! components, stems and extensions apart, test root-prefix containment,
//! and render the output filename template.

use vstd::prelude::*;
use vstd::string::*;

verus! {

/// What `str::to_lowercase` returns for a given character sequence.
pub uninterp spec fn lower_of(s: Seq<char>) -> Seq<char>;

/// Relies on `str::to_lowercase`: Unicode lowercasing, a pure function of
/// the input characters alone; an empty string stays empty.
#[verifier::external_body]
fn lowercase(s: &str) -> (r: String)
    ensures
        r@ == lower_of(s@),
        s@.len() == 0 ==> r@.len() == 0,
{
    s.to_lowercase()
}

/// Case-insensitive string equality, by lowercasing both sides.
pub fn eq_ignore_case(a: &str, b: &str) -> (r: bool)
    ensures
        r == (lower_of(a@) == lower_of(b@)),
{
    let la = lowercase(a);
    let lb = lowercase(b);
    la == lb
}

/// The index of the last occurrence of `c` in `s`, or -1 if `c` does not occur.
pub open spec fn last_index_of(s: Seq<char>, c: char) -> int
    decreases s.len(),
{
    if s.len() == 0 {
        -1
    } else if s[s.len() - 1] == c {
        s.len() - 1
    } else {
        last_index_of(s.drop_last(), c)
    }
}

pub proof fn lemma_last_index_of(s: Seq<char>, c: char)
    ensures
        -1 <= last_index_of(s, c) < s.len(),
        last_index_of(s, c) >= 0 ==> s[last_index_of(s, c)] == c,
        forall|j: int| last_index_of(s, c) < j < s.len() ==> s[j] != c,
    decreases s.len(),
{
    if s.len() > 0 && s[s.len() - 1] != c {
        lemma_last_index_of(s.drop_last(), c);
        assert forall|j: int| last_index_of(s, c) < j < s.len() implies s[j] != c by {
            if j < s.len() - 1 {
                assert(s.drop_last()[j] == s[j]);
            }
        }
    }
}

proof fn lemma_last_index_of_found(s: Seq<char>, c: char, k: int)
    requires
        0 <= k < s.len(),
        s[k] == c,
        forall|j: int| k < j < s.len() ==> s[j] != c,
    ensures
        last_index_of(s, c) == k,
    decreases s.len(),
{
    if k < s.len() - 1 {
        assert(s.drop_last()[k] == s[k]);
        assert forall|j: int| k < j < s.drop_last().len() implies s.drop_last()[j] != c by {
            assert(s.drop_last()[j] == s[j]);
        }
        lemma_last_index_of_found(s.drop_last(), c, k);
    }
}

proof fn lemma_last_index_of_absent(s: Seq<char>, c: char)
    requires
        forall|j: int| 0 <= j < s.len() ==> s[j] != c,
    ensures
        last_index_of(s, c) == -1,
    decreases s.len(),
{
    if s.len() > 0 {
        assert forall|j: int| 0 <= j < s.drop_last().len() implies s.drop_last()[j] != c by {
            assert(s.drop_last()[j] == s[j]);
        }
        lemma_last_index_of_absent(s.drop_last(), c);
    }
}

/// Finds the last occurrence of `c` in `s`.
pub fn find_last(s: &str, c: char) -> (r: Option<usize>)
    ensures
        match r {
            Some(i) => i == last_index_of(s@, c),
            None => last_index_of(s@, c) == -1,
        },
{
    let n = s.unicode_len();
    let mut i: usize = n;
    while i > 0
        invariant
            i <= n,
            n == s@.len(),
            forall|j: int| i <= j < n ==> s@[j] != c,
        decreases i,
    {
        i = i - 1;
        if s.get_char(i) == c {
            proof {
                lemma_last_index_of_found(s@, c, i as int);
            }
            return Some(i);
        }
    }
    proof {
        lemma_last_index_of_absent(s@, c);
    }
    None
}

/// Everything after the last `/`, or the whole string if there is none.
pub open spec fn spec_last_component(p: Seq<char>) -> Seq<char> {
    p.subrange(last_index_of(p, '/') + 1, p.len() as int)
}

pub fn last_component(p: &str) -> (r: String)
    ensures
        r@ == spec_last_component(p@),
{
    proof {
        lemma_last_index_of(p@, '/');
    }
    let n = p.unicode_len();
    match find_last(p, '/') {
        Some(i) => String::from_str(p.substring_char(i + 1, n)),
        None => {
            let r = String::from_str(p.substring_char(0, n));
            proof {
                assert(p@.subrange(0, n as int) =~= p@.subrange(
                    last_index_of(p@, '/') + 1,
                    p@.len() as int,
                ));
            }
            r
        },
    }
}

/// The final component without its extension: `None` when the final
/// component is empty; the whole component when it holds no `.` past its
/// first character; otherwise everything before the last `.`.
pub open spec fn spec_file_stem(p: Seq<char>) -> Option<Seq<char>> {
    let name = spec_last_component(p);
    if name.len() == 0 {
        None
    } else {
        let d = last_index_of(name, '.');
        if d <= 0 {
            Some(name)
        } else {
            Some(name.subrange(0, d))
        }
    }
}

/// The extension of the final component: what follows the last `.`, when
/// that `.` stands past the component's first character.
pub open spec fn spec_extension(p: Seq<char>) -> Option<Seq<char>> {
    let name = spec_last_component(p);
    let d = last_index_of(name, '.');
    if d <= 0 {
        None
    } else {
        Some(name.subrange(d + 1, name.len() as int))
    }
}

pub fn file_stem(p: &str) -> (r: Option<String>)
    ensures
        match r {
            Some(st) => spec_file_stem(p@) == Some(st@),
            None => spec_file_stem(p@) is None,
        },
{
    let name = last_component(p);
    let n = name.as_str().unicode_len();
    if n == 0 {
        return None;
    }
    proof {
        lemma_last_index_of(name@, '.');
    }
    match find_last(name.as_str(), '.') {
        Some(d) if d > 0 => Some(String::from_str(name.as_str().substring_char(0, d))),
        _ => Some(name),
    }
}

pub fn extension(p: &str) -> (r: Option<String>)
    ensures
        match r {
            Some(e) => spec_extension(p@) == Some(e@),
            None => spec_extension(p@) is None,
        },
{
    let name = last_component(p);
    let n = name.as_str().unicode_len();
    proof {
        lemma_last_index_of(name@, '.');
    }
    match find_last(name.as_str(), '.') {
        Some(d) if d > 0 => Some(String::from_str(name.as_str().substring_char(d + 1, n))),
        _ => None,
    }
}

/// Whether `root` contains `p`: `root` is a leading piece of `p` and the cut
/// falls on a component boundary.
pub open spec fn spec_is_path_prefix(root: Seq<char>, p: Seq<char>) -> bool {
    &&& root.len() <= p.len()
    &&& p.subrange(0, root.len() as int) == root
    &&& (root.len() == p.len() || p[root.len() as int] == '/' || (root.len() > 0 && root[
        root.len() - 1
    ] == '/'))
}

pub fn is_path_prefix(root: &str, p: &str) -> (r: bool)
    ensures
        r == spec_is_path_prefix(root@, p@),
{
    let rn = root.unicode_len();
    let pn = p.unicode_len();
    if rn > pn {
        return false;
    }
    let mut i: usize = 0;
    while i < rn
        invariant
            i <= rn,
            rn == root@.len(),
            pn == p@.len(),
            rn <= pn,
            forall|j: int| 0 <= j < i ==> p@[j] == root@[j],
        decreases rn - i,
    {
        if p.get_char(i) != root.get_char(i) {
            proof {
                assert(p@.subrange(0, rn as int)[i as int] == p@[i as int]);
            }
            return false;
        }
        i = i + 1;
    }
    proof {
        assert(p@.subrange(0, rn as int) =~= root@);
    }
    if rn == pn {
        return true;
    }
    if p.get_char(rn) == '/' {
        return true;
    }
    if rn > 0 && root.get_char(rn - 1) == '/' {
        return true;
    }
    false
}

/// `dir / name`: a single `/` stands between the two, unless `dir` is empty
/// or already ends with one.
pub open spec fn spec_join_path(dir: Seq<char>, name: Seq<char>) -> Seq<char> {
    if dir.len() == 0 {
        name
    } else if dir[dir.len() - 1] == '/' {
        dir + name
    } else {
        dir + seq!['/'] + name
    }
}

pub fn join_path(dir: &str, name: &str) -> (r: String)
    ensures
        r@ == spec_join_path(dir@, name@),
{
    let n = dir.unicode_len();
    if n == 0 {
        return String::from_str(name);
    }
    if dir.get_char(n - 1) == '/' {
        return String::from_str(dir).concat(name);
    }
    let r = String::from_str(dir).concat("/").concat(name);
    proof {
        reveal_strlit("/");
        assert(r@ =~= dir@ + seq!['/'] + name@);
    }
    r
}

/// The placeholder that an output filename template may hold.
pub open spec fn placeholder() -> Seq<char> {
    seq!['{', 'f', 'i', 'l', 'e', 'n', 'a', 'm', 'e', '}']
}

/// The template with every occurrence of the placeholder replaced by `name`,
/// scanning left to right and never rescanning replaced text.
pub open spec fn spec_render(t: Seq<char>, name: Seq<char>) -> Seq<char>
    decreases t.len(),
{
    if t.len() < 10 {
        t
    } else if t.subrange(0, 10) == placeholder() {
        name + spec_render(t.skip(10), name)
    } else {
        seq![t[0]] + spec_render(t.skip(1), name)
    }
}

/// Whether the placeholder stands in `t` at position `i`.
fn placeholder_at(t: &str, i: usize, tn: usize) -> (r: bool)
    requires
        tn == t@.len(),
        i <= tn,
    ensures
        r == (i + 10 <= tn && t@.subrange(i as int, i as int + 10) == placeholder()),
{
    if tn - i < 10 {
        return false;
    }
    let pat = "{filename}";
    proof {
        reveal_strlit("{filename}");
        assert(pat@ =~= placeholder());
    }
    let mut k: usize = 0;
    while k < 10
        invariant
            k <= 10,
            i + 10 <= tn,
            tn == t@.len(),
            pat@ == placeholder(),
            forall|j: int| 0 <= j < k ==> t@[i + j] == placeholder()[j],
        decreases 10 - k,
    {
        if t.get_char(i + k) != pat.get_char(k) {
            proof {
                assert(t@.subrange(i as int, i as int + 10)[k as int] == t@[i + k]);
            }
            return false;
        }
        k = k + 1;
    }
    proof {
        assert(t@.subrange(i as int, i as int + 10) =~= placeholder());
    }
    true
}

/// Renders an output filename template: every occurrence of the placeholder
/// is replaced by `name`, all other characters pass through unchanged.
pub fn render_template(template: &str, name: &str) -> (r: String)
    ensures
        r@ == spec_render(template@, name@),
{
    let tn = template.unicode_len();
    let mut out = String::new();
    let mut i: usize = 0;
    proof {
        assert(template@.skip(0) =~= template@);
        assert(out@ + spec_render(template@, name@) =~= spec_render(template@, name@));
    }
    while i < tn
        invariant
            i <= tn,
            tn == template@.len(),
            out@ + spec_render(template@.skip(i as int), name@) == spec_render(
                template@,
                name@,
            ),
        decreases tn - i,
    {
        if placeholder_at(template, i, tn) {
            out.append(name);
            proof {
                assert(template@.skip(i as int).subrange(0, 10) =~= template@.subrange(
                    i as int,
                    i as int + 10,
                ));
                assert(template@.skip(i as int).skip(10) =~= template@.skip(i as int + 10));
            }
            i = i + 10;
        } else {
            let piece = template.substring_char(i, i + 1);
            out.append(piece);
            proof {
                let rest = template@.skip(i as int);
                assert(rest.skip(1) =~= template@.skip(i as int + 1));
                if rest.len() < 10 {
                    assert(rest =~= seq![template@[i as int]] + rest.skip(1));
                } else {
                    assert(rest.subrange(0, 10) =~= template@.subrange(i as int, i as int + 10));
                    assert(rest.subrange(0, 10) != placeholder());
                    assert(seq![rest[0]] =~= template@.subrange(i as int, i as int + 1));
                }
            }
            i = i + 1;
        }
    }
    proof {
        assert(template@.skip(tn as int) =~= Seq::<char>::empty());
    }
    out
}

/// The views of a sequence of strings.
pub open spec fn views(v: Seq<String>) -> Seq<Seq<char>> {
    v.map_values(|s: String| s@)
}

/// Character-for-character string equality.
pub fn str_eq(a: &str, b: &str) -> (r: bool)
    ensures
        r == (a@ == b@),
{
    let an = a.unicode_len();
    let bn = b.unicode_len();
    if an != bn {
        return false;
    }
    let mut i: usize = 0;
    while i < an
        invariant
            i <= an,
            an == a@.len(),
            bn == b@.len(),
            an == bn,
            forall|j: int| 0 <= j < i ==> a@[j] == b@[j],
        decreases an - i,
    {
        if a.get_char(i) != b.get_char(i) {
            return false;
        }
        i = i + 1;
    }
    proof {
        assert(a@ =~= b@);
    }
    true
}

/// Whether some configured extension equals `ext`, comparing
/// case-insensitively.
pub fn extension_matches(extensions: &Vec<String>, ext: &str) -> (r: bool)
    ensures
        r == exists|k: int|
            0 <= k < extensions@.len() && #[trigger] lower_of(extensions@[k]@) == lower_of(ext@),
{
    let ext_lower = lowercase(ext);
    let mut i: usize = 0;
    while i < extensions.len()
        invariant
            i <= extensions@.len(),
            ext_lower@ == lower_of(ext@),
            forall|k: int| 0 <= k < i ==> #[trigger] lower_of(extensions@[k]@) != lower_of(ext@),
        decreases extensions@.len() - i,
    {
        let cand = lowercase(extensions[i].as_str());
        if cand == ext_lower {
            proof {
                assert(lower_of(extensions@[i as int]@) == lower_of(ext@));
            }
            return true;
        }
        i = i + 1;
    }
    false
}

} // verus!

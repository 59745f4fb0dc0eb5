//! Lexical path arithmetic on `/`-separated paths: joining, normalising `.`
//! and `..`, and reading or replacing a file name's extension.
use vstd::prelude::*;

use crate::text::{split, split_on, strings_view};

verus! {

pub open spec fn dot() -> Seq<char> {
    seq!['.']
}

pub open spec fn dot_dot() -> Seq<char> {
    seq!['.', '.']
}

pub open spec fn slash() -> Seq<char> {
    seq!['/']
}

pub open spec fn is_absolute(p: Seq<char>) -> bool {
    p.len() > 0 && p[0] == '/'
}

/// Applies one component to the components kept so far: empty and `.`
/// components vanish, `..` removes the last kept name (at the root of an
/// absolute path there is none to remove; a relative path keeps it).
pub open spec fn apply_component(kept: Seq<Seq<char>>, c: Seq<char>, absolute: bool) -> Seq<
    Seq<char>,
> {
    if c.len() == 0 || c == dot() {
        kept
    } else if c == dot_dot() {
        if kept.len() > 0 && kept.last() != dot_dot() {
            kept.drop_last()
        } else if absolute {
            kept
        } else {
            kept.push(c)
        }
    } else {
        kept.push(c)
    }
}

pub open spec fn resolve_components(cs: Seq<Seq<char>>, absolute: bool) -> Seq<Seq<char>>
    decreases cs.len(),
{
    if cs.len() == 0 {
        Seq::empty()
    } else {
        apply_component(resolve_components(cs.drop_last(), absolute), cs.last(), absolute)
    }
}

pub open spec fn join_with_slash(cs: Seq<Seq<char>>) -> Seq<char>
    decreases cs.len(),
{
    if cs.len() == 0 {
        Seq::empty()
    } else if cs.len() == 1 {
        cs[0]
    } else {
        join_with_slash(cs.drop_last()) + slash() + cs.last()
    }
}

pub open spec fn render(absolute: bool, cs: Seq<Seq<char>>) -> Seq<char> {
    if absolute {
        slash() + join_with_slash(cs)
    } else if cs.len() == 0 {
        dot()
    } else {
        join_with_slash(cs)
    }
}

/// The components of `p` that remain once `.` and `..` are resolved.
pub open spec fn normal_components(p: Seq<char>) -> Seq<Seq<char>> {
    resolve_components(split_on(p, '/'), is_absolute(p))
}

/// `p` with `.` and `..` resolved and no empty component.
pub open spec fn normalized(p: Seq<char>) -> Seq<char> {
    render(is_absolute(p), normal_components(p))
}

/// `rel` read from the directory `dir`, normalised: an absolute `rel` stands
/// alone, and an empty `dir` is the current directory.
pub open spec fn joined(dir: Seq<char>, rel: Seq<char>) -> Seq<char> {
    if is_absolute(rel) || dir.len() == 0 {
        normalized(rel)
    } else {
        normalized(dir + slash() + rel)
    }
}

/// `rel` appended to `dir` as written, without normalising: an absolute
/// `rel` or an empty `dir` leaves `rel` alone, and no separator is doubled.
pub open spec fn appended(dir: Seq<char>, rel: Seq<char>) -> Seq<char> {
    if is_absolute(rel) || dir.len() == 0 {
        rel
    } else if dir.last() == '/' {
        dir + rel
    } else {
        dir + slash() + rel
    }
}

/// The index of the last `.` of `name`, or -1.
pub open spec fn last_dot(name: Seq<char>) -> int
    decreases name.len(),
{
    if name.len() == 0 {
        -1
    } else if name.last() == '.' {
        name.len() - 1
    } else {
        last_dot(name.drop_last())
    }
}

/// The last name of `p`, if `p` ends in one (not in `..`, not at a root).
pub open spec fn file_name(p: Seq<char>) -> Option<Seq<char>> {
    let cs = normal_components(p);
    if cs.len() == 0 || cs.last() == dot_dot() {
        None
    } else {
        Some(cs.last())
    }
}

/// What follows the last `.` of a name, where that `.` is not its first
/// character.
pub open spec fn name_extension(name: Seq<char>) -> Option<Seq<char>> {
    if last_dot(name) > 0 {
        Some(name.skip(last_dot(name) + 1))
    } else {
        None
    }
}

pub open spec fn extension(p: Seq<char>) -> Option<Seq<char>> {
    match file_name(p) {
        Some(name) => name_extension(name),
        None => None,
    }
}

pub open spec fn js_suffix() -> Seq<char> {
    seq!['.', 'j', 's']
}

/// Whether a name already ends in `.js`.
pub open spec fn ends_in_js(name: Seq<char>) -> bool {
    name.len() >= 3 && name.skip(name.len() - 3) == js_suffix()
}

/// The normalised `p` with `.js` added to its last name, unless that name
/// already ends in `.js`: `util` gives `util.js`, `a.b` gives `a.b.js`.
pub open spec fn with_js(p: Seq<char>) -> Seq<char> {
    let cs = normal_components(p);
    match file_name(p) {
        Some(name) => if ends_in_js(name) {
            normalized(p)
        } else {
            render(is_absolute(p), cs.update(cs.len() - 1, name + js_suffix()))
        },
        None => normalized(p),
    }
}

fn is_dot(c: &String) -> (r: bool)
    ensures
        r == (c@ == dot()),
{
    let r = c.as_str().unicode_len() == 1 && c.as_str().get_char(0) == '.';
    assert(r ==> c@ =~= dot());
    r
}

fn is_dot_dot(c: &String) -> (r: bool)
    ensures
        r == (c@ == dot_dot()),
{
    let s = c.as_str();
    let r = s.unicode_len() == 2 && s.get_char(0) == '.' && s.get_char(1) == '.';
    assert(r ==> c@ =~= dot_dot());
    r
}

pub fn absolute(p: &str) -> (r: bool)
    ensures
        r == is_absolute(p@),
{
    p.unicode_len() > 0 && p.get_char(0) == '/'
}

/// The components of `p` once `.` and `..` are resolved.
pub fn components(p: &str) -> (r: Vec<String>)
    ensures
        strings_view(r@) == normal_components(p@),
{
    let abs = absolute(p);
    let parts = split(p, '/');
    let ghost cs = strings_view(parts@);
    let mut kept: Vec<String> = Vec::new();
    let mut i: usize = 0;
    assert(cs.take(0) =~= Seq::<Seq<char>>::empty());
    assert(strings_view(kept@) =~= resolve_components(cs.take(0), abs));
    while i < parts.len()
        invariant
            cs == strings_view(parts@),
            cs == split_on(p@, '/'),
            abs == is_absolute(p@),
            i <= parts.len(),
            strings_view(kept@) == resolve_components(cs.take(i as int), abs),
        decreases parts.len() - i,
    {
        let ghost before = strings_view(kept@);
        assert(cs.take(i + 1).drop_last() =~= cs.take(i as int));
        let c = &parts[i];
        if c.as_str().unicode_len() == 0 || is_dot(c) {
        } else if is_dot_dot(c) {
            let n = kept.len();
            if n > 0 && !is_dot_dot(&kept[n - 1]) {
                kept.pop();
                assert(strings_view(kept@) =~= before.drop_last());
            } else if !abs {
                kept.push(c.clone());
                assert(strings_view(kept@) =~= before.push(c@));
            }
        } else {
            kept.push(c.clone());
            assert(strings_view(kept@) =~= before.push(c@));
        }
        i = i + 1;
    }
    assert(cs.take(i as int) =~= cs);
    kept
}

pub fn render_components(abs: bool, cs: &Vec<String>) -> (r: String)
    ensures
        r@ == render(abs, strings_view(cs@)),
{
    let ghost v = strings_view(cs@);
    let mut out = if abs {
        String::from_str("/")
    } else {
        String::new()
    };
    proof {
        reveal_strlit("/");
    }
    let ghost lead = out@;
    assert(lead == (if abs {
        slash()
    } else {
        Seq::<char>::empty()
    }));
    let mut i: usize = 0;
    assert(v.take(0) =~= Seq::<Seq<char>>::empty());
    assert(out@ =~= lead + join_with_slash(v.take(0)));
    while i < cs.len()
        invariant
            v == strings_view(cs@),
            i <= cs.len(),
            out@ == lead + join_with_slash(v.take(i as int)),
        decreases cs.len() - i,
    {
        assert(v.take(i + 1).drop_last() =~= v.take(i as int));
        assert(v[i as int] == cs@[i as int]@);
        proof {
            reveal_strlit("/");
        }
        if i > 0 {
            out.append("/");
            assert(join_with_slash(v.take(i + 1)) == join_with_slash(v.take(i as int)) + slash()
                + v[i as int]);
        } else {
            assert(join_with_slash(v.take(1)) == v[0]);
        }
        out.append(cs[i].as_str());
        i = i + 1;
        assert(out@ =~= lead + join_with_slash(v.take(i as int)));
    }
    assert(v.take(i as int) =~= v);
    if !abs && cs.len() == 0 {
        proof {
            reveal_strlit(".");
        }
        let r = String::from_str(".");
        assert(r@ =~= dot());
        return r;
    }
    assert(lead + join_with_slash(v) =~= render(abs, v));
    out
}

/// `p` with `.` and `..` resolved and empty components dropped.
pub fn normalize(p: &str) -> (r: String)
    ensures
        r@ == normalized(p@),
{
    let cs = components(p);
    render_components(absolute(p), &cs)
}

/// `rel` read from the directory `dir`, normalised.
pub fn join_path(dir: &str, rel: &str) -> (r: String)
    ensures
        r@ == joined(dir@, rel@),
{
    if absolute(rel) || dir.unicode_len() == 0 {
        normalize(rel)
    } else {
        let mut full = String::from_str(dir);
        full.append("/");
        full.append(rel);
        proof {
            reveal_strlit("/");
        }
        assert(full@ =~= dir@ + slash() + rel@);
        normalize(full.as_str())
    }
}

/// `rel` appended to `dir` as written, without normalising.
pub fn append_path(dir: &str, rel: &str) -> (r: String)
    ensures
        r@ == appended(dir@, rel@),
{
    let n = dir.unicode_len();
    if absolute(rel) || n == 0 {
        return String::from_str(rel);
    }
    let mut full = String::from_str(dir);
    proof {
        reveal_strlit("/");
    }
    if dir.get_char(n - 1) != '/' {
        full.append("/");
    }
    full.append(rel);
    full
}

fn last_dot_index(name: &str) -> (r: Option<usize>)
    ensures
        match r {
            Some(k) => k as int == last_dot(name@) && k < name@.len(),
            None => last_dot(name@) == -1,
        },
{
    let n = name.unicode_len();
    let mut found: Option<usize> = None;
    let mut i: usize = 0;
    assert(name@.take(0) =~= Seq::<char>::empty());
    while i < n
        invariant
            n == name@.len(),
            i <= n,
            match found {
                Some(k) => k as int == last_dot(name@.take(i as int)) && k < i,
                None => last_dot(name@.take(i as int)) == -1,
            },
        decreases n - i,
    {
        assert(name@.take(i + 1).drop_last() =~= name@.take(i as int));
        if name.get_char(i) == '.' {
            found = Some(i);
        }
        i = i + 1;
    }
    assert(name@.take(n as int) =~= name@);
    found
}

/// The last name of `p`, if it ends in one.
pub fn file_name_of(p: &str) -> (r: Option<String>)
    ensures
        match r {
            Some(name) => file_name(p@) == Some(name@),
            None => file_name(p@) is None,
        },
{
    let cs = components(p);
    let n = cs.len();
    if n == 0 {
        return None;
    }
    assert(strings_view(cs@).last() == cs@[n - 1]@);
    if is_dot_dot(&cs[n - 1]) {
        None
    } else {
        Some(cs[n - 1].clone())
    }
}

fn name_extension_of(name: &str) -> (r: Option<String>)
    ensures
        match r {
            Some(e) => name_extension(name@) == Some(e@),
            None => name_extension(name@) is None,
        },
{
    let n = name.unicode_len();
    match last_dot_index(name) {
        Some(k) if k > 0 => Some(String::from_str(name.substring_char(k + 1, n))),
        _ => None,
    }
}

/// What follows the last `.` of the last name of `p`, if anything does.
pub fn extension_of(p: &str) -> (r: Option<String>)
    ensures
        match r {
            Some(e) => extension(p@) == Some(e@),
            None => extension(p@) is None,
        },
{
    match file_name_of(p) {
        Some(name) => name_extension_of(name.as_str()),
        None => None,
    }
}

fn name_ends_in_js(name: &str) -> (r: bool)
    ensures
        r == ends_in_js(name@),
{
    let n = name.unicode_len();
    if n < 3 {
        return false;
    }
    let r = name.get_char(n - 3) == '.' && name.get_char(n - 2) == 'j' && name.get_char(n - 1)
        == 's';
    assert(r ==> name@.skip(n - 3) =~= js_suffix());
    assert(name@.skip(n - 3) == js_suffix() ==> name@.skip(n - 3)[0] == '.' && name@.skip(n - 3)[1]
        == 'j' && name@.skip(n - 3)[2] == 's');
    r
}

/// `p`, normalised, with `.js` added to its last name unless that name
/// already ends in `.js`.
pub fn with_js_extension(p: &str) -> (r: String)
    ensures
        r@ == with_js(p@),
{
    let mut cs = components(p);
    let n = cs.len();
    if n == 0 || is_dot_dot(&cs[n - 1]) {
        return render_components(absolute(p), &cs);
    }
    let ghost v = strings_view(cs@);
    let mut name = cs[n - 1].clone();
    assert(name@ == v.last());
    if name_ends_in_js(name.as_str()) {
        return render_components(absolute(p), &cs);
    }
    let ghost old_name = name@;
    name.append(".js");
    proof {
        reveal_strlit(".js");
    }
    assert(name@ =~= old_name + js_suffix());
    cs.set(n - 1, name);
    assert(strings_view(cs@) =~= v.update(v.len() - 1, old_name + js_suffix()));
    render_components(absolute(p), &cs)
}

} // verus!

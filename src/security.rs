//! The security policy of an extension: capability paths with wildcard
//! matching, declared external commands, and the guard that every native
//! entry point runs first.
use vstd::prelude::*;

use crate::text::{lemma_split_nonempty, split, split_on, strings_view, strs_view, to_strings};

verus! {

/// The dot-separated segments of a capability path.
pub open spec fn split_on_dots(s: Seq<char>) -> Seq<Seq<char>> {
    split_on(s, '.')
}

/// The segment that stands for "every child at this level".
pub open spec fn wildcard_segment() -> Seq<char> {
    seq!['*']
}

/// A grant covers a query when, reading both left to right, a `*` segment of
/// the grant is reached while every earlier segment matched, or when the two
/// have the same segments.
pub open spec fn grant_covers(grant: Seq<Seq<char>>, query: Seq<Seq<char>>) -> bool {
    ||| exists|k: int|
        0 <= k < grant.len() && k <= query.len() && #[trigger] grant[k] == wildcard_segment()
            && grant.take(k) == query.take(k)
    ||| grant == query
}

/// One granted capability path, such as `avdan.file.read` or `avdan.file.*`.
pub struct Permission {
    contents: String,
}

impl View for Permission {
    type V = Seq<char>;

    closed spec fn view(&self) -> Seq<char> {
        self.contents@
    }
}

impl Permission {
    pub fn new(contents: &str) -> (r: Permission)
        ensures
            r@ == contents@,
    {
        Permission { contents: String::from_str(contents) }
    }

    /// Whether this grant covers the capability path `permission`.
    pub fn has(&self, permission: &str) -> (r: bool)
        ensures
            r == grant_covers(split_on_dots(self@), split_on_dots(permission@)),
    {
        let grant = split(self.contents.as_str(), '.');
        let query = split(permission, '.');
        let ghost g = strings_view(grant@);
        let ghost q = strings_view(query@);
        let star = String::from_str("*");
        proof {
            reveal_strlit("*");
            assert(star@ =~= wildcard_segment());
        }
        let mut i: usize = 0;
        while i < grant.len()
            invariant
                g == strings_view(grant@),
                q == strings_view(query@),
                g == split_on_dots(self@),
                q == split_on_dots(permission@),
                star@ == wildcard_segment(),
                i <= grant.len(),
                i <= query.len(),
                g.take(i as int) == q.take(i as int),
                forall|k: int| 0 <= k < i ==> g[k] != wildcard_segment(),
            decreases grant.len() - i,
        {
            if grant[i] == star {
                assert(g[i as int] == wildcard_segment());
                return true;
            }
            if i >= query.len() {
                assert(g.len() != q.len());
                assert forall|k: int|
                    0 <= k < g.len() && k <= q.len() && #[trigger] g[k] == wildcard_segment() implies g.take(k)
                    != q.take(k) by {}
                return false;
            }
            if grant[i] != query[i] {
                assert(g[i as int] != q[i as int]);
                assert forall|k: int|
                    0 <= k < g.len() && k <= q.len() && #[trigger] g[k] == wildcard_segment() implies g.take(k)
                    != q.take(k) by {
                    assert(k > i);
                    assert(g.take(k)[i as int] == g[i as int]);
                    assert(q.take(k)[i as int] == q[i as int]);
                }
                return false;
            }
            assert(g.take(i + 1) =~= g.take(i as int).push(g[i as int]));
            assert(q.take(i + 1) =~= q.take(i as int).push(q[i as int]));
            i = i + 1;
        }
        assert(g.take(i as int) =~= g);
        if i == query.len() {
            assert(q.take(i as int) =~= q);
            true
        } else {
            assert(g.len() != q.len());
            false
        }
    }
}

/// Whether some grant of `grants` covers the capability path `query`.
pub open spec fn permits(grants: Seq<Seq<char>>, query: Seq<char>) -> bool {
    exists|i: int|
        0 <= i < grants.len() && grant_covers(
            split_on_dots(#[trigger] grants[i]),
            split_on_dots(query),
        )
}

/// Why a guarded call was refused.
pub enum SecurityError {
    /// The extension was not granted the named capability path.
    PermissionDenied(String),
    /// The extension did not declare the named external command.
    CommandNotDeclared(String),
}

pub open spec fn permission_denied_text(permission: Seq<char>) -> Seq<char> {
    "SecurityException -- Invalid permissions!\nYour extension does not have '"@ + permission
        + "'."@
}

pub open spec fn command_not_declared_text(command: Seq<char>) -> Seq<char> {
    "SecurityException -- Invalid command declaration!\nYour extension has not declared the use of `"@
        + command + "`."@
}

impl SecurityError {
    /// The text of the exception raised into the calling script.
    pub fn message(&self) -> (r: String)
        ensures
            r@ == match self {
                SecurityError::PermissionDenied(p) => permission_denied_text(p@),
                SecurityError::CommandNotDeclared(c) => command_not_declared_text(c@),
            },
    {
        match self {
            SecurityError::PermissionDenied(p) => {
                let mut r = String::from_str(
                    "SecurityException -- Invalid permissions!\nYour extension does not have '",
                );
                r.append(p.as_str());
                r.append("'.");
                r
            },
            SecurityError::CommandNotDeclared(c) => {
                let mut r = String::from_str(
                    "SecurityException -- Invalid command declaration!\nYour extension has not declared the use of `",
                );
                r.append(c.as_str());
                r.append("`.");
                r
            },
        }
    }
}

/// The security policy of one extension: the capability paths it was granted
/// and the external commands it declared. Read-only once built.
pub struct Constraints {
    permissions: Vec<String>,
    commands: Vec<String>,
}

impl Constraints {
    /// The granted capability paths, in the order they were given.
    pub closed spec fn grants(&self) -> Seq<Seq<char>> {
        strings_view(self.permissions@)
    }

    /// The declared external command names, in the order they were given.
    pub closed spec fn declared(&self) -> Seq<Seq<char>> {
        strings_view(self.commands@)
    }

    pub fn new(permissions: Vec<&str>, external_commands: Vec<&str>) -> (r: Constraints)
        ensures
            r.grants() == strs_view(permissions@),
            r.declared() == strs_view(external_commands@),
    {
        Constraints { permissions: to_strings(&permissions), commands: to_strings(&external_commands) }
    }

    pub fn permissions(&self) -> (r: &Vec<String>)
        ensures
            strings_view(r@) == self.grants(),
    {
        &self.permissions
    }

    pub fn commands(&self) -> (r: &Vec<String>)
        ensures
            strings_view(r@) == self.declared(),
    {
        &self.commands
    }

    /// Whether any granted path covers `perm`.
    pub fn has_permission(&self, perm: &str) -> (r: bool)
        ensures
            r == permits(self.grants(), perm@),
    {
        let mut i: usize = 0;
        while i < self.permissions.len()
            invariant
                i <= self.permissions.len(),
                forall|j: int|
                    0 <= j < i ==> !grant_covers(
                        split_on_dots(#[trigger] self.grants()[j]),
                        split_on_dots(perm@),
                    ),
            decreases self.permissions.len() - i,
        {
            let grant = Permission::new(self.permissions[i].as_str());
            if grant.has(perm) {
                assert(self.grants()[i as int] == self.permissions@[i as int]@);
                return true;
            }
            i = i + 1;
        }
        false
    }

    /// Whether `command` is one of the declared external commands (exact match).
    pub fn is_command_permitted(&self, command: &str) -> (r: bool)
        ensures
            r == self.declared().contains(command@),
    {
        let wanted = String::from_str(command);
        let mut i: usize = 0;
        while i < self.commands.len()
            invariant
                i <= self.commands.len(),
                wanted@ == command@,
                forall|j: int| 0 <= j < i ==> #[trigger] self.declared()[j] != command@,
            decreases self.commands.len() - i,
        {
            if self.commands[i] == wanted {
                assert(self.declared()[i as int] == command@);
                return true;
            }
            i = i + 1;
        }
        false
    }

    /// The check made at the top of every guarded native entry point.
    pub fn check_permission(&self, perm: &str) -> (r: Result<(), SecurityError>)
        ensures
            r is Ok <==> permits(self.grants(), perm@),
            r matches Err(e) ==> e matches SecurityError::PermissionDenied(p) && p@ == perm@,
    {
        if self.has_permission(perm) {
            Ok(())
        } else {
            Err(SecurityError::PermissionDenied(String::from_str(perm)))
        }
    }

    /// The check made before an external command is run.
    pub fn check_command(&self, command: &str) -> (r: Result<(), SecurityError>)
        ensures
            r is Ok <==> self.declared().contains(command@),
            r matches Err(e) ==> e matches SecurityError::CommandNotDeclared(c) && c@ == command@,
    {
        if self.is_command_permitted(command) {
            Ok(())
        } else {
            Err(SecurityError::CommandNotDeclared(String::from_str(command)))
        }
    }

    /// Runs `body` only when `perm` is granted; otherwise `body` never runs
    /// and the denial is returned.
    pub fn guard<T, F: FnOnce() -> T>(&self, perm: &str, body: F) -> (r: Result<T, SecurityError>)
        requires
            body.requires(()),
        ensures
            r is Ok <==> permits(self.grants(), perm@),
            r matches Ok(v) ==> body.ensures((), v),
            r matches Err(e) ==> e matches SecurityError::PermissionDenied(p) && p@ == perm@,
    {
        match self.check_permission(perm) {
            Ok(()) => Ok(body()),
            Err(e) => Err(e),
        }
    }
}

/// A grant whose last segment is `*` covers every query that agrees with it
/// on all the segments before the `*`, whatever the query has after them.
pub proof fn lemma_wildcard_grant_covers(grants: Seq<Seq<char>>, grant: Seq<char>, query: Seq<char>)
    requires
        grants.contains(grant),
        split_on_dots(grant).last() == wildcard_segment(),
        split_on_dots(query).len() >= split_on_dots(grant).len() - 1,
        split_on_dots(query).take(split_on_dots(grant).len() - 1) == split_on_dots(grant).take(
            split_on_dots(grant).len() - 1,
        ),
    ensures
        permits(grants, query),
{
    lemma_split_nonempty(grant, '.');
    let g = split_on_dots(grant);
    let k = g.len() - 1;
    assert(g[k] == wildcard_segment());
    let i = choose|i: int| 0 <= i < grants.len() && grants[i] == grant;
    assert(grant_covers(split_on_dots(grants[i]), split_on_dots(query)));
}

/// A grant without any `*` segment covers exactly the query with the same
/// segments.
pub proof fn lemma_exact_grant(grant: Seq<char>, query: Seq<char>)
    requires
        forall|j: int|
            0 <= j < split_on_dots(grant).len() ==> #[trigger] split_on_dots(grant)[j]
                != wildcard_segment(),
    ensures
        permits(seq![grant], query) <==> split_on_dots(query) == split_on_dots(grant),
{
    if permits(seq![grant], query) {
        let i = choose|i: int|
            0 <= i < seq![grant].len() && grant_covers(
                split_on_dots(#[trigger] seq![grant][i]),
                split_on_dots(query),
            );
        assert(i == 0);
    }
    if split_on_dots(query) == split_on_dots(grant) {
        assert(grant_covers(split_on_dots(seq![grant][0]), split_on_dots(query)));
    }
}

/// A grant with more segments than the query does not cover it, unless one of
/// the grant's `*` segments is reached within the query's length while every
/// earlier segment matched.
pub proof fn lemma_longer_grant_denies(grant: Seq<char>, query: Seq<char>)
    requires
        split_on_dots(grant).len() > split_on_dots(query).len(),
        !(exists|k: int|
            0 <= k <= split_on_dots(query).len() && #[trigger] split_on_dots(grant)[k]
                == wildcard_segment() && split_on_dots(grant).take(k) == split_on_dots(query).take(
                k,
            )),
    ensures
        !permits(seq![grant], query),
{
    if permits(seq![grant], query) {
        let i = choose|i: int|
            0 <= i < seq![grant].len() && grant_covers(
                split_on_dots(#[trigger] seq![grant][i]),
                split_on_dots(query),
            );
        assert(i == 0);
        assert(split_on_dots(grant) != split_on_dots(query));
    }
}

} // verus!

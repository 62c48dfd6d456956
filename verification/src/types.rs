//! The validated identifiers: a user, a repository, a permission.

use crate::errors::{Error, ErrorView};
use crate::text::{
    all_alphanumeric, all_ascii_alphanumeric, ascii_alphanumeric, char_is_alphanumeric, chars_of,
    find_char, is_alphanumeric, is_ascii_alphanumeric, join, join_path, lemma_rank_mirror,
    lemma_rank_same, lemma_rank_transitive, rank, str_eq, str_rank, string_of, Rank,
};
use vstd::prelude::*;
use vstd::utf8::is_ascii_chars;

verus! {

/// Whether `c` may not occur in an identifier: it is not alphanumeric.
pub fn pattern_not_accepted(c: char) -> (rejected: bool)
    ensures
        rejected == !char_is_alphanumeric(c),
{
    !is_alphanumeric(c)
}

/// Whether none of the characters of `cs` is refused by [`pattern_not_accepted`].
fn all_accepted(cs: &Vec<char>) -> (accepted: bool)
    ensures
        accepted == all_alphanumeric(cs@),
{
    let mut i: usize = 0;
    while i < cs.len()
        invariant
            i <= cs.len(),
            forall|j: int| 0 <= j < i ==> char_is_alphanumeric(#[trigger] cs@[j]),
        decreases cs.len() - i,
    {
        if pattern_not_accepted(cs[i]) {
            return false;
        }
        i += 1;
    }
    true
}

/// Whether each of the characters `cs[from..to]` is an ASCII letter or digit.
fn is_segment(cs: &Vec<char>, from: usize, to: usize) -> (accepted: bool)
    requires
        from <= to <= cs.len(),
    ensures
        accepted == all_ascii_alphanumeric(cs@.subrange(from as int, to as int)),
{
    let ghost part = cs@.subrange(from as int, to as int);
    let mut i: usize = from;
    while i < to
        invariant
            from <= i <= to <= cs.len(),
            part == cs@.subrange(from as int, to as int),
            forall|j: int| 0 <= j < i - from ==> is_ascii_alphanumeric(#[trigger] part[j]),
        decreases to - i,
    {
        assert(cs@[i as int] == part[i - from]);
        if !ascii_alphanumeric(cs[i]) {
            return false;
        }
        i += 1;
    }
    true
}

/// The name of the connecting user. Every character of it is alphanumeric.
#[derive(Debug, PartialEq, Eq, PartialOrd, Ord)]
pub struct User {
    name: String,
}

impl View for User {
    type V = Seq<char>;

    closed spec fn view(&self) -> Seq<char> {
        self.name@
    }
}

impl Clone for User {
    fn clone(&self) -> (copy: User)
        ensures
            copy@ == self@,
    {
        proof {
            use_type_invariant(self);
        }
        User { name: self.name.clone() }
    }
}

impl User {
    #[verifier::type_invariant]
    spec fn well_formed(&self) -> bool {
        all_alphanumeric(self.name@)
    }

    /// Accepts `s` as a user name if every character of it is alphanumeric, and keeps
    /// it unchanged; refuses it otherwise. The empty name is accepted.
    pub fn from_string(s: String) -> (r: Result<User, Error>)
        ensures
            all_alphanumeric(s@) ==> r is Ok && r->Ok_0@ == s@,
            !all_alphanumeric(s@) ==> r is Err && r->Err_0@ == ErrorView::UserInvalid(s@),
    {
        let cs = chars_of(s.as_str());
        if all_accepted(&cs) {
            Ok(User { name: s })
        } else {
            Err(Error::UserInvalid(s))
        }
    }

    /// The name as text.
    pub fn as_str(&self) -> (s: &str)
        ensures
            s@ == self@,
            all_alphanumeric(s@),
    {
        proof {
            use_type_invariant(self);
        }
        self.name.as_str()
    }

    /// Whether the name is exactly `s`.
    pub fn is_eq(&self, s: &str) -> (same: bool)
        ensures
            same == (self@ == s@),
    {
        str_eq(self.name.as_str(), s)
    }
}

/// What a granted permission allows. `Write` includes `Read`.
#[derive(Debug, Clone, Copy, PartialEq, Eq, PartialOrd, Ord, Structural)]
pub enum Permission {
    Read,
    Write,
}

/// The permission that the marker `c` stands for: `r` for reading, `w` for writing.
pub open spec fn permission_of(c: char) -> Option<Permission> {
    if c == 'r' {
        Some(Permission::Read)
    } else if c == 'w' {
        Some(Permission::Write)
    } else {
        None
    }
}

impl Permission {
    /// Whether a grant of `self` satisfies a need of `needed`.
    pub open spec fn covers(self, needed: Permission) -> bool {
        self == Permission::Write || needed == Permission::Read
    }

    /// The permission that the marker `c` stands for, or the error that names `c`.
    pub fn from_char(c: char) -> (r: Result<Permission, Error>)
        ensures
            match r {
                Ok(p) => permission_of(c) == Some(p),
                Err(e) => permission_of(c) is None && e == Error::PermissionInvalid(c),
            },
    {
        match c {
            'r' => Ok(Permission::Read),
            'w' => Ok(Permission::Write),
            _ => Err(Error::PermissionInvalid(c)),
        }
    }
}

/// A repository identifier as two sequences of characters.
pub struct RepoView {
    pub namespace: Seq<char>,
    pub name: Seq<char>,
}

impl RepoView {
    /// What holds of every accepted identifier: both segments are made of ASCII letters
    /// and digits, and neither is empty.
    pub open spec fn valid(self) -> bool {
        &&& self.namespace.len() > 0
        &&& self.name.len() > 0
        &&& all_ascii_alphanumeric(self.namespace)
        &&& all_ascii_alphanumeric(self.name)
    }
}

/// The order of identifiers: by namespace first, then by name, each in the dictionary
/// order.
pub open spec fn repo_rank(a: RepoView, b: RepoView) -> Rank {
    match rank(a.namespace, b.namespace) {
        Rank::Same => rank(a.name, b.name),
        decided => decided,
    }
}

/// Two identifiers rank the same exactly when they are equal.
pub proof fn lemma_repo_rank_same(a: RepoView, b: RepoView)
    ensures
        repo_rank(a, b) == Rank::Same <==> a == b,
{
    lemma_rank_same(a.namespace, b.namespace);
    lemma_rank_same(a.name, b.name);
}

/// Swapping the two identifiers swaps `Before` and `After`.
pub proof fn lemma_repo_rank_mirror(a: RepoView, b: RepoView)
    ensures
        repo_rank(a, b) == Rank::Before <==> repo_rank(b, a) == Rank::After,
        repo_rank(a, b) == Rank::Same <==> repo_rank(b, a) == Rank::Same,
{
    lemma_rank_mirror(a.namespace, b.namespace);
    lemma_rank_mirror(a.name, b.name);
}

/// `Before` is transitive on identifiers.
pub proof fn lemma_repo_rank_transitive(a: RepoView, b: RepoView, c: RepoView)
    requires
        repo_rank(a, b) == Rank::Before,
        repo_rank(b, c) == Rank::Before,
    ensures
        repo_rank(a, c) == Rank::Before,
{
    lemma_rank_same(a.namespace, b.namespace);
    lemma_rank_same(b.namespace, c.namespace);
    lemma_rank_same(a.namespace, c.namespace);
    lemma_rank_mirror(a.namespace, c.namespace);
    if rank(a.namespace, b.namespace) == Rank::Before && rank(b.namespace, c.namespace)
        == Rank::Before {
        lemma_rank_transitive(a.namespace, b.namespace, c.namespace);
    } else if rank(a.namespace, b.namespace) == Rank::Same && rank(b.namespace, c.namespace)
        == Rank::Same {
        lemma_rank_transitive(a.name, b.name, c.name);
    }
}

/// The part of `s` before its first `/`.
pub open spec fn namespace_part(s: Seq<char>) -> Seq<char> {
    s.take(s.index_of_first('/')->0)
}

/// The part of `s` after its first `/`.
pub open spec fn name_part(s: Seq<char>) -> Seq<char> {
    s.skip(s.index_of_first('/')->0 + 1)
}

/// The reason for which `s` is refused as a repository identifier, if it is refused.
/// The checks are made in this order, and the first that fails gives the reason. A text
/// with no `/`, or with nothing after its first `/`, does not have its two segments, and
/// both are refused with the same reason.
pub open spec fn repo_defect(s: Seq<char>) -> Option<Seq<char>> {
    if !is_ascii_chars(s) {
        Some("repo contains non ASCII"@)
    } else if s.len() > 0 && s[0] == '/' {
        Some("repo starts with /"@)
    } else if s.len() > 0 && s[0] == '.' {
        Some("repo starts with ."@)
    } else if s.index_of_first('/') is None {
        Some("not enough /"@)
    } else if name_part(s).len() == 0 {
        Some("not enough /"@)
    } else if !all_ascii_alphanumeric(namespace_part(s)) {
        Some("directory is not alphanumeric"@)
    } else if !all_ascii_alphanumeric(name_part(s)) {
        Some("repo is not alphanumeric"@)
    } else {
        None
    }
}

/// The identifier that `s` denotes, where `s` is accepted.
pub open spec fn repo_of(s: Seq<char>) -> RepoView {
    RepoView { namespace: namespace_part(s), name: name_part(s) }
}

/// How often `c` occurs in `s`.
pub open spec fn count_of(s: Seq<char>, c: char) -> nat
    decreases s.len(),
{
    if s.len() == 0 {
        0
    } else {
        count_of(s.drop_last(), c) + if s.last() == c {
            1nat
        } else {
            0nat
        }
    }
}

/// A character that does not occur is counted zero times, and only such a character.
proof fn lemma_count_zero(s: Seq<char>, c: char)
    ensures
        count_of(s, c) == 0 <==> !s.contains(c),
    decreases s.len(),
{
    if s.len() > 0 {
        lemma_count_zero(s.drop_last(), c);
        if s.contains(c) {
            let i = choose|i: int| 0 <= i < s.len() && s[i] == c;
            if i < s.len() - 1 {
                assert(s.drop_last()[i] == c);
            }
        } else {
            assert(forall|i: int| 0 <= i < s.drop_last().len() ==> s.drop_last()[i] != c);
        }
    }
}

/// The count in a text of two parts is the sum of the counts in the parts.
proof fn lemma_count_parts(a: Seq<char>, b: Seq<char>, c: char)
    ensures
        count_of(a + b, c) == count_of(a, c) + count_of(b, c),
    decreases b.len(),
{
    if b.len() > 0 {
        assert((a + b).drop_last() =~= a + b.drop_last());
        lemma_count_parts(a, b.drop_last(), c);
    }
}

/// An ASCII letter or digit is none of the characters `/` and `.`.
proof fn lemma_segment_holds_no_separator(segment: Seq<char>)
    requires
        all_ascii_alphanumeric(segment),
    ensures
        !segment.contains('/'),
        !segment.contains('.'),
        is_ascii_chars(segment),
{
    assert(forall|i: int|
        0 <= i < segment.len() ==> segment[i] != '/' && segment[i] != '.' && '\0'
            <= #[trigger] segment[i] <= '\u{7f}');
}

/// What validation refuses, and with which reason.
///
/// A text that is not pure ASCII, that starts with `/` or with `.`, or that holds no
/// `/` is refused with the reason that says so, the first of these that applies. A
/// text that ends with its only `/` is refused like one without `/`: its second segment
/// is missing. A text with more than one `/` is refused too: what follows the first `/`
/// is then not alphanumeric. So every accepted text holds exactly one `/`, and
/// something after it.
pub proof fn lemma_repo_refused(s: Seq<char>)
    ensures
        !is_ascii_chars(s) ==> repo_defect(s) == Some("repo contains non ASCII"@),
        is_ascii_chars(s) && s.len() > 0 && s[0] == '/' ==> repo_defect(s) == Some(
            "repo starts with /"@,
        ),
        is_ascii_chars(s) && s.len() > 0 && s[0] == '.' ==> repo_defect(s) == Some(
            "repo starts with ."@,
        ),
        is_ascii_chars(s) && !(s.len() > 0 && s[0] == '.') && count_of(s, '/') == 0 ==> repo_defect(
            s,
        ) == Some("not enough /"@),
        is_ascii_chars(s) && s.len() > 0 && s[0] != '/' && s[0] != '.' && s.last() == '/'
            && count_of(s, '/') == 1 ==> repo_defect(s) == Some("not enough /"@),
        is_ascii_chars(s) && !(s.len() > 0 && (s[0] == '/' || s[0] == '.')) && count_of(s, '/') > 1
            ==> repo_defect(s) == Some("not enough /"@) || repo_defect(s) == Some(
            "directory is not alphanumeric"@,
        ) || repo_defect(s) == Some("repo is not alphanumeric"@),
        count_of(s, '/') != 1 ==> repo_defect(s) is Some,
        s.len() > 0 && s.last() == '/' ==> repo_defect(s) is Some,
{
    s.index_of_first_ensures('/');
    lemma_count_zero(s, '/');
    if repo_defect(s) is None {
        let namespace = namespace_part(s);
        let name = name_part(s);
        lemma_segment_holds_no_separator(namespace);
        lemma_segment_holds_no_separator(name);
        lemma_count_zero(namespace, '/');
        lemma_count_zero(name, '/');
        assert(s =~= namespace + seq!['/'] + name);
        lemma_count_parts(namespace + seq!['/'], name, '/');
        lemma_count_parts(namespace, seq!['/'], '/');
        assert(count_of(seq!['/'], '/') == 1) by {
            reveal_with_fuel(count_of, 2);
        }
        assert(name.last() == s.last());
    } else if s.len() > 0 && s.last() == '/' && s.index_of_first('/') is Some {
        let first = s.index_of_first('/')->0;
        if first < s.len() - 1 {
            let head = s.take(first + 1);
            let tail = s.skip(first + 1);
            assert(s =~= head + tail);
            assert(head[first] == '/');
            assert(tail[tail.len() - 1] == '/');
            lemma_count_zero(head, '/');
            lemma_count_zero(tail, '/');
            lemma_count_parts(head, tail, '/');
        }
    }
}

/// What validation accepts: exactly the texts `namespace/name` in which both segments
/// are made of ASCII letters and digits and neither is empty. The repository is then
/// that pair, and under a directory `base` that neither is empty nor ends with `/` it
/// stands at `base/namespace/name`.
pub proof fn lemma_repo_accepted(s: Seq<char>)
    ensures
        repo_defect(s) is None <==> exists|namespace: Seq<char>, name: Seq<char>|
            #![trigger namespace + seq!['/'] + name]
            s == namespace + seq!['/'] + name && (RepoView { namespace, name }).valid(),
        forall|namespace: Seq<char>, name: Seq<char>|
            #![trigger namespace + seq!['/'] + name]
            s == namespace + seq!['/'] + name && (RepoView { namespace, name }).valid()
                ==> repo_of(s) == (RepoView { namespace, name }),
        forall|base: Seq<char>|
            repo_defect(s) is None && base.len() > 0 && base.last() != '/' ==> #[trigger] repo_path(
                base,
                repo_of(s),
            ) == base + seq!['/'] + s,
{
    s.index_of_first_ensures('/');
    if repo_defect(s) is None {
        assert(s =~= namespace_part(s) + seq!['/'] + name_part(s));
    }
    assert forall|namespace: Seq<char>, name: Seq<char>|
        #![trigger namespace + seq!['/'] + name]
        s == namespace + seq!['/'] + name && (RepoView { namespace, name }).valid() implies repo_of(
        s,
    ) == (RepoView { namespace, name }) && repo_defect(s) is None by {
        lemma_segment_holds_no_separator(namespace);
        lemma_segment_holds_no_separator(name);
        let at = namespace.len() as int;
        assert(s[at] == '/');
        assert(forall|i: int| 0 <= i < at ==> s[i] != '/');
        assert(namespace_part(s) =~= namespace);
        assert(name_part(s) =~= name);
        assert(forall|i: int| 0 <= i < s.len() ==> '\0' <= #[trigger] s[i] <= '\u{7f}');
    }
}

/// The path of the repository `repo` under the directory `base`.
pub open spec fn repo_path(base: Seq<char>, repo: RepoView) -> Seq<char> {
    join_path(base, repo.namespace) + seq!['/'] + repo.name
}

/// A repository: a namespace and a name under it.
#[derive(Debug, PartialEq, Eq, PartialOrd, Ord)]
pub struct Repo {
    namespace: String,
    name: String,
}

impl View for Repo {
    type V = RepoView;

    closed spec fn view(&self) -> RepoView {
        RepoView { namespace: self.namespace@, name: self.name@ }
    }
}

impl Clone for Repo {
    fn clone(&self) -> (copy: Repo)
        ensures
            copy@ == self@,
    {
        proof {
            use_type_invariant(self);
        }
        Repo { namespace: self.namespace.clone(), name: self.name.clone() }
    }
}

impl Repo {
    #[verifier::type_invariant]
    spec fn well_formed(&self) -> bool {
        self@.valid()
    }

    /// Validates `s` as a repository identifier `namespace/name`.
    ///
    /// The identifier is the text before the first `/` and the text after it. It is
    /// refused, with the first reason that applies, if it is not pure ASCII, starts
    /// with `/` or with `.`, holds no `/` or nothing after its first `/`, or if one of
    /// the two segments holds a character that is no ASCII letter or digit (a second
    /// `/` is such a character). Neither segment of an accepted identifier is empty.
    pub fn from_string(s: String) -> (r: Result<Repo, Error>)
        ensures
            match r {
                Ok(repo) => repo_defect(s@) is None && repo@ == repo_of(s@) && repo@.valid(),
                Err(e) => repo_defect(s@) is Some && e@ == ErrorView::RepoInvalid(
                    s@,
                    repo_defect(s@)->0,
                ),
            },
    {
        if !s.as_str().is_ascii() {
            return Err(Error::RepoInvalid((s, "repo contains non ASCII")));
        }
        let cs = chars_of(s.as_str());
        if cs.len() > 0 && cs[0] == '/' {
            return Err(Error::RepoInvalid((s, "repo starts with /")));
        }
        if cs.len() > 0 && cs[0] == '.' {
            return Err(Error::RepoInvalid((s, "repo starts with .")));
        }
        let slash = match find_char(&cs, '/') {
            Some(i) => i,
            None => {
                return Err(Error::RepoInvalid((s, "not enough /")));
            },
        };
        proof {
            cs@.index_of_first_ensures('/');
        }
        if slash + 1 == cs.len() {
            return Err(Error::RepoInvalid((s, "not enough /")));
        }
        if !is_segment(&cs, 0, slash) {
            return Err(Error::RepoInvalid((s, "directory is not alphanumeric")));
        }
        if !is_segment(&cs, slash + 1, cs.len()) {
            return Err(Error::RepoInvalid((s, "repo is not alphanumeric")));
        }
        let namespace = string_of(&cs, 0, slash);
        let name = string_of(&cs, slash + 1, cs.len());
        Ok(Repo { namespace, name })
    }

    /// The place of the repository under the directory `prefix`: `prefix/namespace/name`.
    ///
    /// No `/` is put after a prefix that is empty or ends with `/` already.
    pub fn to_path(&self, prefix: &str) -> (path: String)
        ensures
            path@ == repo_path(prefix@, self@),
            prefix@.len() > 0 && prefix@.last() != '/' ==> path@ == prefix@ + seq!['/']
                + self@.namespace + seq!['/'] + self@.name,
    {
        proof {
            use_type_invariant(self);
        }
        let below = join(prefix, self.namespace.as_str());
        join(below.as_str(), self.name.as_str())
    }

    /// How this identifier stands to `other` in the order of identifiers.
    pub fn rank(&self, other: &Repo) -> (r: Rank)
        ensures
            r == repo_rank(self@, other@),
    {
        match str_rank(self.namespace.as_str(), other.namespace.as_str()) {
            Rank::Same => str_rank(self.name.as_str(), other.name.as_str()),
            decided => decided,
        }
    }

    /// The namespace, the first segment.
    pub fn namespace(&self) -> (s: &str)
        ensures
            s@ == self@.namespace,
            self@.valid(),
    {
        proof {
            use_type_invariant(self);
        }
        self.namespace.as_str()
    }

    /// The name, the second segment.
    pub fn name(&self) -> (s: &str)
        ensures
            s@ == self@.name,
            self@.valid(),
    {
        proof {
            use_type_invariant(self);
        }
        self.name.as_str()
    }
}

} // verus!

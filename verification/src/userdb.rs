//! The permission table of one user, and the loader that builds it from the text of
//! the configuration.

use crate::errors::{Error, ErrorView};
use crate::text::{chars_of, string_of, Rank};
use crate::types::{
    lemma_repo_rank_mirror, lemma_repo_rank_same, lemma_repo_rank_transitive, permission_of,
    repo_defect, repo_of, repo_rank, Permission, Repo, RepoView, User,
};
use vstd::prelude::*;

verus! {

/// One row of a table: an identifier and what is granted on it.
pub type Row = (RepoView, Permission);

/// The rows stand in strictly ascending order of their identifiers, so none occurs twice.
pub open spec fn rows_sorted(rows: Seq<Row>) -> bool {
    forall|i: int, j: int|
        0 <= i < j < rows.len() ==> repo_rank((#[trigger] rows[i]).0, (#[trigger] rows[j]).0)
            == Rank::Before
}

/// Whether some row is about `key`.
pub open spec fn has_row(rows: Seq<Row>, key: RepoView) -> bool {
    exists|i: int| 0 <= i < rows.len() && (#[trigger] rows[i]).0 == key
}

/// The table that the rows spell out: each identifier of a row, with the permission of
/// that row.
pub open spec fn table_of(rows: Seq<Row>) -> Map<RepoView, Permission> {
    Map::new(
        |key: RepoView| has_row(rows, key),
        |key: RepoView| rows[choose|i: int| 0 <= i < rows.len() && (#[trigger] rows[i]).0 == key].1,
    )
}

/// Whether `table` grants at least `needed` on `key`.
pub open spec fn grants(table: Map<RepoView, Permission>, key: RepoView, needed: Permission) -> bool {
    table.contains_key(key) && table[key].covers(needed)
}

/// Writing includes reading: a table that lets a repository be written lets it be read.
/// A repository that the table does not hold can be neither read nor written.
pub proof fn lemma_write_includes_read(table: Map<RepoView, Permission>, key: RepoView)
    ensures
        grants(table, key, Permission::Write) ==> grants(table, key, Permission::Read),
        !table.contains_key(key) ==> !grants(table, key, Permission::Read) && !grants(
            table,
            key,
            Permission::Write,
        ),
{
}

/// In sorted rows, the table holds for the identifier of each row that row's permission.
pub proof fn lemma_table_row(rows: Seq<Row>, i: int)
    requires
        rows_sorted(rows),
        0 <= i < rows.len(),
    ensures
        table_of(rows).contains_key(rows[i].0),
        table_of(rows)[rows[i].0] == rows[i].1,
{
    let key = rows[i].0;
    let j = choose|j: int| 0 <= j < rows.len() && (#[trigger] rows[j]).0 == key;
    lemma_repo_rank_same(rows[i].0, rows[j].0);
}

/// Replacing the permission of a row keeps sorted rows sorted, and changes the table at
/// that row's identifier only.
proof fn lemma_replace_row(rows: Seq<Row>, at: int, permission: Permission)
    requires
        rows_sorted(rows),
        0 <= at < rows.len(),
    ensures
        rows_sorted(rows.update(at, (rows[at].0, permission))),
        table_of(rows.update(at, (rows[at].0, permission))) == table_of(rows).insert(
            rows[at].0,
            permission,
        ),
{
    let key = rows[at].0;
    let next = rows.update(at, (key, permission));
    assert forall|i: int, j: int| 0 <= i < j < next.len() implies repo_rank(
        (#[trigger] next[i]).0,
        (#[trigger] next[j]).0,
    ) == Rank::Before by {
        assert(next[i].0 == rows[i].0);
        assert(next[j].0 == rows[j].0);
    }
    assert forall|k: RepoView| has_row(next, k) <==> has_row(rows, k) by {
        if has_row(next, k) {
            let i = choose|i: int| 0 <= i < next.len() && (#[trigger] next[i]).0 == k;
            assert(rows[i].0 == k);
        }
        if has_row(rows, k) {
            let i = choose|i: int| 0 <= i < rows.len() && (#[trigger] rows[i]).0 == k;
            assert(next[i].0 == k);
        }
    }
    assert(has_row(rows, key)) by {
        assert(rows[at].0 == key);
    }
    assert forall|k: RepoView| has_row(next, k) implies #[trigger] table_of(next)[k] == table_of(
        rows,
    ).insert(key, permission)[k] by {
        let i = choose|i: int| 0 <= i < next.len() && (#[trigger] next[i]).0 == k;
        lemma_table_row(next, i);
        if k != key {
            assert(rows[i] == next[i]);
            lemma_table_row(rows, i);
        } else {
            lemma_table_row(next, at);
        }
    }
    assert(table_of(next) =~= table_of(rows).insert(key, permission));
}

/// Putting a row for a new identifier at its place keeps sorted rows sorted, and adds
/// that row to the table.
proof fn lemma_insert_row(rows: Seq<Row>, at: int, key: RepoView, permission: Permission)
    requires
        rows_sorted(rows),
        0 <= at <= rows.len(),
        !has_row(rows, key),
        forall|i: int| 0 <= i < at ==> repo_rank((#[trigger] rows[i]).0, key) == Rank::Before,
        forall|i: int|
            at <= i < rows.len() ==> repo_rank((#[trigger] rows[i]).0, key) != Rank::Before,
    ensures
        rows_sorted(rows.insert(at, (key, permission))),
        table_of(rows.insert(at, (key, permission))) == table_of(rows).insert(key, permission),
{
    let next = rows.insert(at, (key, permission));
    assert forall|i: int, j: int| 0 <= i < j < next.len() implies repo_rank(
        (#[trigger] next[i]).0,
        (#[trigger] next[j]).0,
    ) == Rank::Before by {
        let before_i = if i < at { i } else { i - 1 };
        let before_j = if j < at { j } else { j - 1 };
        if i == at {
            assert(rows[before_j] == next[j]);
            lemma_repo_rank_mirror(rows[before_j].0, key);
            lemma_repo_rank_same(rows[before_j].0, key);
        } else if j == at {
            assert(rows[before_i] == next[i]);
        } else {
            assert(rows[before_i] == next[i]);
            assert(rows[before_j] == next[j]);
        }
    }
    assert forall|k: RepoView| has_row(next, k) <==> (k == key || has_row(rows, k)) by {
        if has_row(next, k) {
            let i = choose|i: int| 0 <= i < next.len() && (#[trigger] next[i]).0 == k;
            if i != at {
                let before_i = if i < at { i } else { i - 1 };
                assert(rows[before_i].0 == k);
            }
        }
        if k == key {
            assert(next[at].0 == k);
        }
        if has_row(rows, k) {
            let i = choose|i: int| 0 <= i < rows.len() && (#[trigger] rows[i]).0 == k;
            let after_i = if i < at { i } else { i + 1 };
            assert(next[after_i].0 == k);
        }
    }
    assert forall|k: RepoView| has_row(next, k) implies #[trigger] table_of(next)[k] == table_of(
        rows,
    ).insert(key, permission)[k] by {
        let i = choose|i: int| 0 <= i < next.len() && (#[trigger] next[i]).0 == k;
        lemma_table_row(next, i);
        if k == key {
            lemma_table_row(next, at);
        } else {
            let before_i = if i < at { i } else { i - 1 };
            assert(rows[before_i] == next[i]);
            lemma_table_row(rows, before_i);
        }
    }
    assert(table_of(next) =~= table_of(rows).insert(key, permission));
}

/// The rows of the entries: each identifier by its view.
pub open spec fn rows_of(entries: Seq<(Repo, Permission)>) -> Seq<Row> {
    Seq::new(entries.len(), |i: int| (entries[i].0@, entries[i].1))
}

/// The permission table of one user: for each repository that the user may touch,
/// what is granted on it. A repository occurs at most once.
#[derive(Debug)]
pub struct UserDb {
    entries: Vec<(Repo, Permission)>,
}

impl View for UserDb {
    type V = Map<RepoView, Permission>;

    closed spec fn view(&self) -> Map<RepoView, Permission> {
        table_of(rows_of(self.entries@))
    }
}

impl UserDb {
    #[verifier::type_invariant]
    spec fn well_formed(&self) -> bool {
        rows_sorted(rows_of(self.entries@))
    }

    /// The table that grants nothing.
    pub fn new() -> (db: UserDb)
        ensures
            db@ == Map::<RepoView, Permission>::empty(),
    {
        let db = UserDb { entries: Vec::new() };
        db
    }

    /// Where `repo` stands among the entries: the number of entries before it, and
    /// whether the entry at that place is about `repo`.
    fn position(&self, repo: &Repo) -> (at: (usize, bool))
        ensures
            at.0 <= self.entries.len(),
            forall|i: int|
                0 <= i < at.0 ==> repo_rank((#[trigger] rows_of(self.entries@)[i]).0, repo@)
                    == Rank::Before,
            forall|i: int|
                at.0 <= i < self.entries.len() ==> repo_rank(
                    (#[trigger] rows_of(self.entries@)[i]).0,
                    repo@,
                ) != Rank::Before,
            at.1 <==> at.0 < self.entries.len() && rows_of(self.entries@)[at.0 as int].0
                == repo@,
            at.1 <==> has_row(rows_of(self.entries@), repo@),
    {
        proof {
            use_type_invariant(self);
        }
        let ghost rows = rows_of(self.entries@);
        let ghost key = repo@;
        let mut low: usize = 0;
        let mut high: usize = self.entries.len();
        while low < high
            invariant
                rows == rows_of(self.entries@),
                key == repo@,
                rows_sorted(rows),
                low <= high <= self.entries.len(),
                forall|i: int| 0 <= i < low ==> repo_rank((#[trigger] rows[i]).0, key) == Rank::Before,
                forall|i: int|
                    high <= i < rows.len() ==> repo_rank((#[trigger] rows[i]).0, key)
                        != Rank::Before,
            decreases high - low,
        {
            let middle = low + (high - low) / 2;
            let ghost pivot = rows[middle as int].0;
            match self.entries[middle].0.rank(repo) {
                Rank::Before => {
                    assert forall|i: int| 0 <= i < middle + 1 implies repo_rank(
                        (#[trigger] rows[i]).0,
                        key,
                    ) == Rank::Before by {
                        if i < middle {
                            lemma_repo_rank_transitive(rows[i].0, pivot, key);
                        }
                    }
                    low = middle + 1;
                },
                _ => {
                    assert forall|i: int| middle <= i < rows.len() implies repo_rank(
                        (#[trigger] rows[i]).0,
                        key,
                    ) != Rank::Before by {
                        if middle < i && repo_rank(rows[i].0, key) == Rank::Before {
                            lemma_repo_rank_transitive(pivot, rows[i].0, key);
                        }
                    }
                    high = middle;
                },
            }
        }
        let found = if low < self.entries.len() {
            match self.entries[low].0.rank(repo) {
                Rank::Same => true,
                _ => false,
            }
        } else {
            false
        };
        proof {
            if low < rows.len() {
                lemma_repo_rank_same(rows[low as int].0, key);
            }
            if has_row(rows, key) {
                let i = choose|i: int| 0 <= i < rows.len() && (#[trigger] rows[i]).0 == key;
                lemma_repo_rank_same(rows[i].0, key);
                if low < i {
                    lemma_repo_rank_mirror(rows[low as int].0, key);
                    lemma_repo_rank_same(rows[low as int].0, key);
                }
            }
        }
        (low, found)
    }

    /// Grants `permission` on `repo`, in place of what the table granted on it before.
    /// Only a load does this: a table that was handed out does not change any more.
    pub(crate) fn insert(&mut self, repo: Repo, permission: Permission)
        ensures
            final(self)@ == old(self)@.insert(repo@, permission),
    {
        proof {
            use_type_invariant(&*self);
        }
        let ghost rows = rows_of(self.entries@);
        let ghost key = repo@;
        let (at, found) = self.position(&repo);
        let ghost next = if found {
            rows.update(at as int, (key, permission))
        } else {
            rows.insert(at as int, (key, permission))
        };
        proof {
            if found {
                lemma_replace_row(rows, at as int, permission);
            } else {
                lemma_insert_row(rows, at as int, key, permission);
            }
        }
        let mut entries: Vec<(Repo, Permission)> = Vec::new();
        core::mem::swap(&mut self.entries, &mut entries);
        if found {
            entries.set(at, (repo, permission));
        } else {
            entries.insert(at, (repo, permission));
        }
        assert(rows_of(entries@) =~= next);
        self.entries = entries;
    }

    /// The entries of the table, in ascending order of their repositories.
    pub fn entries(&self) -> (entries: &Vec<(Repo, Permission)>)
        ensures
            rows_sorted(rows_of(entries@)),
            self@ == table_of(rows_of(entries@)),
    {
        proof {
            use_type_invariant(self);
        }
        &self.entries
    }

    /// What the table grants on `repo`, if anything.
    pub fn get(&self, repo: &Repo) -> (granted: Option<Permission>)
        ensures
            match granted {
                Some(permission) => self@.contains_key(repo@) && self@[repo@] == permission,
                None => !self@.contains_key(repo@),
            },
    {
        proof {
            use_type_invariant(self);
        }
        let (at, found) = self.position(repo);
        if found {
            proof {
                lemma_table_row(rows_of(self.entries@), at as int);
            }
            Some(self.entries[at].1)
        } else {
            None
        }
    }

    /// Whether the user may read `repo`: the table grants reading or writing on it.
    pub fn can_read(&self, repo: &Repo) -> (allowed: bool)
        ensures
            allowed == grants(self@, repo@, Permission::Read),
            allowed == self@.contains_key(repo@),
    {
        match self.get(repo) {
            None => false,
            Some(Permission::Read) => true,
            Some(Permission::Write) => true,
        }
    }

    /// Whether the user may write `repo`: the table grants writing on it.
    pub fn can_write(&self, repo: &Repo) -> (allowed: bool)
        ensures
            allowed == grants(self@, repo@, Permission::Write),
            allowed == (self@.contains_key(repo@) && self@[repo@] == Permission::Write),
    {
        match self.get(repo) {
            None => false,
            Some(Permission::Read) => false,
            Some(Permission::Write) => true,
        }
    }

    /// Whether the table grants nothing at all.
    pub fn is_empty(&self) -> (empty: bool)
        ensures
            empty == (self@ == Map::<RepoView, Permission>::empty()),
    {
        let empty = self.entries.len() == 0;
        proof {
            let rows = rows_of(self.entries@);
            if empty {
                assert(self@ =~= Map::<RepoView, Permission>::empty());
            } else {
                assert(self@.contains_key(rows[0].0));
            }
        }
        empty
    }
}

/// What one line of the configuration does to a load.
pub enum LineEffect {
    /// Nothing: the line is blank, a comment, or belongs to another user's section.
    Nothing,
    /// The line is a header: the lines after it count if and only if the flag is set.
    Section(bool),
    /// The line grants a permission on a repository.
    Grant(RepoView, Permission),
    /// The line is malformed, and the load fails with this error.
    Abort(ErrorView),
}

/// What the line `line`, the `number`-th of the configuration, does to a load for
/// `user`, when `active` tells whether the section it stands in is the user's.
///
/// A blank line does nothing. A line that starts with `@` is a header, and the section
/// it opens is the user's exactly if the rest of the line is the user's name. Any other
/// line does nothing outside the user's sections, and nothing if it starts with `#`.
/// Otherwise it must be a permission marker, one space and a repository identifier.
pub open spec fn line_effect(line: Seq<char>, number: nat, user: Seq<char>, active: bool)
    -> LineEffect {
    if line.len() == 0 {
        LineEffect::Nothing
    } else if line[0] == '@' {
        LineEffect::Section(line.skip(1) == user)
    } else if !active || line[0] == '#' {
        LineEffect::Nothing
    } else if permission_of(line[0]) is None {
        LineEffect::Abort(ErrorView::PermissionInvalid(line[0]))
    } else if line.len() < 2 || line[1] != ' ' {
        LineEffect::Abort(ErrorView::ConfigMalformed(number, line))
    } else if repo_defect(line.skip(2)) is Some {
        LineEffect::Abort(ErrorView::RepoInvalid(line.skip(2), repo_defect(line.skip(2))->0))
    } else {
        LineEffect::Grant(repo_of(line.skip(2)), permission_of(line[0])->0)
    }
}

/// A load in progress, as the contracts see it.
pub struct LoaderView {
    /// The user whose table is being loaded.
    pub user: Seq<char>,
    /// Whether the lines read now stand in a section of that user.
    pub active: bool,
    /// How many lines were read so far.
    pub seen: nat,
    /// What was granted so far.
    pub table: Map<RepoView, Permission>,
}

/// The load for `user` before its first line.
pub open spec fn start_of_load(user: Seq<char>) -> LoaderView {
    LoaderView { user, active: false, seen: 0, table: Map::empty() }
}

/// The number of the line that follows `seen` lines. The count stops at the largest
/// `usize`.
pub open spec fn next_number(seen: nat) -> nat {
    if seen < usize::MAX {
        seen + 1
    } else {
        seen
    }
}

/// The load after one more line, or the error with which the line makes it fail.
pub open spec fn feed_line(state: LoaderView, line: Seq<char>) -> Result<LoaderView, ErrorView> {
    let number = next_number(state.seen);
    match line_effect(line, number, state.user, state.active) {
        LineEffect::Nothing => Ok(LoaderView { seen: number, ..state }),
        LineEffect::Section(on) => Ok(LoaderView { seen: number, active: on, ..state }),
        LineEffect::Grant(repo, permission) => Ok(
            LoaderView { seen: number, table: state.table.insert(repo, permission), ..state },
        ),
        LineEffect::Abort(error) => Err(error),
    }
}

/// The load after the lines `lines`, in order, or the error of the first line that makes
/// it fail.
pub open spec fn feed_lines(state: LoaderView, lines: Seq<Seq<char>>) -> Result<
    LoaderView,
    ErrorView,
>
    decreases lines.len(),
{
    if lines.len() == 0 {
        Ok(state)
    } else {
        match feed_line(state, lines[0]) {
            Ok(next) => feed_lines(next, lines.drop_first()),
            Err(error) => Err(error),
        }
    }
}

/// A loader of the permission table of one user. It is fed the lines of the
/// configuration one by one and keeps what they grant to that user.
pub struct DbLoader {
    user: Vec<char>,
    active: bool,
    seen: usize,
    db: UserDb,
}

impl View for DbLoader {
    type V = LoaderView;

    closed spec fn view(&self) -> LoaderView {
        LoaderView {
            user: self.user@,
            active: self.active,
            seen: self.seen as nat,
            table: self.db@,
        }
    }
}

impl DbLoader {
    /// A loader for `user` that has read nothing yet.
    pub fn new(user: User) -> (loader: DbLoader)
        ensures
            loader@ == start_of_load(user@),
    {
        DbLoader { user: chars_of(user.as_str()), active: false, seen: 0, db: UserDb::new() }
    }

    /// Whether the line `line`, which starts with `@`, is the header of the user's section.
    fn is_header_of_user(&self, line: &Vec<char>) -> (own: bool)
        requires
            line.len() > 0,
        ensures
            own == (line@.skip(1) == self.user@),
    {
        if line.len() - 1 != self.user.len() {
            return false;
        }
        let mut i: usize = 0;
        while i < self.user.len()
            invariant
                line.len() - 1 == self.user.len(),
                i <= self.user.len(),
                forall|j: int| 0 <= j < i ==> line@[j + 1] == self.user@[j],
            decreases self.user.len() - i,
        {
            if line[i + 1] != self.user[i] {
                return false;
            }
            i += 1;
        }
        assert(line@.skip(1) =~= self.user@);
        true
    }

    /// Reads one more line, given as its characters.
    pub fn feed_chars(&mut self, line: &Vec<char>) -> (r: Result<(), Error>)
        ensures
            match feed_line(old(self)@, line@) {
                Ok(next) => r is Ok && final(self)@ == next,
                Err(error) => r is Err && r->Err_0@ == error && final(self)@ == (LoaderView {
                    seen: next_number(old(self)@.seen),
                    ..old(self)@
                }),
            },
    {
        if self.seen < usize::MAX {
            self.seen += 1;
        }
        if line.len() == 0 {
            return Ok(());
        }
        let marker = line[0];
        if marker == '@' {
            self.active = self.is_header_of_user(line);
            return Ok(());
        }
        if !self.active || marker == '#' {
            return Ok(());
        }
        let permission = match Permission::from_char(marker) {
            Ok(permission) => permission,
            Err(error) => {
                return Err(error);
            },
        };
        if line.len() < 2 || line[1] != ' ' {
            assert(line@.subrange(0, line.len() as int) == line@);
            return Err(Error::ConfigMalformed((self.seen, string_of(line, 0, line.len()))));
        }
        match Repo::from_string(string_of(line, 2, line.len())) {
            Ok(repo) => {
                self.db.insert(repo, permission);
                Ok(())
            },
            Err(error) => Err(error),
        }
    }

    /// Reads one more line.
    pub fn feed(&mut self, line: &str) -> (r: Result<(), Error>)
        ensures
            match feed_line(old(self)@, line@) {
                Ok(next) => r is Ok && final(self)@ == next,
                Err(error) => r is Err && r->Err_0@ == error && final(self)@ == (LoaderView {
                    seen: next_number(old(self)@.seen),
                    ..old(self)@
                }),
            },
    {
        let cs = chars_of(line);
        self.feed_chars(&cs)
    }

    /// Ends the load and hands out the table.
    pub fn finish(self) -> (db: UserDb)
        ensures
            db@ == self@.table,
    {
        self.db
    }
}

/// A line without the carriage return that may end it.
pub open spec fn without_carriage_return(line: Seq<char>) -> Seq<char> {
    if line.len() > 0 && line.last() == '\r' {
        line.drop_last()
    } else {
        line
    }
}

/// The lines of `text`. A line ends with a line feed, or with a carriage return and a
/// line feed, neither of which belongs to it; what follows the last line feed is a line
/// of its own if it is not empty.
pub open spec fn lines_of(text: Seq<char>) -> Seq<Seq<char>>
    decreases text.len(),
{
    if text.len() == 0 {
        Seq::empty()
    } else {
        match text.index_of_first('\n') {
            Some(end) if 0 <= end < text.len() => seq![without_carriage_return(text.take(end))]
                + lines_of(text.skip(end + 1)),
            _ => seq![text],
        }
    }
}

/// The table that the configuration `text` gives to `user`, or the error of the first
/// line that is malformed: no table comes out of a text with such a line.
pub open spec fn load(text: Seq<char>, user: Seq<char>) -> Result<
    Map<RepoView, Permission>,
    ErrorView,
> {
    match feed_lines(start_of_load(user), lines_of(text)) {
        Ok(state) => Ok(state.table),
        Err(error) => Err(error),
    }
}

/// Feeding some lines and then more lines is feeding them all; an error among the
/// first ends the load, whatever follows.
pub proof fn lemma_feed_in_parts(state: LoaderView, first: Seq<Seq<char>>, more: Seq<Seq<char>>)
    ensures
        feed_lines(state, first + more) == match feed_lines(state, first) {
            Ok(next) => feed_lines(next, more),
            Err(error) => Err(error),
        },
    decreases first.len(),
{
    if first.len() == 0 {
        assert(first + more =~= more);
    } else {
        assert((first + more).drop_first() =~= first.drop_first() + more);
        match feed_line(state, first[0]) {
            Ok(next) => {
                lemma_feed_in_parts(next, first.drop_first(), more);
            },
            Err(_) => {},
        }
    }
}

/// A line in a section of the user that starts with anything but `@`, `#` or a
/// permission marker ends the load: the error names that first character, whatever the
/// lines before it granted and whatever follows, and no table comes out.
pub proof fn lemma_unknown_marker_aborts(
    user: Seq<char>,
    before: Seq<Seq<char>>,
    line: Seq<char>,
    after: Seq<Seq<char>>,
)
    requires
        feed_lines(start_of_load(user), before) is Ok,
        feed_lines(start_of_load(user), before)->Ok_0.active,
        line.len() > 0,
        line[0] != '@',
        line[0] != '#',
        line[0] != 'r',
        line[0] != 'w',
    ensures
        feed_lines(start_of_load(user), before + seq![line] + after) == Err::<
            LoaderView,
            ErrorView,
        >(ErrorView::PermissionInvalid(line[0])),
{
    let start = start_of_load(user);
    lemma_feed_in_parts(start, before + seq![line], after);
    lemma_feed_in_parts(start, before, seq![line]);
    lemma_feed_first(feed_lines(start, before)->Ok_0, line, Seq::empty());
}

/// Feeding a first line and then the others is feeding them all.
proof fn lemma_feed_first(state: LoaderView, first: Seq<char>, others: Seq<Seq<char>>)
    ensures
        feed_lines(state, seq![first] + others) == match feed_line(state, first) {
            Ok(next) => feed_lines(next, others),
            Err(error) => Err(error),
        },
{
    let all = seq![first] + others;
    assert(all.drop_first() =~= others);
}

/// The lines of a text whose first line feed stands at `end`.
proof fn lemma_lines_at_line_feed(text: Seq<char>, end: int)
    requires
        0 <= end < text.len(),
        text[end] == '\n',
        forall|i: int| 0 <= i < end ==> text[i] != '\n',
    ensures
        lines_of(text) == seq![without_carriage_return(text.take(end))] + lines_of(
            text.skip(end + 1),
        ),
{
    text.index_of_first_ensures('\n');
}

/// The lines of a text that holds no line feed.
proof fn lemma_lines_of_last(text: Seq<char>)
    requires
        forall|i: int| 0 <= i < text.len() ==> text[i] != '\n',
    ensures
        lines_of(text) == if text.len() == 0 {
            Seq::<Seq<char>>::empty()
        } else {
            seq![text]
        },
{
    text.index_of_first_ensures('\n');
}

/// Loads the permission table of `user` from the configuration `text`.
///
/// The text is read line by line. Only the lines in the sections of `user` count; each
/// of them grants a permission on one repository, and a later line on the same
/// repository replaces an earlier one. The first malformed line among them ends the
/// load with its error.
pub fn read_db(text: &str, user: User) -> (r: Result<UserDb, Error>)
    ensures
        match load(text@, user@) {
            Ok(table) => r is Ok && r->Ok_0@ == table,
            Err(error) => r is Err && r->Err_0@ == error,
        },
{
    let cs = chars_of(text);
    let mut loader = DbLoader::new(user);
    let mut line: Vec<char> = Vec::new();
    let mut start: usize = 0;
    let mut i: usize = 0;
    assert(cs@.skip(0) == cs@);
    while i < cs.len()
        invariant
            cs@ == text@,
            start <= i <= cs.len(),
            line@ == cs@.subrange(start as int, i as int),
            forall|j: int| start <= j < i ==> cs@[j] != '\n',
            feed_lines(start_of_load(user@), lines_of(text@)) == feed_lines(
                loader@,
                lines_of(cs@.skip(start as int)),
            ),
        decreases cs.len() - i,
    {
        let c = cs[i];
        if c == '\n' {
            let ghost rest = cs@.skip(start as int);
            let ghost raw = line@;
            proof {
                lemma_lines_at_line_feed(rest, i - start);
                assert(rest.take(i - start) == raw);
                assert(rest.skip(i - start + 1) == cs@.skip(i + 1));
            }
            if line.len() > 0 && line[line.len() - 1] == '\r' {
                line.pop();
            }
            proof {
                lemma_feed_first(loader@, line@, lines_of(cs@.skip(i + 1)));
            }
            match loader.feed_chars(&line) {
                Ok(()) => {},
                Err(error) => {
                    return Err(error);
                },
            }
            line = Vec::new();
            start = i + 1;
        } else {
            line.push(c);
        }
        i += 1;
    }
    proof {
        lemma_lines_of_last(cs@.skip(start as int));
        if line.len() > 0 {
            lemma_feed_first(loader@, line@, Seq::empty());
        }
    }
    if line.len() > 0 {
        match loader.feed_chars(&line) {
            Ok(()) => {},
            Err(error) => {
                return Err(error);
            },
        }
    }
    Ok(loader.finish())
}

} // verus!

//! The forced command: what it asks for, whether the permission table allows it, and
//! what is launched when it does.

use crate::errors::{Error, ErrorView, Rejection, RejectionView};
use crate::text::{chars_of, starts_with, string_of};
use crate::types::{repo_defect, repo_of, repo_path, Permission, Repo, RepoView};
use crate::userdb::{grants, UserDb};
use vstd::prelude::*;
use vstd::string::StringExecFns;

verus! {

/// A git transport that a client may ask for, with the repository it is to serve.
#[derive(Debug, PartialEq, Eq)]
pub enum GitCommand {
    GitReceivePack(Repo),
    GitUploadPack(Repo),
}

/// A [`GitCommand`] with its repository as sequences of characters.
pub enum GitCommandView {
    GitReceivePack(RepoView),
    GitUploadPack(RepoView),
}

impl GitCommandView {
    /// The repository that the command is about.
    pub open spec fn repo(self) -> RepoView {
        match self {
            GitCommandView::GitReceivePack(repo) => repo,
            GitCommandView::GitUploadPack(repo) => repo,
        }
    }

    /// What the table must grant on the repository for the command to pass: reading
    /// for `git-receive-pack`, writing for `git-upload-pack`.
    pub open spec fn needed(self) -> Permission {
        match self {
            GitCommandView::GitReceivePack(_) => Permission::Read,
            GitCommandView::GitUploadPack(_) => Permission::Write,
        }
    }

    /// The error with which the command is refused.
    pub open spec fn denial(self) -> ErrorView {
        match self {
            GitCommandView::GitReceivePack(_) => ErrorView::AccessDenied("no read permission"@),
            GitCommandView::GitUploadPack(_) => ErrorView::AccessDenied("no write permission"@),
        }
    }

    /// The name of the program that serves the command.
    pub open spec fn program(self) -> Seq<char> {
        match self {
            GitCommandView::GitReceivePack(_) => "git-receive-pack"@,
            GitCommandView::GitUploadPack(_) => "git-upload-pack"@,
        }
    }
}

impl View for GitCommand {
    type V = GitCommandView;

    open spec fn view(&self) -> GitCommandView {
        match *self {
            GitCommand::GitReceivePack(repo) => GitCommandView::GitReceivePack(repo@),
            GitCommand::GitUploadPack(repo) => GitCommandView::GitUploadPack(repo@),
        }
    }
}

/// The repository argument without the pair of single quotes around it, if it stands
/// in one. One pair is taken off, and nothing inside is unescaped.
pub open spec fn unquoted(argument: Seq<char>) -> Seq<char> {
    if argument.len() >= 2 && argument.first() == '\'' && argument.last() == '\'' {
        argument.subrange(1, argument.len() - 1)
    } else {
        argument
    }
}

/// The repository that the argument of a forced command names.
pub fn repository_of_path(s: &str) -> (r: Result<Repo, Error>)
    ensures
        match r {
            Ok(repo) => repo_defect(unquoted(s@)) is None && repo@ == repo_of(unquoted(s@))
                && repo@.valid(),
            Err(e) => repo_defect(unquoted(s@)) is Some && e@ == ErrorView::RepoInvalid(
                unquoted(s@),
                repo_defect(unquoted(s@))->0,
            ),
        },
{
    let cs = chars_of(s);
    assert(cs@.skip(0) == s@);
    repository_of_chars(&cs, 0)
}

/// The repository that the characters of `cs` from `from` on name.
fn repository_of_chars(cs: &Vec<char>, from: usize) -> (r: Result<Repo, Error>)
    requires
        from <= cs.len(),
    ensures
        match r {
            Ok(repo) => repo_defect(unquoted(cs@.skip(from as int))) is None && repo@ == repo_of(
                unquoted(cs@.skip(from as int)),
            ) && repo@.valid(),
            Err(e) => repo_defect(unquoted(cs@.skip(from as int))) is Some && e@
                == ErrorView::RepoInvalid(
                unquoted(cs@.skip(from as int)),
                repo_defect(unquoted(cs@.skip(from as int)))->0,
            ),
        },
{
    let ghost argument = cs@.skip(from as int);
    let end = cs.len();
    if end - from >= 2 && cs[from] == '\'' && cs[end - 1] == '\'' {
        assert(argument.subrange(1, argument.len() - 1) == cs@.subrange(from + 1, end - 1));
        Repo::from_string(string_of(cs, from + 1, end - 1))
    } else {
        Repo::from_string(string_of(cs, from, end))
    }
}

/// What the forced command `command` asks for.
///
/// A command is `git-receive-pack ` or `git-upload-pack `, each with the space, followed
/// by the repository, which may stand in single quotes. Anything else is unknown.
pub open spec fn classified(command: Seq<char>) -> Result<GitCommandView, RejectionView> {
    if "git-receive-pack "@.is_prefix_of(command) {
        let argument = unquoted(command.skip("git-receive-pack "@.len() as int));
        match repo_defect(argument) {
            None => Ok(GitCommandView::GitReceivePack(repo_of(argument))),
            Some(why) => Err(
                RejectionView::PathOfRepositoryInvalid(ErrorView::RepoInvalid(argument, why)),
            ),
        }
    } else if "git-upload-pack "@.is_prefix_of(command) {
        let argument = unquoted(command.skip("git-upload-pack "@.len() as int));
        match repo_defect(argument) {
            None => Ok(GitCommandView::GitUploadPack(repo_of(argument))),
            Some(why) => Err(
                RejectionView::PathOfRepositoryInvalid(ErrorView::RepoInvalid(argument, why)),
            ),
        }
    } else {
        Err(RejectionView::UnknownGitCommand(command))
    }
}

/// A repository argument in single quotes.
pub open spec fn quoted(argument: Seq<char>) -> Seq<char> {
    seq!['\''] + argument + seq!['\'']
}

/// Quotes around the repository do not matter: a command whose repository stands in
/// single quotes is classified as the same command without them, unless the repository
/// text is itself one in quotes.
pub proof fn lemma_quotes_do_not_matter(argument: Seq<char>)
    ensures
        unquoted(quoted(argument)) == argument,
        unquoted(argument) == argument ==> classified("git-upload-pack "@ + quoted(argument))
            == classified("git-upload-pack "@ + argument),
        unquoted(argument) == argument ==> classified("git-receive-pack "@ + quoted(argument))
            == classified("git-receive-pack "@ + argument),
{
    reveal_strlit("git-upload-pack ");
    reveal_strlit("git-receive-pack ");
    let upload = "git-upload-pack "@;
    let receive = "git-receive-pack "@;
    assert forall|rest: Seq<char>| !receive.is_prefix_of(#[trigger] (upload + rest)) by {
        if receive.is_prefix_of(upload + rest) {
            assert((upload + rest)[4] == receive[4]);
        }
    }
    assert(forall|rest: Seq<char>|
        (#[trigger] (upload + rest)).skip(upload.len() as int) == rest && upload.is_prefix_of(
            upload + rest,
        ));
    assert(forall|rest: Seq<char>|
        (#[trigger] (receive + rest)).skip(receive.len() as int) == rest && receive.is_prefix_of(
            receive + rest,
        ));
}

/// What the forced command `command` asks for, or why it cannot be served.
pub fn classify(command: &str) -> (r: Result<GitCommand, Rejection>)
    ensures
        match classified(command@) {
            Ok(asked) => r is Ok && r->Ok_0@ == asked && asked.repo().valid(),
            Err(why) => r is Err && r->Err_0@ == why,
        },
{
    let cs = chars_of(command);
    let receive = chars_of("git-receive-pack ");
    let upload = chars_of("git-upload-pack ");
    if starts_with(&cs, &receive) {
        match repository_of_chars(&cs, receive.len()) {
            Ok(repo) => Ok(GitCommand::GitReceivePack(repo)),
            Err(error) => Err(Rejection::PathOfRepositoryInvalid(error)),
        }
    } else if starts_with(&cs, &upload) {
        match repository_of_chars(&cs, upload.len()) {
            Ok(repo) => Ok(GitCommand::GitUploadPack(repo)),
            Err(error) => Err(Rejection::PathOfRepositoryInvalid(error)),
        }
    } else {
        Err(Rejection::UnknownGitCommand(String::from_str(command)))
    }
}

/// The outcome of a connection of a user with the table `table` and the forced command
/// `command`: the command to launch, or why the connection is turned away.
///
/// An empty table turns every connection away, whatever the command, before the
/// command is looked at. Then the command must be there, be a known one with a
/// well-formed repository, and be granted by the table.
pub open spec fn authorized(table: Map<RepoView, Permission>, command: Option<Seq<char>>)
    -> Result<GitCommandView, RejectionView> {
    if table == Map::<RepoView, Permission>::empty() {
        Err(RejectionView::UserNotFound)
    } else {
        match command {
            None => Err(RejectionView::NoSshOriginalCommand),
            Some(text) => match classified(text) {
                Err(why) => Err(why),
                Ok(asked) => if grants(table, asked.repo(), asked.needed()) {
                    Ok(asked)
                } else {
                    Err(RejectionView::PermissionCheckFailed(asked.denial()))
                },
            },
        }
    }
}

/// Decides a connection: the command to launch, or why the connection is turned away.
pub fn authorize(db: &UserDb, command: Option<&str>) -> (r: Result<GitCommand, Rejection>)
    ensures
        match authorized(
            db@,
            match command {
                Some(text) => Some(text@),
                None => None,
            },
        ) {
            Ok(asked) => r is Ok && r->Ok_0@ == asked,
            Err(why) => r is Err && r->Err_0@ == why,
        },
        db@ == Map::<RepoView, Permission>::empty() ==> r is Err && r->Err_0@
            == RejectionView::UserNotFound,
{
    if db.is_empty() {
        return Err(Rejection::UserNotFound);
    }
    let text = match command {
        Some(text) => text,
        None => {
            return Err(Rejection::NoSshOriginalCommand);
        },
    };
    let asked = match classify(text) {
        Ok(asked) => asked,
        Err(why) => {
            return Err(why);
        },
    };
    match asked.check_permission(db) {
        Ok(()) => Ok(asked),
        Err(error) => Err(Rejection::PermissionCheckFailed(error)),
    }
}

impl GitCommand {
    /// The repository that the command is about.
    pub fn repo(&self) -> (repo: &Repo)
        ensures
            repo@ == self@.repo(),
    {
        match self {
            GitCommand::GitReceivePack(repo) => repo,
            GitCommand::GitUploadPack(repo) => repo,
        }
    }

    /// Checks the command against the permission table: `git-receive-pack` passes if
    /// the table grants reading on its repository, `git-upload-pack` if it grants
    /// writing.
    pub fn check_permission(&self, db: &UserDb) -> (r: Result<(), Error>)
        ensures
            grants(db@, self@.repo(), self@.needed()) ==> r is Ok,
            !grants(db@, self@.repo(), self@.needed()) ==> r is Err && r->Err_0@
                == self@.denial(),
    {
        match self {
            GitCommand::GitReceivePack(repo) => {
                if !db.can_read(repo) {
                    Err(Error::AccessDenied("no read permission"))
                } else {
                    Ok(())
                }
            },
            GitCommand::GitUploadPack(repo) => {
                if !db.can_write(repo) {
                    Err(Error::AccessDenied("no write permission"))
                } else {
                    Ok(())
                }
            },
        }
    }

    /// The name of the program that serves the command.
    pub fn program(&self) -> (name: &'static str)
        ensures
            name@ == self@.program(),
    {
        match self {
            GitCommand::GitReceivePack(_) => "git-receive-pack",
            GitCommand::GitUploadPack(_) => "git-upload-pack",
        }
    }

    /// The one argument with which the program is launched: the place of the
    /// repository under the directory `home`.
    pub fn argument(&self, home: &str) -> (path: String)
        ensures
            path@ == repo_path(home@, self@.repo()),
    {
        self.repo().to_path(home)
    }
}

} // verus!

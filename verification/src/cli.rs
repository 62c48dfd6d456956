//! The command line of the gatekeeper, and where it finds its configuration.

use crate::errors::{Error, ErrorView};
use crate::text::{all_alphanumeric, join, join_path, str_eq};
use crate::types::User;
use vstd::prelude::*;

verus! {

/// What the gatekeeper is asked to do.
#[derive(Debug, PartialEq, Eq)]
pub enum Mode {
    /// Load the configuration at the given place, for the given user if there is one,
    /// and show what it grants.
    Debug(String, Option<User>),
    /// Serve the connection of the given user.
    Normal(User),
}

/// A [`Mode`] with its texts as sequences of characters.
pub enum ModeView {
    Debug(Seq<char>, Option<Seq<char>>),
    Normal(Seq<char>),
}

impl View for Mode {
    type V = ModeView;

    open spec fn view(&self) -> ModeView {
        match *self {
            Mode::Debug(config, user) => ModeView::Debug(
                config@,
                match user {
                    Some(user) => Some(user@),
                    None => None,
                },
            ),
            Mode::Normal(user) => ModeView::Normal(user@),
        }
    }
}

/// The user that the argument `name` gives, or the error for a name that holds a
/// character that is not alphanumeric.
pub open spec fn user_argument(name: Seq<char>) -> Result<Seq<char>, ErrorView> {
    if all_alphanumeric(name) {
        Ok(name)
    } else {
        Err(ErrorView::UserInvalid(name))
    }
}

/// What the arguments `args` ask for; the first of them is the program's own name.
///
/// `program user` serves a connection of `user`. `program --debug config [user]` shows
/// what `config` grants; arguments after the user are not looked at.
pub open spec fn parsed(args: Seq<Seq<char>>) -> Result<ModeView, ErrorView> {
    if args.len() < 2 {
        Err(ErrorView::UsageInvalid("no arguments"@))
    } else if args[1] == "--debug"@ {
        if args.len() == 2 {
            Err(ErrorView::UsageInvalid("no arguments"@))
        } else if args.len() > 3 {
            match user_argument(args[3]) {
                Ok(user) => Ok(ModeView::Debug(args[2], Some(user))),
                Err(error) => Err(error),
            }
        } else {
            Ok(ModeView::Debug(args[2], None))
        }
    } else if args.len() != 2 {
        Err(ErrorView::UsageInvalid("too many arguments"@))
    } else {
        match user_argument(args[1]) {
            Ok(user) => Ok(ModeView::Normal(user)),
            Err(error) => Err(error),
        }
    }
}

/// Reads the command line.
pub fn parse_argument(args: &Vec<String>) -> (r: Result<Mode, Error>)
    ensures
        match parsed(args.deep_view()) {
            Ok(mode) => r is Ok && r->Ok_0@ == mode,
            Err(error) => r is Err && r->Err_0@ == error,
        },
{
    if args.len() < 2 {
        return Err(Error::UsageInvalid("no arguments"));
    }
    if str_eq(args[1].as_str(), "--debug") {
        if args.len() == 2 {
            return Err(Error::UsageInvalid("no arguments"));
        }
        let config = args[2].clone();
        if args.len() > 3 {
            match User::from_string(args[3].clone()) {
                Ok(user) => Ok(Mode::Debug(config, Some(user))),
                Err(error) => Err(error),
            }
        } else {
            Ok(Mode::Debug(config, None))
        }
    } else {
        if args.len() != 2 {
            return Err(Error::UsageInvalid("too many arguments"));
        }
        match User::from_string(args[1].clone()) {
            Ok(user) => Ok(Mode::Normal(user)),
            Err(error) => Err(error),
        }
    }
}

/// The place of the configuration under the home directory `home`: the file
/// `gitcontrol.cfg` in it.
pub fn gitcontrol_config_path(home: &str) -> (path: String)
    ensures
        path@ == join_path(home@, "gitcontrol.cfg"@),
{
    join(home, "gitcontrol.cfg")
}

} // verus!

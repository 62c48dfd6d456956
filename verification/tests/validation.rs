use gitcontrol::errors::Error;
use gitcontrol::text::Rank;
use gitcontrol::types::{pattern_not_accepted, Permission, Repo, User};

fn repo(text: &str) -> Repo {
    Repo::from_string(String::from(text)).unwrap()
}

fn repo_error(text: &str) -> Error {
    Repo::from_string(String::from(text)).unwrap_err()
}

#[test]
fn user_accepts_alphanumeric_name_unchanged() {
    let user = User::from_string(String::from("alice42")).unwrap();
    assert_eq!(user.as_str(), "alice42");
}

#[test]
fn user_accepts_letters_and_digits_beyond_ascii() {
    let user = User::from_string(String::from("Zoë٣藏")).unwrap();
    assert_eq!(user.as_str(), "Zoë٣藏");
}

#[test]
fn user_accepts_the_empty_name() {
    let user = User::from_string(String::new()).unwrap();
    assert_eq!(user.as_str(), "");
}

#[test]
fn user_refuses_any_character_that_is_not_alphanumeric() {
    for name in ["al ice", "alice-b", "alice/b", "alice.b", "alice\n", "@alice", "ali_ce", "a'b"] {
        assert_eq!(
            User::from_string(String::from(name)),
            Err(Error::UserInvalid(String::from(name))),
        );
    }
}

#[test]
fn user_is_eq_compares_the_whole_name() {
    let user = User::from_string(String::from("alice")).unwrap();
    assert!(user.is_eq("alice"));
    assert!(!user.is_eq("alic"));
    assert!(!user.is_eq("alicea"));
    assert!(!user.is_eq("Alice"));
    assert!(!user.is_eq(""));
    assert!(!user.is_eq("alice "));
}

#[test]
fn user_clone_keeps_the_name() {
    let user = User::from_string(String::from("bob")).unwrap();
    assert_eq!(user.clone(), user);
}

#[test]
fn pattern_not_accepted_tells_letters_and_digits_from_the_rest() {
    for c in ['a', 'Z', '0', '9', 'é', '٣', '藏'] {
        assert!(!pattern_not_accepted(c));
    }
    for c in ['/', '.', ' ', '-', '_', '\'', '@', '#', '\n', '\r', '\0', '\u{7f}', '€'] {
        assert!(pattern_not_accepted(c));
    }
}

#[test]
fn repo_accepts_two_segments() {
    let repo = repo("team/one");
    assert_eq!(repo.namespace(), "team");
    assert_eq!(repo.name(), "one");
}

#[test]
fn repo_accepts_single_characters_and_digits() {
    let repo = repo("a/b");
    assert_eq!((repo.namespace(), repo.name()), ("a", "b"));
    let repo = repo_of_digits();
    assert_eq!((repo.namespace(), repo.name()), ("2024", "R2D2"));
}

fn repo_of_digits() -> Repo {
    repo("2024/R2D2")
}

#[test]
fn repo_refuses_an_empty_name_after_the_separator() {
    assert_eq!(repo_error("team/"), Error::RepoInvalid((String::from("team/"), "not enough /")));
    assert_eq!(repo_error("a/"), Error::RepoInvalid((String::from("a/"), "not enough /")));
}

#[test]
fn repo_checks_for_the_two_segments_before_their_characters() {
    assert_eq!(repo_error("te-am/"), Error::RepoInvalid((String::from("te-am/"), "not enough /")));
    assert_eq!(
        repo_error("team//"),
        Error::RepoInvalid((String::from("team//"), "repo is not alphanumeric")),
    );
}

#[test]
fn repo_refuses_non_ascii() {
    assert_eq!(
        repo_error("téam/one"),
        Error::RepoInvalid((String::from("téam/one"), "repo contains non ASCII")),
    );
}

#[test]
fn repo_refuses_leading_slash() {
    assert_eq!(
        repo_error("/team/one"),
        Error::RepoInvalid((String::from("/team/one"), "repo starts with /")),
    );
    assert_eq!(repo_error("/"), Error::RepoInvalid((String::from("/"), "repo starts with /")));
}

#[test]
fn repo_refuses_leading_dot() {
    assert_eq!(
        repo_error("../etc"),
        Error::RepoInvalid((String::from("../etc"), "repo starts with .")),
    );
    assert_eq!(repo_error("."), Error::RepoInvalid((String::from("."), "repo starts with .")));
}

#[test]
fn repo_refuses_text_without_separator() {
    assert_eq!(repo_error("team"), Error::RepoInvalid((String::from("team"), "not enough /")));
    assert_eq!(repo_error(""), Error::RepoInvalid((String::new(), "not enough /")));
    assert_eq!(repo_error("te am"), Error::RepoInvalid((String::from("te am"), "not enough /")));
}

#[test]
fn repo_refuses_a_second_separator() {
    assert_eq!(
        repo_error("team/one/two"),
        Error::RepoInvalid((String::from("team/one/two"), "repo is not alphanumeric")),
    );
    assert_eq!(
        repo_error("team//"),
        Error::RepoInvalid((String::from("team//"), "repo is not alphanumeric")),
    );
}

#[test]
fn repo_refuses_namespace_that_is_not_alphanumeric() {
    assert_eq!(
        repo_error("te-am/one"),
        Error::RepoInvalid((String::from("te-am/one"), "directory is not alphanumeric")),
    );
    assert_eq!(
        repo_error("te.am/one"),
        Error::RepoInvalid((String::from("te.am/one"), "directory is not alphanumeric")),
    );
}

#[test]
fn repo_refuses_name_that_is_not_alphanumeric() {
    assert_eq!(
        repo_error("team/one.git"),
        Error::RepoInvalid((String::from("team/one.git"), "repo is not alphanumeric")),
    );
    assert_eq!(
        repo_error("team/.."),
        Error::RepoInvalid((String::from("team/.."), "repo is not alphanumeric")),
    );
    assert_eq!(
        repo_error("team/o ne"),
        Error::RepoInvalid((String::from("team/o ne"), "repo is not alphanumeric")),
    );
}

#[test]
fn repo_reports_the_first_reason_in_the_order_of_the_checks() {
    assert_eq!(
        repo_error("/téam"),
        Error::RepoInvalid((String::from("/téam"), "repo contains non ASCII")),
    );
    assert_eq!(
        repo_error(".é"),
        Error::RepoInvalid((String::from(".é"), "repo contains non ASCII")),
    );
    assert_eq!(
        repo_error("/a-b/c.d"),
        Error::RepoInvalid((String::from("/a-b/c.d"), "repo starts with /")),
    );
    assert_eq!(
        repo_error(".hidden"),
        Error::RepoInvalid((String::from(".hidden"), "repo starts with .")),
    );
    assert_eq!(
        repo_error("a-b/c.d"),
        Error::RepoInvalid((String::from("a-b/c.d"), "directory is not alphanumeric")),
    );
    assert_eq!(
        repo_error("a-b"),
        Error::RepoInvalid((String::from("a-b"), "not enough /")),
    );
}

#[test]
fn repo_path_is_base_namespace_name() {
    assert_eq!(repo("a/b").to_path("base"), "base/a/b");
    assert_eq!(repo("team/one").to_path("/home/git"), "/home/git/team/one");
}

#[test]
fn repo_path_adds_no_second_slash_after_the_base() {
    assert_eq!(repo("team/one").to_path("/home/git/"), "/home/git/team/one");
    assert_eq!(repo("team/one").to_path("/"), "/team/one");
}

#[test]
fn repo_path_under_the_empty_base_is_relative() {
    assert_eq!(repo("team/one").to_path(""), "team/one");
}

#[test]
fn repo_path_has_two_segments_below_the_base() {
    assert_eq!(repo("team/o").to_path("/srv"), "/srv/team/o");
    assert_eq!(repo("t/one").to_path("/srv"), "/srv/t/one");
}

#[test]
fn repo_rank_orders_by_namespace_then_name() {
    assert_eq!(repo("a/b").rank(&repo("a/b")), Rank::Same);
    assert_eq!(repo("a/b").rank(&repo("a/c")), Rank::Before);
    assert_eq!(repo("a/c").rank(&repo("a/b")), Rank::After);
    assert_eq!(repo("a/z").rank(&repo("b/a")), Rank::Before);
    assert_eq!(repo("a/b").rank(&repo("a/bb")), Rank::Before);
    assert_eq!(repo("ab/a").rank(&repo("a/z")), Rank::After);
    assert_eq!(repo("A/b").rank(&repo("a/b")), Rank::Before);
    assert_eq!(repo("9/b").rank(&repo("A/b")), Rank::Before);
}

#[test]
fn repo_rank_agrees_with_the_derived_order() {
    let texts = ["a/b", "a/c", "a/bb", "b/a", "ab/a", "A/b", "9/b", "a/0", "a/B"];
    for x in texts {
        for y in texts {
            let expected = match repo(x).cmp(&repo(y)) {
                std::cmp::Ordering::Less => Rank::Before,
                std::cmp::Ordering::Equal => Rank::Same,
                std::cmp::Ordering::Greater => Rank::After,
            };
            assert_eq!(repo(x).rank(&repo(y)), expected);
        }
    }
}

#[test]
fn repo_clone_is_equal() {
    let repo = repo("team/one");
    assert_eq!(repo.clone(), repo);
}

#[test]
fn permission_markers() {
    assert_eq!(Permission::from_char('r'), Ok(Permission::Read));
    assert_eq!(Permission::from_char('w'), Ok(Permission::Write));
}

#[test]
fn permission_marker_x_is_refused() {
    assert_eq!(Permission::from_char('x'), Err(Error::PermissionInvalid('x')));
    assert_eq!(Permission::from_char('R'), Err(Error::PermissionInvalid('R')));
    assert_eq!(Permission::from_char(' '), Err(Error::PermissionInvalid(' ')));
}

#[test]
fn permission_write_is_above_read() {
    assert!(Permission::Read < Permission::Write);
}

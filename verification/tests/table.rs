use gitcontrol::errors::Error;
use gitcontrol::types::{Permission, Repo, User};
use gitcontrol::userdb::{read_db, DbLoader, UserDb};

fn user(name: &str) -> User {
    User::from_string(String::from(name)).unwrap()
}

fn repo(text: &str) -> Repo {
    Repo::from_string(String::from(text)).unwrap()
}

fn load_error(config: &str, name: &str) -> Error {
    read_db(config, user(name)).unwrap_err()
}

fn rows(db: &UserDb) -> Vec<(String, Permission)> {
    db.entries()
        .iter()
        .map(|(repo, permission)| (format!("{}/{}", repo.namespace(), repo.name()), *permission))
        .collect()
}

fn row(text: &str, permission: Permission) -> (String, Permission) {
    (String::from(text), permission)
}

#[test]
fn load_keeps_the_sections_of_the_user_only() {
    let config = "@alice\nw team/one\n@bob\nr team/two\n@alice\nw team/three\n";
    let db = read_db(config, user("alice")).unwrap();
    assert_eq!(
        rows(&db),
        vec![row("team/one", Permission::Write), row("team/three", Permission::Write)],
    );
    assert!(!db.can_read(&repo("team/two")));
    let db = read_db(config, user("bob")).unwrap();
    assert_eq!(rows(&db), vec![row("team/two", Permission::Read)]);
}

#[test]
fn load_of_an_unknown_user_is_an_empty_table() {
    let config = "@alice\nw team/one\n";
    let db = read_db(config, user("carol")).unwrap();
    assert!(db.is_empty());
    assert_eq!(rows(&db), vec![]);
}

#[test]
fn load_of_the_empty_text_is_an_empty_table() {
    assert!(read_db("", user("alice")).unwrap().is_empty());
    assert!(read_db("\n\n", user("alice")).unwrap().is_empty());
}

#[test]
fn load_lets_a_later_line_replace_an_earlier_one() {
    let config = "@alice\nw team/one\nr team/one\n";
    let db = read_db(config, user("alice")).unwrap();
    assert_eq!(rows(&db), vec![row("team/one", Permission::Read)]);
    let config = "@alice\nr team/one\n@bob\n@alice\nw team/one\n";
    let db = read_db(config, user("alice")).unwrap();
    assert_eq!(rows(&db), vec![row("team/one", Permission::Write)]);
}

#[test]
fn load_skips_blank_lines_and_comments() {
    let config = "\n# users\n@alice\n\n# her repositories\nr team/one\n\n";
    let db = read_db(config, user("alice")).unwrap();
    assert_eq!(rows(&db), vec![row("team/one", Permission::Read)]);
}

#[test]
fn load_skips_whatever_stands_outside_the_sections_of_the_user() {
    let config = "x nonsense\nr\n@bob\nx team/one\nw /etc/passwd\n@alice\nr team/one\n";
    let db = read_db(config, user("alice")).unwrap();
    assert_eq!(rows(&db), vec![row("team/one", Permission::Read)]);
}

#[test]
fn load_reads_a_last_line_without_line_feed() {
    let db = read_db("@alice\nw team/one", user("alice")).unwrap();
    assert_eq!(rows(&db), vec![row("team/one", Permission::Write)]);
}

#[test]
fn load_takes_carriage_return_and_line_feed_as_the_end_of_a_line() {
    let db = read_db("@alice\r\nw team/one\r\n", user("alice")).unwrap();
    assert_eq!(rows(&db), vec![row("team/one", Permission::Write)]);
}

#[test]
fn load_keeps_a_carriage_return_that_no_line_feed_follows() {
    assert_eq!(
        load_error("@alice\nw team/one\r", "alice"),
        Error::RepoInvalid((String::from("team/one\r"), "repo is not alphanumeric")),
    );
}

#[test]
fn load_compares_the_header_with_the_whole_name() {
    for header in ["@alice ", "@alicex", "@alic", "@Alice", "@ alice", "@@alice", "@"] {
        let config = format!("{}\nw team/one\n", header);
        assert!(read_db(&config, user("alice")).unwrap().is_empty());
    }
}

#[test]
fn load_lets_each_header_decide_anew() {
    let config = "@alice\n@bob\nw team/one\n@alice\n@alice\nr team/two\n";
    let db = read_db(config, user("alice")).unwrap();
    assert_eq!(rows(&db), vec![row("team/two", Permission::Read)]);
}

#[test]
fn load_for_the_empty_user_reads_the_sections_of_the_bare_header() {
    let config = "@\nr team/one\n@alice\nw team/two\n";
    let db = read_db(config, user("")).unwrap();
    assert_eq!(rows(&db), vec![row("team/one", Permission::Read)]);
}

#[test]
fn load_fails_on_marker_x_and_gives_no_table() {
    let config = "@alice\nw team/one\nx team/two\nr team/three\n";
    assert_eq!(load_error(config, "alice"), Error::PermissionInvalid('x'));
}

#[test]
fn load_fails_on_a_marker_of_the_wrong_case() {
    assert_eq!(load_error("@alice\nW team/one\n", "alice"), Error::PermissionInvalid('W'));
    assert_eq!(load_error("@alice\n r team/one\n", "alice"), Error::PermissionInvalid(' '));
}

#[test]
fn load_fails_on_a_malformed_repository() {
    assert_eq!(
        load_error("@alice\nw team\n", "alice"),
        Error::RepoInvalid((String::from("team"), "not enough /")),
    );
    assert_eq!(
        load_error("@alice\nr  team/one\n", "alice"),
        Error::RepoInvalid((String::from(" team/one"), "directory is not alphanumeric")),
    );
    assert_eq!(
        load_error("@alice\nr ../secret\n", "alice"),
        Error::RepoInvalid((String::from("../secret"), "repo starts with .")),
    );
}

#[test]
fn load_fails_where_the_space_after_the_marker_is_missing() {
    assert_eq!(
        load_error("@alice\nw team/one\n\nrteam/two\n", "alice"),
        Error::ConfigMalformed((4, String::from("rteam/two"))),
    );
    assert_eq!(
        load_error("@alice\nr", "alice"),
        Error::ConfigMalformed((2, String::from("r"))),
    );
    assert_eq!(
        load_error("@alice\nw\tteam/one\n", "alice"),
        Error::ConfigMalformed((2, String::from("w\tteam/one"))),
    );
}

#[test]
fn load_fails_on_a_repository_without_name() {
    assert_eq!(
        load_error("@alice\nr team/one\nw team/\n", "alice"),
        Error::RepoInvalid((String::from("team/"), "not enough /")),
    );
}

#[test]
fn load_checks_the_marker_before_the_space() {
    assert_eq!(load_error("@alice\nxteam\n", "alice"), Error::PermissionInvalid('x'));
}

#[test]
fn load_reports_the_first_malformed_line() {
    let config = "@alice\nr team\nx team/two\n";
    assert_eq!(
        load_error(config, "alice"),
        Error::RepoInvalid((String::from("team"), "not enough /")),
    );
}

#[test]
fn loader_fed_line_by_line_builds_the_same_table() {
    let config = "@alice\nw team/one\n@bob\nr team/two\n@alice\nw team/three\n";
    let mut loader = DbLoader::new(user("alice"));
    for line in config.lines() {
        assert_eq!(loader.feed(line), Ok(()));
    }
    let db = loader.finish();
    assert_eq!(rows(&db), rows(&read_db(config, user("alice")).unwrap()));
    assert_eq!(rows(&db).len(), 2);
}

#[test]
fn loader_counts_the_lines_it_was_fed() {
    let mut loader = DbLoader::new(user("alice"));
    assert_eq!(loader.feed("# one"), Ok(()));
    assert_eq!(loader.feed("@alice"), Ok(()));
    assert_eq!(loader.feed("r"), Err(Error::ConfigMalformed((3, String::from("r")))));
    assert_eq!(loader.feed("wx"), Err(Error::ConfigMalformed((4, String::from("wx")))));
    assert_eq!(loader.feed("w a/b"), Ok(()));
    assert_eq!(rows(&loader.finish()), vec![row("a/b", Permission::Write)]);
}

#[test]
fn loader_fed_characters_reads_the_same_line() {
    let mut loader = DbLoader::new(user("alice"));
    let header: Vec<char> = "@alice".chars().collect();
    let grant: Vec<char> = "r team/one".chars().collect();
    assert_eq!(loader.feed_chars(&header), Ok(()));
    assert_eq!(loader.feed_chars(&grant), Ok(()));
    assert_eq!(rows(&loader.finish()), vec![row("team/one", Permission::Read)]);
}

#[test]
fn table_answers_read_for_read_and_for_write() {
    let db = read_db("@alice\nr team/one\nw team/two\n", user("alice")).unwrap();
    assert!(db.can_read(&repo("team/one")));
    assert!(!db.can_write(&repo("team/one")));
    assert!(db.can_read(&repo("team/two")));
    assert!(db.can_write(&repo("team/two")));
    assert_eq!(db.get(&repo("team/one")), Some(Permission::Read));
    assert_eq!(db.get(&repo("team/two")), Some(Permission::Write));
}

#[test]
fn table_answers_false_for_a_repository_it_does_not_hold() {
    let db = read_db("@alice\nr team/one\nw team/two\n", user("alice")).unwrap();
    for absent in ["team/three", "team/on", "team/onee", "tea/one", "Team/one", "team/o"] {
        assert!(!db.can_read(&repo(absent)));
        assert!(!db.can_write(&repo(absent)));
        assert_eq!(db.get(&repo(absent)), None);
    }
}

#[test]
fn table_write_implies_read_for_every_entry() {
    let config = "@alice\nr a/a\nw a/b\nw b/a\nr b/b\nw c/c\nr a/b\nw b/b\n";
    let db = read_db(config, user("alice")).unwrap();
    for text in ["a/a", "a/b", "b/a", "b/b", "c/c", "d/d"] {
        let repo = repo(text);
        assert!(!db.can_write(&repo) || db.can_read(&repo));
    }
    assert_eq!(
        rows(&db),
        vec![
            row("a/a", Permission::Read),
            row("a/b", Permission::Read),
            row("b/a", Permission::Write),
            row("b/b", Permission::Write),
            row("c/c", Permission::Write),
        ],
    );
}

#[test]
fn table_keeps_its_entries_in_the_order_of_the_repositories() {
    assert!(UserDb::new().is_empty());
    let config = "@alice\nr m/m\nr z/a\nr a/z\nr m/a\nr a/a\nr m/z\nr B/b\nr m/mm\nr 0/9\nw m/m\n";
    let db = read_db(config, user("alice")).unwrap();
    assert!(!db.is_empty());
    assert_eq!(
        rows(&db),
        vec![
            row("0/9", Permission::Read),
            row("B/b", Permission::Read),
            row("a/a", Permission::Read),
            row("a/z", Permission::Read),
            row("m/a", Permission::Read),
            row("m/m", Permission::Write),
            row("m/mm", Permission::Read),
            row("m/z", Permission::Read),
            row("z/a", Permission::Read),
        ],
    );
    let mut sorted = db.entries().clone();
    sorted.sort();
    assert_eq!(&sorted, db.entries());
}

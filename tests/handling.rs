use org_demo::errors::{reply_status, ErrorKind, GENERIC_MESSAGE};
use org_demo::models::{Linode, NewLinode, NewOrg, NewUser, NewUserOrg, Org, User, UserInfo};
use org_demo::repository::{exists_answer, exists_sql, insert_sql, join_comma};
use org_demo::service::{
    check_new_linode, check_new_org, found_user, invalid_post_data, nothing_here, CreateUser,
    StoreEvent, UserStep,
};

#[test]
fn status_codes_and_bodies() {
    let bad = ErrorKind::BadRequest("bad".to_string());
    let missing = ErrorKind::DoesNotExist("gone".to_string());
    let internal = ErrorKind::Internal("disk I/O error at /var/db".to_string());
    assert_eq!(bad.status_code(), 400);
    assert_eq!(missing.status_code(), 404);
    assert_eq!(internal.status_code(), 500);
    assert_eq!(bad.client_message(), "bad");
    assert_eq!(missing.client_message(), "gone");
    assert_eq!(internal.client_message(), "Something went wrong");
    assert_eq!(GENERIC_MESSAGE, "Something went wrong");
    let reply = internal.to_reply();
    assert_eq!(reply.status, 500);
    assert!(!reply.body.contains("disk"));
    assert!(bad.is_expected());
    assert!(missing.is_expected());
    assert!(!internal.is_expected());
}

#[test]
fn missing_user_is_not_found() {
    let r = found_user(None);
    assert_eq!(reply_status(&r), 404);
    match r {
        Err(e) => {
            let reply = e.to_reply();
            assert_eq!(reply.status, 404);
            assert_eq!(reply.body, "No user found");
        }
        Ok(_) => panic!("no user was given"),
    }
    let u = UserInfo { id: 3, email: "a@b.c".to_string(), orgs: vec![], linodes: vec![] };
    let r = found_user(Some(u));
    assert_eq!(reply_status(&r), 200);
    assert_eq!(r.ok().map(|u| u.id), Some(3));
}

#[test]
fn malformed_body_is_bad_request() {
    let e = invalid_post_data();
    assert_eq!(e.status_code(), 400);
    assert_eq!(e.client_message(), "Invalid post data");
    let e = nothing_here();
    assert_eq!(e.status_code(), 404);
    assert_eq!(e.client_message(), "nothing here");
}

#[test]
fn duplicate_org_and_linode() {
    match check_new_org("Cat Collective".to_string(), true) {
        Err(ErrorKind::BadRequest(m)) => assert_eq!(m, "Org already exists, Cat Collective"),
        _ => panic!("a taken name is refused"),
    }
    match check_new_org("Cat Collective".to_string(), false) {
        Ok(o) => assert_eq!(o.name, "Cat Collective"),
        _ => panic!("a free name is accepted"),
    }
    match check_new_linode("mac".to_string(), 2, true) {
        Err(ErrorKind::BadRequest(m)) => assert_eq!(m, "Linode already exists, mac"),
        _ => panic!("a taken name is refused"),
    }
    match check_new_linode("mac".to_string(), 2, false) {
        Ok(l) => {
            assert_eq!(l.name, "mac");
            assert_eq!(l.org, 2);
        }
        _ => panic!("a free name is accepted"),
    }
}

fn membership(step: &UserStep) -> Option<(i64, i64)> {
    match step {
        UserStep::InsertMembership(m) => Some((m.user, m.org)),
        _ => None,
    }
}

#[test]
fn create_user_inserts_all_memberships_then_commits() {
    let mut c = CreateUser::new("new@x.io".to_string(), vec![1, 2]);
    assert!(matches!(c.begin(), UserStep::CheckExists(ref e) if e == "new@x.io"));
    match c.on_event(StoreEvent::Exists(false)) {
        UserStep::InsertUser(u) => assert_eq!(u.email, "new@x.io"),
        _ => panic!("expected the user insert"),
    }
    assert_eq!(membership(&c.on_event(StoreEvent::Inserted(40))), Some((40, 1)));
    assert_eq!(membership(&c.on_event(StoreEvent::Inserted(900))), Some((40, 2)));
    assert!(matches!(c.on_event(StoreEvent::Inserted(901)), UserStep::Commit));
    assert!(matches!(c.on_event(StoreEvent::Committed), UserStep::Finish(Ok(40))));
}

#[test]
fn create_user_without_orgs_commits_at_once() {
    let mut c = CreateUser::new("solo@x.io".to_string(), vec![]);
    assert!(matches!(c.on_event(StoreEvent::Exists(false)), UserStep::InsertUser(_)));
    assert!(matches!(c.on_event(StoreEvent::Inserted(8)), UserStep::Commit));
    assert!(matches!(c.on_event(StoreEvent::Committed), UserStep::Finish(Ok(8))));
}

#[test]
fn create_user_invalid_org_rolls_back() {
    let mut c = CreateUser::new("new@x.io".to_string(), vec![1, 9999]);
    c.on_event(StoreEvent::Exists(false));
    assert_eq!(membership(&c.on_event(StoreEvent::Inserted(40))), Some((40, 1)));
    assert_eq!(membership(&c.on_event(StoreEvent::Inserted(900))), Some((40, 9999)));
    let fk = ErrorKind::Internal("FOREIGN KEY constraint failed".to_string());
    match c.on_event(StoreEvent::Failed(fk)) {
        UserStep::Finish(Err(e)) => assert_eq!(e.status_code(), 500),
        _ => panic!("the failure ends the creation without a commit"),
    }
    assert!(matches!(c.on_event(StoreEvent::Inserted(1)), UserStep::Finish(Err(_))));
}

#[test]
fn create_user_duplicate_email() {
    let mut c = CreateUser::new("bean@burrito.org".to_string(), vec![1]);
    match c.on_event(StoreEvent::Exists(true)) {
        UserStep::Finish(Err(ErrorKind::BadRequest(m))) => {
            assert_eq!(m, "User already exists, bean@burrito.org")
        }
        _ => panic!("a taken email is refused"),
    }
}

#[test]
fn create_user_out_of_turn_event() {
    let mut c = CreateUser::new("a@b.c".to_string(), vec![]);
    match c.on_event(StoreEvent::Committed) {
        UserStep::Finish(Err(e)) => assert_eq!(e.status_code(), 500),
        _ => panic!("a commit report before any insert is a failure"),
    }
}

#[test]
fn repository_statements() {
    assert_eq!(NewOrg::insert_statement(), "insert into org (name) values (?)");
    assert_eq!(NewUser::insert_statement(), "insert into user (email) values (?)");
    assert_eq!(NewUserOrg::insert_statement(), "insert into user_org (user, org) values (?, ?)");
    assert_eq!(NewLinode::insert_statement(), "insert into linode (name, org) values (?, ?)");
    assert_eq!(Org::exists_statement(), "select exists(select 1 from org where name = ?)");
    assert_eq!(User::exists_statement(), "select exists(select 1 from user where email = ?)");
    assert_eq!(Linode::exists_statement(), "select exists(select 1 from linode where name = ?)");
    assert_eq!(insert_sql("t", &vec![]), "insert into t () values ()");
    assert_eq!(exists_sql("a", "b"), "select exists(select 1 from a where b = ?)");
    assert_eq!(join_comma(&vec!["x", "y", "z"]), "x, y, z");
    assert_eq!(join_comma(&vec![]), "");
    assert!(exists_answer(1));
    assert!(!exists_answer(0));
    assert!(!exists_answer(2));
}

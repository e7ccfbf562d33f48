use org_demo::models::{OrgInfo, OrgRow, UserInfo, UserRow};

fn org_row(
    org_id: i64,
    org_name: &str,
    user: Option<(i64, &str)>,
    linode: Option<(i64, &str)>,
) -> OrgRow {
    OrgRow {
        org_id,
        org_name: org_name.to_string(),
        user_id: user.map(|u| u.0),
        user_email: user.map(|u| u.1.to_string()),
        linode_id: linode.map(|l| l.0),
        linode_name: linode.map(|l| l.1.to_string()),
    }
}

fn user_row(org: Option<(i64, &str)>, linode: Option<(i64, &str, i64)>) -> UserRow {
    UserRow {
        user_id: 7,
        user_email: "u7@example.com".to_string(),
        org_id: org.map(|o| o.0),
        org_name: org.map(|o| o.1.to_string()),
        linode_id: linode.map(|l| l.0),
        linode_name: linode.map(|l| l.1.to_string()),
        linode_org: linode.map(|l| l.2),
    }
}

fn user_ids(o: &OrgInfo) -> Vec<Option<i64>> {
    o.users.iter().map(|u| u.id).collect()
}

fn linode_ids(o: &OrgInfo) -> Vec<Option<i64>> {
    o.linodes.iter().map(|l| l.id).collect()
}

#[test]
fn fold_deduplicates_users_and_devices() {
    let rows = vec![
        org_row(1, "A", Some((10, "u1")), Some((100, "d1"))),
        org_row(1, "A", Some((11, "u2")), Some((100, "d1"))),
        org_row(2, "B", None, None),
    ];
    let orgs = OrgInfo::from_rows(rows);
    assert_eq!(orgs.len(), 2);
    assert_eq!(orgs[0].id, 1);
    assert_eq!(orgs[0].name, "A");
    let emails: Vec<Option<String>> = orgs[0].users.iter().map(|u| u.email.clone()).collect();
    assert_eq!(emails, vec![Some("u1".to_string()), Some("u2".to_string())]);
    assert_eq!(user_ids(&orgs[0]), vec![Some(10), Some(11)]);
    assert_eq!(linode_ids(&orgs[0]), vec![Some(100)]);
    assert_eq!(orgs[0].linodes[0].name, Some("d1".to_string()));
    assert_eq!(orgs[1].id, 2);
    assert_eq!(orgs[1].name, "B");
    assert!(orgs[1].users.is_empty());
    assert!(orgs[1].linodes.is_empty());
}

#[test]
fn fold_out_of_order_splits_an_organization() {
    let rows = vec![
        org_row(1, "A", Some((10, "u1")), None),
        org_row(2, "B", None, None),
        org_row(1, "A", Some((11, "u2")), None),
    ];
    let orgs = OrgInfo::from_rows(rows);
    let ids: Vec<i64> = orgs.iter().map(|o| o.id).collect();
    assert_eq!(ids, vec![1, 2, 1]);
    assert_eq!(user_ids(&orgs[0]), vec![Some(10)]);
    assert_eq!(user_ids(&orgs[2]), vec![Some(11)]);
}

#[test]
fn fold_single_new_org() {
    let orgs = OrgInfo::from_rows(vec![org_row(5, "Fresh", None, None)]);
    assert_eq!(orgs.len(), 1);
    assert_eq!(orgs[0].id, 5);
    assert_eq!(orgs[0].name, "Fresh");
    assert!(orgs[0].users.is_empty());
    assert!(orgs[0].linodes.is_empty());
}

#[test]
fn fold_no_rows() {
    assert!(OrgInfo::from_rows(vec![]).is_empty());
    assert!(UserInfo::from_rows(vec![]).is_none());
}

#[test]
fn fold_member_without_devices_and_device_without_members() {
    let rows = vec![
        org_row(3, "C", Some((20, "x")), None),
        org_row(3, "C", Some((21, "y")), None),
        org_row(4, "D", None, Some((300, "box"))),
    ];
    let orgs = OrgInfo::from_rows(rows);
    assert_eq!(orgs.len(), 2);
    assert_eq!(user_ids(&orgs[0]), vec![Some(20), Some(21)]);
    assert!(orgs[0].linodes.is_empty());
    assert!(orgs[1].users.is_empty());
    assert_eq!(linode_ids(&orgs[1]), vec![Some(300)]);
}

#[test]
fn extract_row_one_at_a_time() {
    let mut orgs = Vec::new();
    OrgInfo::extract_row(&mut orgs, org_row(1, "A", Some((10, "u1")), Some((100, "d1"))));
    OrgInfo::extract_row(&mut orgs, org_row(1, "A", Some((10, "u1")), Some((101, "d2"))));
    assert_eq!(orgs.len(), 1);
    assert_eq!(user_ids(&orgs[0]), vec![Some(10)]);
    assert_eq!(linode_ids(&orgs[0]), vec![Some(100), Some(101)]);
}

#[test]
fn user_fold_keeps_repeated_devices() {
    let rows = vec![
        user_row(Some((1, "A")), Some((100, "d1", 1))),
        user_row(Some((1, "A")), Some((101, "d2", 1))),
        user_row(Some((2, "B")), None),
        user_row(Some((2, "B")), None),
    ];
    let user = UserInfo::from_rows(rows).expect("rows give a user");
    assert_eq!(user.id, 7);
    assert_eq!(user.email, "u7@example.com");
    let orgs: Vec<Option<i64>> = user.orgs.iter().map(|o| o.id).collect();
    assert_eq!(orgs, vec![Some(1), Some(2)]);
    let linodes: Vec<Option<i64>> = user.linodes.iter().map(|l| l.id).collect();
    assert_eq!(linodes, vec![Some(100), Some(101)]);
    assert_eq!(user.linodes[1].org, Some(1));
}

#[test]
fn user_fold_does_not_deduplicate_devices() {
    let rows = vec![
        user_row(Some((1, "A")), Some((100, "d1", 1))),
        user_row(Some((1, "A")), Some((100, "d1", 1))),
    ];
    let user = UserInfo::from_rows(rows).expect("rows give a user");
    assert_eq!(user.orgs.len(), 1);
    assert_eq!(user.linodes.len(), 2);
}

#[test]
fn user_without_memberships() {
    let user = UserInfo::from_rows(vec![user_row(None, None)]).expect("one row gives a user");
    assert!(user.orgs.is_empty());
    assert!(user.linodes.is_empty());
}

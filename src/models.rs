use vstd::prelude::*;

verus! {

// ------------------------------------------
// ----------- Creating things --------------
// ------------------------------------------

/// An organization to be inserted.
pub struct NewOrg {
    pub name: String,
}

/// A user to be inserted.
pub struct NewUser {
    pub email: String,
}

/// A membership (user, organization) to be inserted.
pub struct NewUserOrg {
    pub user: i64,
    pub org: i64,
}

/// A device to be inserted, owned by organization `org`.
pub struct NewLinode {
    pub name: String,
    pub org: i64,
}

// ------------------------------------------
// ----------- Querying things --------------
// ------------------------------------------

/// A nullable text column, seen as characters.
pub open spec fn opt_text(o: Option<String>) -> Option<Seq<char>> {
    match o {
        Some(s) => Some(s@),
        None => None,
    }
}

/// What an aggregate holds of a related entity: its id and its label, both nullable.
pub struct Entry {
    pub id: Option<i64>,
    pub label: Option<Seq<char>>,
}

/// What a user aggregate holds of a visible device.
pub struct OwnedEntry {
    pub id: Option<i64>,
    pub label: Option<Seq<char>>,
    pub org: Option<i64>,
}

/// A user as listed inside an organization aggregate.
pub struct User {
    pub id: Option<i64>,
    pub email: Option<String>,
}

impl View for User {
    type V = Entry;

    open spec fn view(&self) -> Entry {
        Entry { id: self.id, label: opt_text(self.email) }
    }
}

/// A device as listed inside an organization aggregate.
pub struct Linode {
    pub id: Option<i64>,
    pub name: Option<String>,
}

impl View for Linode {
    type V = Entry;

    open spec fn view(&self) -> Entry {
        Entry { id: self.id, label: opt_text(self.name) }
    }
}

/// An organization as listed inside a user aggregate.
pub struct Org {
    pub id: Option<i64>,
    pub name: Option<String>,
}

impl View for Org {
    type V = Entry;

    open spec fn view(&self) -> Entry {
        Entry { id: self.id, label: opt_text(self.name) }
    }
}

/// A device visible to a user, with its owning organization.
pub struct UserLinode {
    pub id: Option<i64>,
    pub name: Option<String>,
    pub org: Option<i64>,
}

impl View for UserLinode {
    type V = OwnedEntry;

    open spec fn view(&self) -> OwnedEntry {
        OwnedEntry { id: self.id, label: opt_text(self.name), org: self.org }
    }
}

pub open spec fn users_view(s: Seq<User>) -> Seq<Entry> {
    s.map_values(|u: User| u@)
}

pub open spec fn linodes_view(s: Seq<Linode>) -> Seq<Entry> {
    s.map_values(|l: Linode| l@)
}

pub open spec fn orgs_view(s: Seq<Org>) -> Seq<Entry> {
    s.map_values(|o: Org| o@)
}

pub open spec fn user_linodes_view(s: Seq<UserLinode>) -> Seq<OwnedEntry> {
    s.map_values(|l: UserLinode| l@)
}

/// Whether some entry of `s` carries the id `id`.
pub open spec fn has_id(s: Seq<Entry>, id: Option<i64>) -> bool {
    exists|i: int| 0 <= i < s.len() && (#[trigger] s[i]).id == id
}

/// The one-element list of `e` when it is present (non-null id), else the empty list.
pub open spec fn seeded(e: Entry) -> Seq<Entry> {
    if e.id is Some {
        seq![e]
    } else {
        seq![]
    }
}

/// `s` with `e` appended when `e` is present and its id is not yet in `s`.
pub open spec fn with_distinct(s: Seq<Entry>, e: Entry) -> Seq<Entry> {
    if e.id is Some && !has_id(s, e.id) {
        s.push(e)
    } else {
        s
    }
}

/// Whether `users` already lists a user with id `id`.
fn has_user_id(users: &Vec<User>, id: i64) -> (r: bool)
    ensures
        r == has_id(users_view(users@), Some(id)),
{
    let mut i: usize = 0;
    while i < users.len()
        invariant
            0 <= i <= users.len(),
            forall|j: int| 0 <= j < i ==> users@[j].id != Some(id),
        decreases users.len() - i,
    {
        match users[i].id {
            Some(x) => {
                if x == id {
                    assert(users_view(users@)[i as int].id == Some(id));
                    return true;
                }
            },
            None => {},
        }
        i = i + 1;
    }
    assert(!has_id(users_view(users@), Some(id))) by {
        assert forall|j: int| 0 <= j < users_view(users@).len() implies
            (#[trigger] users_view(users@)[j]).id != Some(id) by {
            assert(users_view(users@)[j] == users@[j]@);
        }
    }
    false
}

/// Whether `linodes` already lists a device with id `id`.
fn has_linode_id(linodes: &Vec<Linode>, id: i64) -> (r: bool)
    ensures
        r == has_id(linodes_view(linodes@), Some(id)),
{
    let mut i: usize = 0;
    while i < linodes.len()
        invariant
            0 <= i <= linodes.len(),
            forall|j: int| 0 <= j < i ==> linodes@[j].id != Some(id),
        decreases linodes.len() - i,
    {
        match linodes[i].id {
            Some(x) => {
                if x == id {
                    assert(linodes_view(linodes@)[i as int].id == Some(id));
                    return true;
                }
            },
            None => {},
        }
        i = i + 1;
    }
    assert(!has_id(linodes_view(linodes@), Some(id))) by {
        assert forall|j: int| 0 <= j < linodes_view(linodes@).len() implies
            (#[trigger] linodes_view(linodes@)[j]).id != Some(id) by {
            assert(linodes_view(linodes@)[j] == linodes@[j]@);
        }
    }
    false
}

/// Whether `orgs` already lists an organization with id `id`.
fn has_org_id(orgs: &Vec<Org>, id: i64) -> (r: bool)
    ensures
        r == has_id(orgs_view(orgs@), Some(id)),
{
    let mut i: usize = 0;
    while i < orgs.len()
        invariant
            0 <= i <= orgs.len(),
            forall|j: int| 0 <= j < i ==> orgs@[j].id != Some(id),
        decreases orgs.len() - i,
    {
        match orgs[i].id {
            Some(x) => {
                if x == id {
                    assert(orgs_view(orgs@)[i as int].id == Some(id));
                    return true;
                }
            },
            None => {},
        }
        i = i + 1;
    }
    assert(!has_id(orgs_view(orgs@), Some(id))) by {
        assert forall|j: int| 0 <= j < orgs_view(orgs@).len() implies
            (#[trigger] orgs_view(orgs@)[j]).id != Some(id) by {
            assert(orgs_view(orgs@)[j] == orgs@[j]@);
        }
    }
    false
}


/// The join that yields one `OrgRow` per (organization, member, device)
/// combination, ordered so that the rows of an organization are contiguous,
/// as the organization fold requires.
pub const ORG_ROWS_QUERY: &'static str = "select org.id, org.name, user.id, user.email, linode.id, linode.name \
    from org \
    left outer join user_org on org.id=user_org.org \
    left outer join user on user_org.user=user.id \
    left outer join linode on user_org.org=linode.org \
    order by org.id, user.id, linode.id";

/// One row of the organization join, ordered by (organization, user, device):
/// the user and device columns are null where the outer joins found nothing.
pub struct OrgRow {
    pub org_id: i64,
    pub org_name: String,
    pub user_id: Option<i64>,
    pub user_email: Option<String>,
    pub linode_id: Option<i64>,
    pub linode_name: Option<String>,
}

pub open spec fn org_row_user(row: OrgRow) -> Entry {
    Entry { id: row.user_id, label: opt_text(row.user_email) }
}

pub open spec fn org_row_linode(row: OrgRow) -> Entry {
    Entry { id: row.linode_id, label: opt_text(row.linode_name) }
}

/// An organization with its member users and owned devices.
pub struct OrgView {
    pub id: i64,
    pub name: Seq<char>,
    pub users: Seq<Entry>,
    pub linodes: Seq<Entry>,
}

/// An organization aggregate: the organization, its distinct members and its
/// distinct devices, each list in first-seen order.
pub struct OrgInfo {
    pub id: i64,
    pub name: String,
    pub users: Vec<User>,
    pub linodes: Vec<Linode>,
}

impl View for OrgInfo {
    type V = OrgView;

    open spec fn view(&self) -> OrgView {
        OrgView {
            id: self.id,
            name: self.name@,
            users: users_view(self.users@),
            linodes: linodes_view(self.linodes@),
        }
    }
}

pub open spec fn org_infos_view(s: Seq<OrgInfo>) -> Seq<OrgView> {
    s.map_values(|o: OrgInfo| o@)
}

/// The aggregate that a row opens: its organization, with the row's user and
/// device where present.
pub open spec fn org_seed(row: OrgRow) -> OrgView {
    OrgView {
        id: row.org_id,
        name: row.org_name@,
        users: seeded(org_row_user(row)),
        linodes: seeded(org_row_linode(row)),
    }
}

/// One step of the organization fold: a row opens a new aggregate unless it
/// carries the id of the last one, into which it then merges its user and
/// device, skipping ids that are already listed.
pub open spec fn org_step(orgs: Seq<OrgView>, row: OrgRow) -> Seq<OrgView> {
    if orgs.len() == 0 || orgs.last().id != row.org_id {
        orgs.push(org_seed(row))
    } else {
        let prev = orgs.last();
        orgs.update(
            orgs.len() - 1,
            OrgView {
                users: with_distinct(prev.users, org_row_user(row)),
                linodes: with_distinct(prev.linodes, org_row_linode(row)),
                ..prev
            },
        )
    }
}

/// The organization aggregates that the rows fold into, from left to right.
pub open spec fn fold_orgs(rows: Seq<OrgRow>) -> Seq<OrgView>
    decreases rows.len(),
{
    if rows.len() == 0 {
        seq![]
    } else {
        org_step(fold_orgs(rows.drop_last()), rows.last())
    }
}

impl OrgInfo {
    /// Opens a new aggregate for `row` at the end of `orgs`.
    fn add_row(orgs: &mut Vec<OrgInfo>, row: OrgRow)
        ensures
            org_infos_view(final(orgs)@) == org_infos_view(old(orgs)@).push(org_seed(row)),
    {
        let user = User { id: row.user_id, email: row.user_email };
        let linode = Linode { id: row.linode_id, name: row.linode_name };
        let mut users: Vec<User> = Vec::new();
        if user.id.is_some() {
            users.push(user);
        }
        let mut linodes: Vec<Linode> = Vec::new();
        if linode.id.is_some() {
            linodes.push(linode);
        }
        let org = OrgInfo { id: row.org_id, name: row.org_name, users, linodes };
        assert(users_view(org.users@) =~= seeded(org_row_user(row)));
        assert(linodes_view(org.linodes@) =~= seeded(org_row_linode(row)));
        orgs.push(org);
        assert(org_infos_view(orgs@) =~= org_infos_view(old(orgs)@).push(org_seed(row)));
    }

    /// Folds one more row into `orgs`.
    pub fn extract_row(orgs: &mut Vec<OrgInfo>, row: OrgRow)
        ensures
            org_infos_view(final(orgs)@) == org_step(org_infos_view(old(orgs)@), row),
    {
        let n = orgs.len();
        if n == 0 || orgs[n - 1].id != row.org_id {
            Self::add_row(orgs, row);
            return;
        }
        let ghost before = org_infos_view(orgs@);
        let mut prev = match orgs.pop() {
            Some(p) => p,
            None => {
                return;
            },
        };
        assert(orgs@ =~= old(orgs)@.drop_last());
        let ghost prev_users = users_view(prev.users@);
        let ghost prev_linodes = linodes_view(prev.linodes@);
        let user = User { id: row.user_id, email: row.user_email };
        match user.id {
            Some(uid) => {
                if !has_user_id(&prev.users, uid) {
                    prev.users.push(user);
                    assert(users_view(prev.users@) =~= prev_users.push(user@));
                }
            },
            None => {},
        }
        assert(users_view(prev.users@) == with_distinct(prev_users, org_row_user(row)));
        let linode = Linode { id: row.linode_id, name: row.linode_name };
        match linode.id {
            Some(lid) => {
                if !has_linode_id(&prev.linodes, lid) {
                    prev.linodes.push(linode);
                    assert(linodes_view(prev.linodes@) =~= prev_linodes.push(linode@));
                }
            },
            None => {},
        }
        assert(linodes_view(prev.linodes@) == with_distinct(prev_linodes, org_row_linode(row)));
        orgs.push(prev);
        assert(org_infos_view(orgs@) =~= org_step(before, row));
    }

    /// Folds join rows, ordered by (organization, user, device), into
    /// organization aggregates.
    pub fn from_rows(rows: Vec<OrgRow>) -> (orgs: Vec<OrgInfo>)
        ensures
            org_infos_view(orgs@) == fold_orgs(rows@),
    {
        let ghost all = rows@;
        let mut orgs: Vec<OrgInfo> = Vec::new();
        for row in it: rows.into_iter()
            invariant
                it.seq() == all,
                org_infos_view(orgs@) == fold_orgs(all.subrange(0, it.index() as int)),
        {
            assert(all.subrange(0, it.index() + 1).drop_last() =~= all.subrange(0, it.index() as int));
            Self::extract_row(&mut orgs, row);
        }
        assert(all.subrange(0, all.len() as int) =~= all);
        orgs
    }
}

/// The join that yields one `UserRow` per (organization, device) combination
/// of the user whose id is the parameter, ordered by organization and device.
pub const USER_ROWS_QUERY: &'static str = "select user.id, user.email, org.id, org.name, linode.id, linode.name, linode.org \
    from user \
    left outer join user_org on user_org.user=user.id \
    left outer join org on user_org.org=org.id \
    left outer join linode on user_org.org=linode.org \
    where user.id = ? \
    order by user.id, org.id, linode.id";

/// One row of the user join, for a single user, ordered by (user, organization,
/// device): the organization and device columns are null where the outer
/// joins found nothing.
pub struct UserRow {
    pub user_id: i64,
    pub user_email: String,
    pub org_id: Option<i64>,
    pub org_name: Option<String>,
    pub linode_id: Option<i64>,
    pub linode_name: Option<String>,
    pub linode_org: Option<i64>,
}

pub open spec fn user_row_org(row: UserRow) -> Entry {
    Entry { id: row.org_id, label: opt_text(row.org_name) }
}

pub open spec fn user_row_linode(row: UserRow) -> OwnedEntry {
    OwnedEntry { id: row.linode_id, label: opt_text(row.linode_name), org: row.linode_org }
}

/// A user with the organizations it belongs to and the devices those own.
pub struct UserView {
    pub id: i64,
    pub email: Seq<char>,
    pub orgs: Seq<Entry>,
    pub linodes: Seq<OwnedEntry>,
}

/// A user aggregate: the user, its distinct organizations, and every device
/// row seen for those organizations (devices are not de-duplicated).
pub struct UserInfo {
    pub id: i64,
    pub email: String,
    pub orgs: Vec<Org>,
    pub linodes: Vec<UserLinode>,
}

impl View for UserInfo {
    type V = UserView;

    open spec fn view(&self) -> UserView {
        UserView {
            id: self.id,
            email: self.email@,
            orgs: orgs_view(self.orgs@),
            linodes: user_linodes_view(self.linodes@),
        }
    }
}

pub open spec fn opt_user_view(u: Option<UserInfo>) -> Option<UserView> {
    match u {
        Some(v) => Some(v@),
        None => None,
    }
}

/// `s` with `e` appended when `e` is present (non-null id).
pub open spec fn with_present(s: Seq<OwnedEntry>, e: OwnedEntry) -> Seq<OwnedEntry> {
    if e.id is Some {
        s.push(e)
    } else {
        s
    }
}

/// The aggregate that the first row of a user opens.
pub open spec fn user_seed(row: UserRow) -> UserView {
    UserView {
        id: row.user_id,
        email: row.user_email@,
        orgs: seeded(user_row_org(row)),
        linodes: with_present(seq![], user_row_linode(row)),
    }
}

/// One step of the user fold: the first row opens the aggregate; each later
/// row adds its organization unless already listed, and its device whenever
/// present.
pub open spec fn user_step(user: Option<UserView>, row: UserRow) -> Option<UserView> {
    match user {
        None => Some(user_seed(row)),
        Some(v) => Some(
            UserView {
                orgs: with_distinct(v.orgs, user_row_org(row)),
                linodes: with_present(v.linodes, user_row_linode(row)),
                ..v
            },
        ),
    }
}

/// The user aggregate that the rows fold into, from left to right.
pub open spec fn fold_user(rows: Seq<UserRow>) -> Option<UserView>
    decreases rows.len(),
{
    if rows.len() == 0 {
        None
    } else {
        user_step(fold_user(rows.drop_last()), rows.last())
    }
}

impl UserInfo {
    /// Folds one more row into `user`.
    pub fn extract_row(user: &mut Option<UserInfo>, row: UserRow)
        ensures
            opt_user_view(*final(user)) == user_step(opt_user_view(*old(user)), row),
    {
        let org = Org { id: row.org_id, name: row.org_name };
        let linode = UserLinode { id: row.linode_id, name: row.linode_name, org: row.linode_org };
        match user {
            None => {
                let mut orgs: Vec<Org> = Vec::new();
                if org.id.is_some() {
                    orgs.push(org);
                }
                let mut linodes: Vec<UserLinode> = Vec::new();
                if linode.id.is_some() {
                    linodes.push(linode);
                }
                let info = UserInfo { id: row.user_id, email: row.user_email, orgs, linodes };
                assert(orgs_view(info.orgs@) =~= seeded(user_row_org(row)));
                assert(user_linodes_view(info.linodes@) =~= with_present(
                    seq![],
                    user_row_linode(row),
                ));
                *user = Some(info);
            },
            Some(u) => {
                let ghost prev_orgs = orgs_view(u.orgs@);
                let ghost prev_linodes = user_linodes_view(u.linodes@);
                match org.id {
                    Some(oid) => {
                        if !has_org_id(&u.orgs, oid) {
                            u.orgs.push(org);
                            assert(orgs_view(u.orgs@) =~= prev_orgs.push(org@));
                        }
                    },
                    None => {},
                }
                assert(orgs_view(u.orgs@) == with_distinct(prev_orgs, user_row_org(row)));
                if linode.id.is_some() {
                    u.linodes.push(linode);
                    assert(user_linodes_view(u.linodes@) =~= prev_linodes.push(linode@));
                }
                assert(user_linodes_view(u.linodes@) == with_present(
                    prev_linodes,
                    user_row_linode(row),
                ));
            },
        }
    }

    /// Folds the join rows of one user, ordered by (user, organization,
    /// device), into that user's aggregate; `None` when there are no rows.
    pub fn from_rows(rows: Vec<UserRow>) -> (user: Option<UserInfo>)
        ensures
            opt_user_view(user) == fold_user(rows@),
    {
        let ghost all = rows@;
        let mut user: Option<UserInfo> = None;
        for row in it: rows.into_iter()
            invariant
                it.seq() == all,
                opt_user_view(user) == fold_user(all.subrange(0, it.index() as int)),
        {
            assert(all.subrange(0, it.index() + 1).drop_last() =~= all.subrange(0, it.index() as int));
            Self::extract_row(&mut user, row);
        }
        assert(all.subrange(0, all.len() as int) =~= all);
        user
    }
}

// ------------------------------------------
// ----------- Laws of the folds ------------
// ------------------------------------------

/// Every entry of `s` is present, and no two carry the same id.
pub open spec fn distinct_present(s: Seq<Entry>) -> bool {
    &&& forall|i: int| 0 <= i < s.len() ==> (#[trigger] s[i]).id is Some
    &&& forall|i: int, j: int| 0 <= i < j < s.len() ==> (#[trigger] s[i]).id != (#[trigger] s[j]).id
}

/// Every aggregate lists distinct, present users and devices.
pub open spec fn aggregates_distinct(orgs: Seq<OrgView>) -> bool {
    forall|k: int|
        0 <= k < orgs.len() ==> distinct_present((#[trigger] orgs[k]).users) && distinct_present(
            orgs[k].linodes,
        )
}

proof fn lemma_seeded_distinct(e: Entry)
    ensures
        distinct_present(seeded(e)),
{
}

proof fn lemma_with_distinct_keeps(s: Seq<Entry>, e: Entry)
    requires
        distinct_present(s),
    ensures
        distinct_present(with_distinct(s, e)),
{
    if e.id is Some && !has_id(s, e.id) {
        let t = s.push(e);
        assert forall|i: int, j: int| 0 <= i < j < t.len() implies (#[trigger] t[i]).id
            != (#[trigger] t[j]).id by {
            if j == s.len() {
                assert(s[i].id != e.id);
            }
        }
    }
}

/// However the rows are ordered, every organization aggregate lists each
/// member and each device at most once, and never a null one.
pub proof fn lemma_fold_orgs_distinct(rows: Seq<OrgRow>)
    ensures
        aggregates_distinct(fold_orgs(rows)),
    decreases rows.len(),
{
    if rows.len() > 0 {
        let prev = fold_orgs(rows.drop_last());
        let row = rows.last();
        lemma_fold_orgs_distinct(rows.drop_last());
        let next = fold_orgs(rows);
        lemma_seeded_distinct(org_row_user(row));
        lemma_seeded_distinct(org_row_linode(row));
        if prev.len() > 0 && prev.last().id == row.org_id {
            lemma_with_distinct_keeps(prev.last().users, org_row_user(row));
            lemma_with_distinct_keeps(prev.last().linodes, org_row_linode(row));
        }
        assert forall|k: int| 0 <= k < next.len() implies distinct_present(
            (#[trigger] next[k]).users,
        ) && distinct_present(next[k].linodes) by {
            if k < prev.len() - 1 {
                assert(next[k] == prev[k]);
            }
        }
    }
}

/// Whether the rows' organization ids never decrease.
pub open spec fn ordered_by_org(rows: Seq<OrgRow>) -> bool {
    forall|i: int, j: int| 0 <= i < j < rows.len() ==> (#[trigger] rows[i]).org_id <= (#[trigger] rows[j]).org_id
}

/// Whether the aggregates' ids strictly increase.
pub open spec fn ids_increasing(orgs: Seq<OrgView>) -> bool {
    forall|i: int, j: int| 0 <= i < j < orgs.len() ==> (#[trigger] orgs[i]).id < (#[trigger] orgs[j]).id
}

/// Rows ordered by organization id fold into one aggregate per organization:
/// the aggregates' ids strictly increase, and the last is that of the last row.
pub proof fn lemma_fold_orgs_ordered(rows: Seq<OrgRow>)
    requires
        ordered_by_org(rows),
    ensures
        ids_increasing(fold_orgs(rows)),
        rows.len() > 0 ==> fold_orgs(rows).len() > 0 && fold_orgs(rows).last().id
            == rows.last().org_id,
    decreases rows.len(),
{
    if rows.len() > 0 {
        let front = rows.drop_last();
        assert(ordered_by_org(front)) by {
            assert forall|i: int, j: int| 0 <= i < j < front.len() implies (#[trigger] front[i]).org_id
                <= (#[trigger] front[j]).org_id by {
                assert(front[i] == rows[i] && front[j] == rows[j]);
            }
        }
        lemma_fold_orgs_ordered(front);
        let prev = fold_orgs(front);
        let next = fold_orgs(rows);
        if front.len() > 0 {
            assert(front.last() == rows[rows.len() - 2]);
        }
        assert forall|i: int, j: int| 0 <= i < j < next.len() implies (#[trigger] next[i]).id
            < (#[trigger] next[j]).id by {
            if j < prev.len() - 1 || (j == prev.len() - 1 && next.len() == prev.len()) {
                assert(next[i].id == prev[i].id);
                assert(next[j].id == prev[j].id);
            } else if j == prev.len() - 1 {
                assert(next[i] == prev[i]);
            } else {
                assert(next[i] == prev[i]);
                assert(prev[i].id <= prev.last().id);
            }
        }
    }
}

/// An organization with no members and no devices comes out of the join as
/// one row with null user and device columns, and folds into exactly one
/// aggregate with its id and name and empty lists.
pub proof fn lemma_lone_org_round_trip(row: OrgRow)
    requires
        row.user_id is None,
        row.linode_id is None,
    ensures
        fold_orgs(seq![row]) == seq![
            OrgView { id: row.org_id, name: row.org_name@, users: seq![], linodes: seq![] },
        ],
{
    assert(seq![row].drop_last() =~= Seq::<OrgRow>::empty());
    assert(fold_orgs(Seq::<OrgRow>::empty()) == Seq::<OrgView>::empty());
    assert(seeded(org_row_user(row)) == Seq::<Entry>::empty());
    assert(seeded(org_row_linode(row)) == Seq::<Entry>::empty());
    assert(fold_orgs(seq![row]) == Seq::<OrgView>::empty().push(org_seed(row)));
    assert(fold_orgs(seq![row]) =~= seq![
        OrgView { id: row.org_id, name: row.org_name@, users: seq![], linodes: seq![] },
    ]);
}

/// The fold relies on the rows of an organization being contiguous: rows of
/// one organization split by a row of another fold into two separate
/// aggregates for the same id, one on each side.
pub proof fn lemma_split_rows_split_aggregates(r1: OrgRow, r2: OrgRow, r3: OrgRow)
    requires
        r1.org_id == r3.org_id,
        r1.org_id != r2.org_id,
    ensures
        fold_orgs(seq![r1, r2, r3]).len() == 3,
        fold_orgs(seq![r1, r2, r3])[0] == org_seed(r1),
        fold_orgs(seq![r1, r2, r3])[1] == org_seed(r2),
        fold_orgs(seq![r1, r2, r3])[2] == org_seed(r3),
{
    let rows = seq![r1, r2, r3];
    assert(rows.drop_last() =~= seq![r1, r2]);
    assert(seq![r1, r2].drop_last() =~= seq![r1]);
    assert(seq![r1].drop_last() =~= Seq::<OrgRow>::empty());
    assert(fold_orgs(Seq::<OrgRow>::empty()) == Seq::<OrgView>::empty());
    assert(fold_orgs(seq![r1]) =~= seq![org_seed(r1)]);
    assert(fold_orgs(seq![r1, r2]) =~= seq![org_seed(r1), org_seed(r2)]);
    assert(fold_orgs(rows) =~= seq![org_seed(r1), org_seed(r2), org_seed(r3)]);
}

} // verus!

use vstd::prelude::*;
use crate::errors::ErrorKind;
use crate::models::{NewLinode, NewOrg, NewUser, NewUserOrg, UserInfo};

verus! {

/// `prefix` followed by `rest`.
fn joined(prefix: &str, rest: &str) -> (r: String)
    ensures
        r@ == prefix@ + rest@,
{
    let mut s = String::from_str(prefix);
    s.append(rest);
    s
}

/// The failure for a request body that does not decode.
pub fn invalid_post_data() -> (e: ErrorKind)
    ensures
        e matches ErrorKind::BadRequest(m) && m@ == "Invalid post data"@,
{
    ErrorKind::BadRequest(String::from_str("Invalid post data"))
}

/// The failure for a request that no route or static asset answers.
pub fn nothing_here() -> (e: ErrorKind)
    ensures
        e matches ErrorKind::DoesNotExist(m) && m@ == "nothing here"@,
{
    ErrorKind::DoesNotExist(String::from_str("nothing here"))
}

/// The answer to a user lookup: the aggregate, or "does not exist" when the
/// user was not found.
pub fn found_user(user: Option<UserInfo>) -> (r: Result<UserInfo, ErrorKind>)
    ensures
        user is Some ==> r == Ok::<UserInfo, ErrorKind>(user->0),
        user is None ==> (r matches Err(ErrorKind::DoesNotExist(m)) && m@ == "No user found"@),
{
    match user {
        Some(u) => Ok(u),
        None => Err(ErrorKind::DoesNotExist(String::from_str("No user found"))),
    }
}

/// Decides an organization creation, given whether the name is already taken.
pub fn check_new_org(name: String, exists: bool) -> (r: Result<NewOrg, ErrorKind>)
    ensures
        !exists ==> (r matches Ok(o) && o.name@ == name@),
        exists ==> (r matches Err(ErrorKind::BadRequest(m)) && m@ == "Org already exists, "@
            + name@),
{
    if exists {
        Err(ErrorKind::BadRequest(joined("Org already exists, ", name.as_str())))
    } else {
        Ok(NewOrg { name })
    }
}

/// Decides a device creation, given whether the name is already taken.
pub fn check_new_linode(name: String, org_id: i64, exists: bool) -> (r: Result<NewLinode, ErrorKind>)
    ensures
        !exists ==> (r matches Ok(l) && l.name@ == name@ && l.org == org_id),
        exists ==> (r matches Err(ErrorKind::BadRequest(m)) && m@ == "Linode already exists, "@
            + name@),
{
    if exists {
        Err(ErrorKind::BadRequest(joined("Linode already exists, ", name.as_str())))
    } else {
        Ok(NewLinode { name, org: org_id })
    }
}

/// What the store reports back to a user creation.
pub enum StoreEvent {
    /// The answer to an existence check.
    Exists(bool),
    /// The id of a row just inserted.
    Inserted(i64),
    /// The transaction was committed.
    Committed,
    /// The store failed.
    Failed(ErrorKind),
}

/// What a user creation asks of the store next. All of it runs in one
/// transaction, which is rolled back unless `Commit` was asked and reported done.
pub enum UserStep {
    /// Check whether a user with this email exists.
    CheckExists(String),
    /// Insert the user.
    InsertUser(NewUser),
    /// Insert one membership.
    InsertMembership(NewUserOrg),
    /// Commit the transaction.
    Commit,
    /// Answer the request; an uncommitted transaction is rolled back.
    Finish(Result<i64, ErrorKind>),
}

/// Where a user creation stands.
pub enum Phase {
    /// Waiting for the answer to the existence check.
    Checking,
    /// Waiting for the id of the inserted user.
    InsertingUser,
    /// The user `user` is inserted, and the memberships for the first `done`
    /// organization ids.
    Linking { user: i64, done: usize },
    /// Waiting for the commit of the transaction that inserted `user`.
    Committing { user: i64 },
    /// The request is answered.
    Done,
}

/// The creation of a user and of its memberships, in one transaction.
pub struct CreateUser {
    pub email: String,
    pub org_ids: Vec<i64>,
    pub phase: Phase,
}

/// The shape of the next step, and the phase it leads to.
pub enum Next {
    /// Insert the user.
    InsertUser,
    /// Insert the membership of `user` in `org`.
    Link { user: i64, org: i64 },
    /// Commit the transaction.
    Commit,
    /// Answer with the id of the new user.
    Succeed(i64),
    /// Refuse: the email is taken.
    Duplicate,
    /// Answer with the store's failure.
    PassFailure,
    /// Answer with an internal failure: the event does not fit the phase.
    Unexpected,
}

/// The step that a user creation takes on an event.
pub open spec fn user_next(phase: Phase, ev: StoreEvent, org_ids: Seq<i64>) -> (Next, Phase) {
    match ev {
        StoreEvent::Failed(_) => (Next::PassFailure, Phase::Done),
        StoreEvent::Exists(true) => match phase {
            Phase::Checking => (Next::Duplicate, Phase::Done),
            _ => (Next::Unexpected, Phase::Done),
        },
        StoreEvent::Exists(false) => match phase {
            Phase::Checking => (Next::InsertUser, Phase::InsertingUser),
            _ => (Next::Unexpected, Phase::Done),
        },
        StoreEvent::Inserted(id) => match phase {
            Phase::InsertingUser => if org_ids.len() == 0 {
                (Next::Commit, Phase::Committing { user: id })
            } else {
                (Next::Link { user: id, org: org_ids[0] }, Phase::Linking { user: id, done: 1 })
            },
            Phase::Linking { user, done } => if done >= org_ids.len() {
                (Next::Commit, Phase::Committing { user })
            } else {
                (
                    Next::Link { user, org: org_ids[done as int] },
                    Phase::Linking { user, done: (done + 1) as usize },
                )
            },
            _ => (Next::Unexpected, Phase::Done),
        },
        StoreEvent::Committed => match phase {
            Phase::Committing { user } => (Next::Succeed(user), Phase::Done),
            _ => (Next::Unexpected, Phase::Done),
        },
    }
}

/// Whether `step` is the step of shape `next`, for a user with email `email`
/// and the event `ev`.
pub open spec fn step_is(step: UserStep, next: Next, email: Seq<char>, ev: StoreEvent) -> bool {
    match next {
        Next::InsertUser => step matches UserStep::InsertUser(u) && u.email@ == email,
        Next::Link { user, org } => step matches UserStep::InsertMembership(m) && m.user == user
            && m.org == org,
        Next::Commit => step is Commit,
        Next::Succeed(id) => step == UserStep::Finish(Ok(id)),
        Next::Duplicate => step matches UserStep::Finish(Err(ErrorKind::BadRequest(m))) && m@
            == "User already exists, "@ + email,
        Next::PassFailure => ev matches StoreEvent::Failed(e) && step == UserStep::Finish(Err(e)),
        Next::Unexpected => step matches UserStep::Finish(Err(ErrorKind::Internal(_))),
    }
}

impl CreateUser {
    /// Whether the phase is consistent with the organization ids.
    pub open spec fn wf(&self) -> bool {
        match self.phase {
            Phase::Linking { done, .. } => 1 <= done <= self.org_ids@.len(),
            _ => true,
        }
    }

    /// A user creation for `email` with memberships in `org_ids`.
    pub fn new(email: String, org_ids: Vec<i64>) -> (s: CreateUser)
        ensures
            s.email@ == email@,
            s.org_ids@ == org_ids@,
            s.phase is Checking,
            s.wf(),
    {
        CreateUser { email, org_ids, phase: Phase::Checking }
    }

    /// The first step: check whether the email is taken.
    pub fn begin(&self) -> (step: UserStep)
        ensures
            step matches UserStep::CheckExists(e) && e@ == self.email@,
    {
        UserStep::CheckExists(self.email.clone())
    }

    /// The step that follows `ev`.
    pub fn on_event(&mut self, ev: StoreEvent) -> (step: UserStep)
        requires
            old(self).wf(),
        ensures
            final(self).wf(),
            final(self).email@ == old(self).email@,
            final(self).org_ids@ == old(self).org_ids@,
            final(self).phase == user_next(old(self).phase, ev, old(self).org_ids@).1,
            step_is(step, user_next(old(self).phase, ev, old(self).org_ids@).0, old(self).email@, ev),
    {
        let n = self.org_ids.len();
        match ev {
            StoreEvent::Failed(e) => {
                self.phase = Phase::Done;
                UserStep::Finish(Err(e))
            },
            StoreEvent::Exists(taken) => {
                match self.phase {
                    Phase::Checking => {
                        if taken {
                            self.phase = Phase::Done;
                            let m = joined("User already exists, ", self.email.as_str());
                            UserStep::Finish(Err(ErrorKind::BadRequest(m)))
                        } else {
                            self.phase = Phase::InsertingUser;
                            UserStep::InsertUser(NewUser { email: self.email.clone() })
                        }
                    },
                    _ => {
                        self.phase = Phase::Done;
                        UserStep::Finish(Err(Self::unexpected()))
                    },
                }
            },
            StoreEvent::Inserted(id) => {
                match self.phase {
                    Phase::InsertingUser => {
                        if n == 0 {
                            self.phase = Phase::Committing { user: id };
                            UserStep::Commit
                        } else {
                            self.phase = Phase::Linking { user: id, done: 1 };
                            UserStep::InsertMembership(NewUserOrg { user: id, org: self.org_ids[0] })
                        }
                    },
                    Phase::Linking { user, done } => {
                        if done >= n {
                            self.phase = Phase::Committing { user };
                            UserStep::Commit
                        } else {
                            let org = self.org_ids[done];
                            self.phase = Phase::Linking { user, done: done + 1 };
                            UserStep::InsertMembership(NewUserOrg { user, org })
                        }
                    },
                    _ => {
                        self.phase = Phase::Done;
                        UserStep::Finish(Err(Self::unexpected()))
                    },
                }
            },
            StoreEvent::Committed => {
                match self.phase {
                    Phase::Committing { user } => {
                        self.phase = Phase::Done;
                        UserStep::Finish(Ok(user))
                    },
                    _ => {
                        self.phase = Phase::Done;
                        UserStep::Finish(Err(Self::unexpected()))
                    },
                }
            },
        }
    }

    fn unexpected() -> (e: ErrorKind)
        ensures
            e is Internal,
    {
        ErrorKind::Internal(String::from_str("unexpected store event"))
    }
}

/// Once the store reports a failure, a user creation answers with that very
/// failure and is done: no commit is asked, so the transaction rolls back
/// every row it inserted.
pub proof fn lemma_failure_rolls_back(phase: Phase, e: ErrorKind, org_ids: Seq<i64>)
    ensures
        user_next(phase, StoreEvent::Failed(e), org_ids) == (Next::PassFailure, Phase::Done),
{
}

/// A finished user creation asks nothing more of the store: no insert and
/// no commit, whatever event comes.
pub proof fn lemma_done_is_final(ev: StoreEvent, org_ids: Seq<i64>)
    ensures
        user_next(Phase::Done, ev, org_ids).1 is Done,
        !(user_next(Phase::Done, ev, org_ids).0 is Commit),
        !(user_next(Phase::Done, ev, org_ids).0 is Link),
        !(user_next(Phase::Done, ev, org_ids).0 is InsertUser),
{
}

/// A commit is asked only right after the store reports an insert, and only
/// when the memberships of all organization ids have been inserted.
pub proof fn lemma_commit_after_all_memberships(phase: Phase, ev: StoreEvent, org_ids: Seq<i64>)
    requires
        phase matches Phase::Linking { done, .. } ==> 1 <= done <= org_ids.len(),
    ensures
        user_next(phase, ev, org_ids).0 is Commit ==> ev is Inserted && ((phase is InsertingUser
            && org_ids.len() == 0) || (phase matches Phase::Linking { done, .. } && done
            == org_ids.len())),
{
}

/// Memberships are inserted in the order of the organization ids, each for the
/// user just inserted.
pub proof fn lemma_memberships_in_order(phase: Phase, id: i64, org_ids: Seq<i64>)
    requires
        phase matches Phase::Linking { done, .. } ==> 1 <= done <= org_ids.len(),
    ensures
        phase is InsertingUser && org_ids.len() > 0 ==> user_next(phase, StoreEvent::Inserted(id), org_ids).0
            == (Next::Link { user: id, org: org_ids[0] }),
        phase matches Phase::Linking { user, done } ==> (done < org_ids.len() ==> user_next(
            phase,
            StoreEvent::Inserted(id),
            org_ids,
        ).0 == (Next::Link { user, org: org_ids[done as int] })),
{
}

} // verus!

//! The users. There is one: the account that the first registration makes.

use vstd::prelude::*;

verus! {

/// A user, with the hash of the password. The time of creation counts microseconds.
#[derive(Debug)]
pub struct User {
    pub id: i32,
    pub username: String,
    pub password: String,
    pub email: String,
    pub created_at: i64,
}

/// The lock under which the first user is made.
pub const BOOTSTRAP_LOCK_ID: i64 = 0x7275_6e67_735f_7573;

/// A user who is to be stored, with the hash of the password.
#[derive(Debug)]
pub struct NewUser {
    pub username: String,
    pub password: String,
    pub email: String,
}

/// Whether this is the row of a user.
pub open spec fn stored_as(
    username: Seq<char>,
    password_hash: Seq<char>,
    email: Seq<char>,
    r: NewUser,
) -> bool {
    r.username@ == username && r.password@ == password_hash && r.email@ == email
}

/// The row of a user.
pub fn create(username: &str, password_hash: &str, email: &str) -> (r: NewUser)
    ensures
        stored_as(username@, password_hash@, email@, r),
{
    NewUser {
        username: username.to_owned(),
        password: password_hash.to_owned(),
        email: email.to_owned(),
    }
}

/// Whether the first user may be stored, by the number of users that there are.
pub open spec fn is_first(count: int) -> bool {
    count <= 0
}

/// The row of the first user, by the number of users that there are when the lock is held;
/// none if there is a user.
pub fn create_first(count: i64, username: &str, password_hash: &str, email: &str) -> (r: Option<
    NewUser,
>)
    ensures
        match r {
            Some(new) => is_first(count as int) && stored_as(
                username@,
                password_hash@,
                email@,
                new,
            ),
            None => !is_first(count as int),
        },
{
    if count > 0 {
        None
    } else {
        Some(create(username, password_hash, email))
    }
}

/// The users after some calls to store the first one. `turns` names the calls in the order in
/// which they get the lock; each of them counts and stores while it holds it.
pub open spec fn users_after(
    users: Seq<NewUser>,
    calls: Seq<NewUser>,
    turns: Seq<int>,
) -> Seq<NewUser>
    decreases turns.len(),
{
    if turns.len() == 0 {
        users
    } else {
        let before = users_after(users, calls, turns.drop_last());
        if is_first(before.len() as int) {
            before.push(calls[turns.last()])
        } else {
            before
        }
    }
}

/// Whether the call that gets the lock at some turn stores its user.
pub open spec fn stores_first(
    users: Seq<NewUser>,
    calls: Seq<NewUser>,
    turns: Seq<int>,
    turn: int,
) -> bool {
    is_first(users_after(users, calls, turns.take(turn)).len() as int)
}

proof fn lemma_users_after(users: Seq<NewUser>, calls: Seq<NewUser>, turns: Seq<int>)
    ensures
        users.len() > 0 ==> users_after(users, calls, turns) == users,
        users.len() == 0 && turns.len() > 0 ==> users_after(users, calls, turns)
            == seq![calls[turns[0]]],
    decreases turns.len(),
{
    if turns.len() > 0 {
        lemma_users_after(users, calls, turns.drop_last());
        if turns.len() == 1 {
            assert(users_after(users, calls, turns.drop_last()) == users);
            if users.len() == 0 {
                assert(users.push(calls[turns[0]]) =~= seq![calls[turns[0]]]);
            }
        }
    }
}

/// Of any number of calls to store the first user, in whatever order they get the lock,
/// exactly one succeeds if there was no user, and its user is then the only one. If there was
/// a user all fail and the users stay as they are.
pub proof fn law_one_first_user(users: Seq<NewUser>, calls: Seq<NewUser>, turns: Seq<int>)
    requires
        calls.len() > 0,
        turns.len() == calls.len(),
        turns.no_duplicates(),
        forall|t: int| 0 <= t < turns.len() ==> 0 <= #[trigger] turns[t] < calls.len(),
    ensures
        users.len() == 0 ==> users_after(users, calls, turns) == seq![calls[turns[0]]] && forall|
            t: int,
        |
            0 <= t < turns.len() ==> (#[trigger] stores_first(users, calls, turns, t) <==> turns[t]
                == turns[0]),
        users.len() > 0 ==> users_after(users, calls, turns) == users && forall|t: int|
            0 <= t < turns.len() ==> !#[trigger] stores_first(users, calls, turns, t),
{
    lemma_users_after(users, calls, turns);
    assert forall|t: int| 0 <= t < turns.len() implies (#[trigger] stores_first(
        users,
        calls,
        turns,
        t,
    ) <==> users.len() == 0 && turns[t] == turns[0]) by {
        lemma_users_after(users, calls, turns.take(t));
        if t == 0 {
            assert(turns.take(0).len() == 0);
        } else {
            assert(turns.take(t)[0] == turns[0]);
            assert(turns[t] != turns[0]);
        }
    }
}

/// A user is stored only if there is none, with the name, the hash and the address that were
/// given.
pub proof fn law_first_users_are_stored_as_given(
    count: i64,
    username: &str,
    password_hash: &str,
    email: &str,
    r: Option<NewUser>,
)
    requires
        call_ensures(create_first, (count, username, password_hash, email), r),
    ensures
        r is Some <==> count <= 0,
        r matches Some(new) ==> new.username@ == username@ && new.password@ == password_hash@
            && new.email@ == email@,
{
}

} // verus!

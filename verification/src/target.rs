//! Who may act: users, the labels they carry, and the targets that name a
//! user directly or every user with a label.

use vstd::prelude::*;
use crate::text::{
    comes_before, lemma_text_order_total, lemma_text_order_transitive, text_before,
};
use crate::views::{lemma_view_each_push, view_each};

verus! {

/// A user of a project. Times are seconds since the Unix epoch.
#[derive(Debug, PartialEq)]
pub struct User {
    pub id: String,
    pub name: String,
    pub project_id: String,
    pub locale: String,
    pub created_at: i64,
    pub updated_at: i64,
}

/// What a `User` is to the contracts: texts and lists are sequences.
pub struct UserView {
    pub id: Seq<char>,
    pub name: Seq<char>,
    pub project_id: Seq<char>,
    pub locale: Seq<char>,
    pub created_at: i64,
    pub updated_at: i64,
}

impl View for User {
    type V = UserView;

    open spec fn view(&self) -> UserView {
        UserView {
            id: self.id@,
            name: self.name@,
            project_id: self.project_id@,
            locale: self.locale@,
            created_at: self.created_at,
            updated_at: self.updated_at,
        }
    }
}

impl Clone for User {
    fn clone(&self) -> (copy: Self)
        ensures
            copy == *self,
    {
        User {
            id: self.id.clone(),
            name: self.name.clone(),
            project_id: self.project_id.clone(),
            locale: self.locale.clone(),
            created_at: self.created_at,
            updated_at: self.updated_at,
        }
    }
}

/// A label that a user carries.
#[derive(Debug, PartialEq)]
pub struct UserLabel {
    pub user_id: String,
    pub label_id: i32,
    pub created_at: i64,
    pub updated_at: i64,
}

/// A label of a project: a key and a value. The label with the key `role`
/// and the id of a role as its value stands for that role.
#[derive(Debug, PartialEq)]
pub struct Label {
    pub id: i32,
    pub project_id: String,
    pub key: String,
    pub value: String,
    pub created_at: i64,
    pub updated_at: i64,
}

/// A role of a project; the users of a role carry the label that stands for it.
#[derive(Debug, PartialEq)]
pub struct Role {
    pub id: String,
    pub name_zh: String,
    pub project_id: String,
    pub login_message_zh: Option<String>,
    pub welcome_message_zh: Option<String>,
    pub created_at: i64,
    pub updated_at: i64,
    pub name_en: String,
    pub login_message_en: Option<String>,
    pub welcome_message_en: Option<String>,
}

/// A copy of a text that may be absent.
pub fn clone_optional_text(text: &Option<String>) -> (copy: Option<String>)
    ensures
        copy == *text,
{
    match text {
        Some(t) => Some(t.clone()),
        None => None,
    }
}

impl Clone for Role {
    fn clone(&self) -> (copy: Self)
        ensures
            copy == *self,
    {
        Role {
            id: self.id.clone(),
            name_zh: self.name_zh.clone(),
            project_id: self.project_id.clone(),
            login_message_zh: clone_optional_text(&self.login_message_zh),
            welcome_message_zh: clone_optional_text(&self.welcome_message_zh),
            created_at: self.created_at,
            updated_at: self.updated_at,
            name_en: self.name_en.clone(),
            login_message_en: clone_optional_text(&self.login_message_en),
            welcome_message_en: clone_optional_text(&self.welcome_message_en),
        }
    }
}

/// Names who may act: one user, every user with one label, or nobody.
#[derive(Debug, PartialEq)]
pub struct Target {
    pub id: i32,
    pub user_id: Option<String>,
    pub label_id: Option<i32>,
    pub created_at: i64,
    pub updated_at: i64,
}

impl Clone for Target {
    fn clone(&self) -> (copy: Self)
        ensures
            copy == *self,
    {
        Target {
            id: self.id,
            user_id: match &self.user_id {
                Some(id) => Some(id.clone()),
                None => None,
            },
            label_id: self.label_id,
            created_at: self.created_at,
            updated_at: self.updated_at,
        }
    }
}

/// Whether the target names the user `user_id` who carries the labels
/// `label_ids`: directly, or by one of the labels.
pub open spec fn target_names(target: Target, user_id: Seq<char>, label_ids: Seq<i32>) -> bool {
    ||| target.label_id matches Some(label) && label_ids.contains(label)
    ||| target.user_id matches Some(named) && named@ == user_id
}

/// Whether one of the targets names the user.
pub open spec fn targets_name(list: Seq<Target>, user_id: Seq<char>, label_ids: Seq<i32>) -> bool {
    exists|i: int| 0 <= i < list.len() && target_names(#[trigger] list[i], user_id, label_ids)
}

/// The labels that the user `user_id` carries, in the order of `user_labels`.
pub open spec fn labels_of(user_labels: Seq<UserLabel>, user_id: Seq<char>) -> Seq<i32>
    decreases user_labels.len(),
{
    if user_labels.len() == 0 {
        Seq::empty()
    } else {
        let before = labels_of(user_labels.drop_last(), user_id);
        if user_labels.last().user_id@ == user_id {
            before.push(user_labels.last().label_id)
        } else {
            before
        }
    }
}

/// The ids of the users in `users`.
pub open spec fn user_ids(users: Seq<UserView>) -> Seq<Seq<char>> {
    Seq::new(users.len(), |i: int| users[i].id)
}

/// The users among `users` that one of the targets names, directly or by a
/// label that `user_labels` gives them, in the order of `users`.
pub open spec fn named_users(
    users: Seq<UserView>,
    user_labels: Seq<UserLabel>,
    targets: Seq<Target>,
) -> Seq<UserView>
    decreases users.len(),
{
    if users.len() == 0 {
        Seq::empty()
    } else {
        let before = named_users(users.drop_last(), user_labels, targets);
        let user = users.last();
        if targets_name(targets, user.id, labels_of(user_labels, user.id)) {
            before.push(user)
        } else {
            before
        }
    }
}

/// A list of users in the order of their ids, with `user` put in at the
/// place of its id. A user whose id is in the list already is left out.
pub open spec fn insert_by_id(sorted: Seq<UserView>, user: UserView) -> Seq<UserView>
    decreases sorted.len(),
{
    if sorted.len() == 0 || text_before(sorted.last().id, user.id) {
        sorted.push(user)
    } else if sorted.last().id == user.id {
        sorted
    } else {
        insert_by_id(sorted.drop_last(), user).push(sorted.last())
    }
}

/// The users in the order of their ids, each id once: of several users
/// with the same id the first is kept.
pub open spec fn users_by_id(users: Seq<UserView>) -> Seq<UserView>
    decreases users.len(),
{
    if users.len() == 0 {
        Seq::empty()
    } else {
        insert_by_id(users_by_id(users.drop_last()), users.last())
    }
}

/// Whether the id of every user comes before the ids of all that follow.
pub open spec fn ascending_by_id(users: Seq<UserView>) -> bool {
    forall|i: int, j: int|
        0 <= i < j < users.len() ==> text_before((#[trigger] users[i]).id, (#[trigger] users[j]).id)
}

/// The first of the users with the id `id`.
pub open spec fn user_with_id(users: Seq<User>, id: Seq<char>) -> Option<User>
    decreases users.len(),
{
    if users.len() == 0 {
        None
    } else if users[0].id@ == id {
        Some(users[0])
    } else {
        user_with_id(users.drop_first(), id)
    }
}

/// The first of the roles with the id `id`.
pub open spec fn role_with_id(roles: Seq<Role>, id: Seq<char>) -> Option<Role>
    decreases roles.len(),
{
    if roles.len() == 0 {
        None
    } else if roles[0].id@ == id {
        Some(roles[0])
    } else {
        role_with_id(roles.drop_first(), id)
    }
}

/// The first of the targets with the id `id`.
pub open spec fn target_with_id(targets: Seq<Target>, id: i32) -> Option<Target>
    decreases targets.len(),
{
    if targets.len() == 0 {
        None
    } else if targets[0].id == id {
        Some(targets[0])
    } else {
        target_with_id(targets.drop_first(), id)
    }
}

/// The role that the label with the id `label_id` stands for: the first
/// label with this id must have the key `role`, and its value names the role.
pub open spec fn role_of_label(labels: Seq<Label>, roles: Seq<Role>, label_id: i32) -> Option<Role>
    decreases labels.len(),
{
    if labels.len() == 0 {
        None
    } else if labels[0].id == label_id {
        if labels[0].key@ == "role"@ {
            role_with_id(roles, labels[0].value@)
        } else {
            None
        }
    } else {
        role_of_label(labels.drop_first(), roles, label_id)
    }
}

/// The users that the targets name: each is one of the users given and is
/// named by a target, and every user given whom a target names is among
/// them.
pub proof fn lemma_named_users(
    users: Seq<UserView>,
    user_labels: Seq<UserLabel>,
    targets: Seq<Target>,
)
    ensures
        forall|i: int|
            0 <= i < named_users(users, user_labels, targets).len() ==> users.contains(
                #[trigger] named_users(users, user_labels, targets)[i],
            ) && targets_name(
                targets,
                named_users(users, user_labels, targets)[i].id,
                labels_of(user_labels, named_users(users, user_labels, targets)[i].id),
            ),
        forall|j: int|
            0 <= j < users.len() && targets_name(
                targets,
                (#[trigger] users[j]).id,
                labels_of(user_labels, users[j].id),
            ) ==> named_users(users, user_labels, targets).contains(users[j]),
    decreases users.len(),
{
    let named = named_users(users, user_labels, targets);
    if users.len() > 0 {
        let front = users.drop_last();
        lemma_named_users(front, user_labels, targets);
        let before = named_users(front, user_labels, targets);
        assert forall|i: int| 0 <= i < named.len() implies users.contains(#[trigger] named[i])
            && targets_name(targets, named[i].id, labels_of(user_labels, named[i].id)) by {
            if i < before.len() {
                assert(named[i] == before[i]);
                let k = choose|k: int| 0 <= k < front.len() && front[k] == before[i];
                assert(users[k] == before[i]);
            } else {
                assert(users[users.len() - 1] == named[i]);
            }
        }
        assert forall|j: int|
            0 <= j < users.len() && targets_name(
                targets,
                (#[trigger] users[j]).id,
                labels_of(user_labels, users[j].id),
            ) implies named.contains(users[j]) by {
            if j < front.len() {
                assert(front[j] == users[j]);
                let k = choose|k: int| 0 <= k < before.len() && before[k] == front[j];
                assert(named[k] == users[j]);
            } else {
                assert(named[named.len() - 1] == users[j]);
            }
        }
    }
}

/// Putting a user in behind the last user whose id the new id does not
/// come before is putting it in by id; where that user has the same id,
/// the list stays as it is.
pub proof fn lemma_insert_by_id(sorted: Seq<UserView>, user: UserView, at: int)
    requires
        0 <= at <= sorted.len(),
        forall|j: int| at <= j < sorted.len() ==> text_before(user.id, (#[trigger] sorted[j]).id),
        at > 0 ==> !text_before(user.id, sorted[at - 1].id),
    ensures
        insert_by_id(sorted, user) == if at > 0 && sorted[at - 1].id == user.id {
            sorted
        } else {
            sorted.insert(at, user)
        },
    decreases sorted.len(),
{
    if sorted.len() == 0 {
        assert(sorted.push(user) =~= sorted.insert(at, user));
    } else {
        let last = sorted.last();
        lemma_text_order_total(last.id, user.id);
        if at == sorted.len() {
            assert(sorted.push(user) =~= sorted.insert(at, user));
        } else {
            assert(text_before(user.id, sorted[sorted.len() - 1].id));
            let front = sorted.drop_last();
            assert forall|j: int| at <= j < front.len() implies text_before(
                user.id,
                (#[trigger] front[j]).id,
            ) by {
                assert(front[j] == sorted[j]);
            }
            if at > 0 {
                assert(front[at - 1] == sorted[at - 1]);
            }
            lemma_insert_by_id(front, user, at);
            assert(front.push(last) =~= sorted);
            assert(front.insert(at, user).push(last) =~= sorted.insert(at, user));
        }
    }
}

/// A list in the order of its ids stays in that order when a user is put
/// in: the result holds the user's id, what it holds is the user or was in
/// the list, and all that was in the list is still there.
pub proof fn lemma_insert_keeps_order(sorted: Seq<UserView>, user: UserView)
    requires
        ascending_by_id(sorted),
    ensures
        ascending_by_id(insert_by_id(sorted, user)),
        user_ids(insert_by_id(sorted, user)).contains(user.id),
        forall|k: int|
            0 <= k < insert_by_id(sorted, user).len() ==> (#[trigger] insert_by_id(sorted, user)[k])
                == user || sorted.contains(insert_by_id(sorted, user)[k]),
        forall|j: int|
            0 <= j < sorted.len() ==> insert_by_id(sorted, user).contains(#[trigger] sorted[j]),
    decreases sorted.len(),
{
    let all = insert_by_id(sorted, user);
    if sorted.len() == 0 || text_before(sorted.last().id, user.id) {
        assert forall|i: int, j: int| 0 <= i < j < all.len() implies text_before(
            (#[trigger] all[i]).id,
            (#[trigger] all[j]).id,
        ) by {
            if j == sorted.len() && i < sorted.len() - 1 {
                assert(text_before(sorted[i].id, sorted[sorted.len() - 1].id));
                lemma_text_order_transitive(sorted[i].id, sorted.last().id, user.id);
            }
        }
        assert(user_ids(all)[sorted.len() as int] == user.id);
        assert forall|k: int| 0 <= k < all.len() implies (#[trigger] all[k]) == user
            || sorted.contains(all[k]) by {
            if k < sorted.len() {
                assert(sorted[k] == all[k]);
            }
        }
        assert forall|j: int| 0 <= j < sorted.len() implies all.contains(#[trigger] sorted[j]) by {
            assert(all[j] == sorted[j]);
        }
    } else if sorted.last().id == user.id {
        assert(user_ids(all)[sorted.len() - 1] == user.id);
    } else {
        let front = sorted.drop_last();
        let last = sorted.last();
        assert(ascending_by_id(front)) by {
            assert forall|i: int, j: int| 0 <= i < j < front.len() implies text_before(
                (#[trigger] front[i]).id,
                (#[trigger] front[j]).id,
            ) by {
                assert(front[i] == sorted[i] && front[j] == sorted[j]);
            }
        }
        lemma_insert_keeps_order(front, user);
        lemma_text_order_total(last.id, user.id);
        let placed = insert_by_id(front, user);
        assert forall|i: int, j: int| 0 <= i < j < all.len() implies text_before(
            (#[trigger] all[i]).id,
            (#[trigger] all[j]).id,
        ) by {
            if j == placed.len() {
                assert(all[i] == placed[i]);
                if placed[i] != user {
                    let k = choose|k: int| 0 <= k < front.len() && front[k] == placed[i];
                    assert(sorted[k] == placed[i]);
                    assert(text_before(sorted[k].id, sorted[sorted.len() - 1].id));
                }
            } else {
                assert(all[i] == placed[i] && all[j] == placed[j]);
            }
        }
        let at = choose|at: int| 0 <= at < placed.len() && user_ids(placed)[at] == user.id;
        assert(user_ids(all)[at] == user.id);
        assert forall|k: int| 0 <= k < all.len() implies (#[trigger] all[k]) == user
            || sorted.contains(all[k]) by {
            if k < placed.len() {
                assert(all[k] == placed[k]);
                if placed[k] != user {
                    let m = choose|m: int| 0 <= m < front.len() && front[m] == placed[k];
                    assert(sorted[m] == placed[k]);
                }
            } else {
                assert(sorted[sorted.len() - 1] == all[k]);
            }
        }
        assert forall|j: int| 0 <= j < sorted.len() implies all.contains(#[trigger] sorted[j]) by {
            if j < front.len() {
                assert(front[j] == sorted[j]);
                let m = choose|m: int| 0 <= m < placed.len() && placed[m] == front[j];
                assert(all[m] == sorted[j]);
            } else {
                assert(all[placed.len() as int] == sorted[j]);
            }
        }
    }
}

/// Users in the order of their ids stand in ascending order, so that no id
/// comes twice; each of them is one of the users given, and the id of every
/// user given is among theirs.
pub proof fn lemma_users_by_id(users: Seq<UserView>)
    ensures
        ascending_by_id(users_by_id(users)),
        forall|k: int|
            0 <= k < users_by_id(users).len() ==> users.contains(#[trigger] users_by_id(users)[k]),
        forall|j: int|
            0 <= j < users.len() ==> user_ids(users_by_id(users)).contains((#[trigger] users[j]).id),
    decreases users.len(),
{
    let all = users_by_id(users);
    if users.len() > 0 {
        let front = users.drop_last();
        let last = users.last();
        lemma_users_by_id(front);
        let sorted = users_by_id(front);
        lemma_insert_keeps_order(sorted, last);
        assert forall|k: int| 0 <= k < all.len() implies users.contains(#[trigger] all[k]) by {
            if all[k] == last {
                assert(users[users.len() - 1] == last);
            } else {
                let m = choose|m: int| 0 <= m < sorted.len() && sorted[m] == all[k];
                let n = choose|n: int| 0 <= n < front.len() && front[n] == sorted[m];
                assert(users[n] == all[k]);
            }
        }
        assert forall|j: int| 0 <= j < users.len() implies user_ids(all).contains(
            (#[trigger] users[j]).id,
        ) by {
            if j < front.len() {
                assert(front[j] == users[j]);
                let m = choose|m: int| 0 <= m < sorted.len() && user_ids(sorted)[m] == users[j].id;
                let n = choose|n: int| 0 <= n < all.len() && all[n] == sorted[m];
                assert(user_ids(all)[n] == users[j].id);
            }
        }
    }
}

/// The users that the targets name, in the order of their ids: the ids
/// ascend, so that no user comes twice; each is one of the users given and
/// is named by a target; and every user given whom a target names is among
/// them by id.
pub proof fn lemma_named_users_by_id(
    users: Seq<UserView>,
    user_labels: Seq<UserLabel>,
    targets: Seq<Target>,
)
    ensures
        ascending_by_id(users_by_id(named_users(users, user_labels, targets))),
        forall|i: int|
            0 <= i < users_by_id(named_users(users, user_labels, targets)).len() ==> users.contains(
                #[trigger] users_by_id(named_users(users, user_labels, targets))[i],
            ) && targets_name(
                targets,
                users_by_id(named_users(users, user_labels, targets))[i].id,
                labels_of(
                    user_labels,
                    users_by_id(named_users(users, user_labels, targets))[i].id,
                ),
            ),
        forall|j: int|
            0 <= j < users.len() && targets_name(
                targets,
                (#[trigger] users[j]).id,
                labels_of(user_labels, users[j].id),
            ) ==> user_ids(users_by_id(named_users(users, user_labels, targets))).contains(
                users[j].id,
            ),
{
    let named = named_users(users, user_labels, targets);
    let listed = users_by_id(named);
    lemma_named_users(users, user_labels, targets);
    lemma_users_by_id(named);
    assert forall|i: int| 0 <= i < listed.len() implies users.contains(#[trigger] listed[i])
        && targets_name(targets, listed[i].id, labels_of(user_labels, listed[i].id)) by {
        let k = choose|k: int| 0 <= k < named.len() && named[k] == listed[i];
        assert(users.contains(named[k]));
    }
    assert forall|j: int|
        0 <= j < users.len() && targets_name(
            targets,
            (#[trigger] users[j]).id,
            labels_of(user_labels, users[j].id),
        ) implies user_ids(listed).contains(users[j].id) by {
        let k = choose|k: int| 0 <= k < named.len() && named[k] == users[j];
        assert(user_ids(listed).contains(named[k].id));
    }
}

/// Whether `wanted` is one of `ids`.
pub fn has_label(ids: &Vec<i32>, wanted: i32) -> (found: bool)
    ensures
        found == ids@.contains(wanted),
{
    let mut i: usize = 0;
    while i < ids.len()
        invariant
            i <= ids.len(),
            forall|j: int| 0 <= j < i ==> ids[j] != wanted,
        decreases ids.len() - i,
    {
        if ids[i] == wanted {
            return true;
        }
        i += 1;
    }
    false
}

/// The labels that the user `user_id` carries.
pub fn user_label_ids(user_labels: &Vec<UserLabel>, user_id: &String) -> (ids: Vec<i32>)
    ensures
        ids@ == labels_of(user_labels@, user_id@),
{
    let mut ids: Vec<i32> = Vec::new();
    let mut i: usize = 0;
    while i < user_labels.len()
        invariant
            i <= user_labels.len(),
            ids@ == labels_of(user_labels@.take(i as int), user_id@),
        decreases user_labels.len() - i,
    {
        proof {
            assert(user_labels@.take(i + 1).drop_last() =~= user_labels@.take(i as int));
        }
        if user_labels[i].user_id == *user_id {
            ids.push(user_labels[i].label_id);
        }
        i += 1;
    }
    proof {
        assert(user_labels@.take(user_labels.len() as int) =~= user_labels@);
    }
    ids
}

/// The first of the users with the id `id`.
pub fn find_user(users: &Vec<User>, id: &String) -> (found: Option<User>)
    ensures
        found == user_with_id(users@, id@),
{
    let mut i: usize = 0;
    proof {
        assert(users@.skip(0) =~= users@);
    }
    while i < users.len()
        invariant
            i <= users.len(),
            user_with_id(users@, id@) == user_with_id(users@.skip(i as int), id@),
        decreases users.len() - i,
    {
        if users[i].id == *id {
            return Some(users[i].clone());
        }
        proof {
            assert(users@.skip(i as int).drop_first() =~= users@.skip(i + 1));
        }
        i += 1;
    }
    None
}

/// The first of the roles with the id `id`.
pub fn find_role(roles: &Vec<Role>, id: &String) -> (found: Option<Role>)
    ensures
        found == role_with_id(roles@, id@),
{
    let mut i: usize = 0;
    proof {
        assert(roles@.skip(0) =~= roles@);
    }
    while i < roles.len()
        invariant
            i <= roles.len(),
            role_with_id(roles@, id@) == role_with_id(roles@.skip(i as int), id@),
        decreases roles.len() - i,
    {
        if roles[i].id == *id {
            return Some(roles[i].clone());
        }
        proof {
            assert(roles@.skip(i as int).drop_first() =~= roles@.skip(i + 1));
        }
        i += 1;
    }
    None
}

/// The first of the targets with the id `id`.
pub fn find_target(targets: &Vec<Target>, id: i32) -> (found: Option<Target>)
    ensures
        found == target_with_id(targets@, id),
{
    let mut i: usize = 0;
    proof {
        assert(targets@.skip(0) =~= targets@);
    }
    while i < targets.len()
        invariant
            i <= targets.len(),
            target_with_id(targets@, id) == target_with_id(targets@.skip(i as int), id),
        decreases targets.len() - i,
    {
        if targets[i].id == id {
            return Some(targets[i].clone());
        }
        proof {
            assert(targets@.skip(i as int).drop_first() =~= targets@.skip(i + 1));
        }
        i += 1;
    }
    None
}

/// The role that the label with the id `label_id` stands for.
pub fn find_role_of_label(labels: &Vec<Label>, roles: &Vec<Role>, label_id: i32) -> (found: Option<
    Role,
>)
    ensures
        found == role_of_label(labels@, roles@, label_id),
{
    let mut i: usize = 0;
    proof {
        assert(labels@.skip(0) =~= labels@);
    }
    while i < labels.len()
        invariant
            i <= labels.len(),
            role_of_label(labels@, roles@, label_id) == role_of_label(
                labels@.skip(i as int),
                roles@,
                label_id,
            ),
        decreases labels.len() - i,
    {
        if labels[i].id == label_id {
            if crate::text::same_text(labels[i].key.as_str(), "role") {
                return find_role(roles, &labels[i].value);
            }
            return None;
        }
        proof {
            assert(labels@.skip(i as int).drop_first() =~= labels@.skip(i + 1));
        }
        i += 1;
    }
    None
}

/// The users in the order of their ids, each id once: of several users
/// with the same id the first is kept.
pub fn unique_by_id(users: &Vec<User>) -> (unique: Vec<User>)
    ensures
        view_each(unique@) == users_by_id(view_each(users@)),
{
    let mut unique: Vec<User> = Vec::new();
    let ghost views = view_each(users@);
    let mut i: usize = 0;
    proof {
        assert(view_each(unique@) =~= users_by_id(views.take(0)));
    }
    while i < users.len()
        invariant
            i <= users.len(),
            views == view_each(users@),
            view_each(unique@) == users_by_id(views.take(i as int)),
        decreases users.len() - i,
    {
        let user = &users[i];
        let ghost sorted = view_each(unique@);
        proof {
            assert(views.take(i + 1).drop_last() =~= views.take(i as int));
            assert(views.take(i + 1).last() == user@);
        }
        let mut at: usize = unique.len();
        while at > 0 && comes_before(user.id.as_str(), unique[at - 1].id.as_str())
            invariant
                at <= unique.len(),
                sorted == view_each(unique@),
                forall|j: int|
                    at <= j < sorted.len() ==> text_before(user.id@, (#[trigger] sorted[j]).id),
            decreases at,
        {
            at -= 1;
        }
        proof {
            lemma_insert_by_id(sorted, user@, at as int);
        }
        if at == 0 || unique[at - 1].id != user.id {
            let copy = user.clone();
            unique.insert(at, copy);
            proof {
                assert(view_each(unique@) =~= sorted.insert(at as int, user@));
            }
        }
        i += 1;
    }
    proof {
        assert(views.take(users.len() as int) =~= views);
    }
    unique
}

impl Target {
    /// Whether this target names the user who carries the labels `user_label_ids`.
    pub fn is_user(&self, user: &User, user_label_ids: &Vec<i32>) -> (named: bool)
        ensures
            named == target_names(*self, user.id@, user_label_ids@),
    {
        if let Some(label_id) = self.label_id {
            if has_label(user_label_ids, label_id) {
                return true;
            }
        }
        if let Some(user_id) = &self.user_id {
            if *user_id == user.id {
                return true;
            }
        }
        false
    }

    /// Whether one of the targets in `list` names the user who carries the
    /// labels `user_label_ids`.
    pub fn is_user_in_targets(user: &User, user_label_ids: &Vec<i32>, list: &Vec<Target>) -> (named:
        bool)
        ensures
            named == targets_name(list@, user.id@, user_label_ids@),
    {
        let mut i: usize = 0;
        while i < list.len()
            invariant
                i <= list.len(),
                forall|j: int| 0 <= j < i ==> !target_names(list[j], user.id@, user_label_ids@),
            decreases list.len() - i,
        {
            if list[i].is_user(user, user_label_ids) {
                return true;
            }
            i += 1;
        }
        false
    }

    /// The users among `users` whom one of `targets` names, directly or by a
    /// label that `user_labels` gives them; each user once, in the order of
    /// the users' ids.
    pub fn get_users(
        targets: &Vec<Target>,
        users: &Vec<User>,
        user_labels: &Vec<UserLabel>,
    ) -> (listed: Vec<User>)
        ensures
            view_each(listed@) == users_by_id(
                named_users(view_each(users@), user_labels@, targets@),
            ),
    {
        let mut named: Vec<User> = Vec::new();
        let ghost views = view_each(users@);
        let mut i: usize = 0;
        proof {
            assert(view_each(named@) =~= named_users(views.take(0), user_labels@, targets@));
        }
        while i < users.len()
            invariant
                i <= users.len(),
                views == view_each(users@),
                view_each(named@) == named_users(views.take(i as int), user_labels@, targets@),
            decreases users.len() - i,
        {
            let user = &users[i];
            proof {
                assert(views.take(i + 1).drop_last() =~= views.take(i as int));
                assert(views.take(i + 1).last() == user@);
            }
            let labels = user_label_ids(user_labels, &user.id);
            if Target::is_user_in_targets(user, &labels, targets) {
                let copy = user.clone();
                proof {
                    lemma_view_each_push(named@, copy);
                }
                named.push(copy);
            }
            i += 1;
        }
        proof {
            assert(views.take(users.len() as int) =~= views);
        }
        unique_by_id(&named)
    }
}

} // verus!

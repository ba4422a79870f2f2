use vstd::prelude::*;
use vstd::string::StringExecFns;

verus! {

#[verifier::external_type_specification]
#[verifier::external_body]
pub struct ExSystemTime(std::time::SystemTime);

/// Relies on `SystemTime::now`: the current wall-clock time. Nothing is
/// known of its value.
pub assume_specification[ std::time::SystemTime::now ]() -> std::time::SystemTime;

/// Relies on `uuid::Uuid::new_v4` and its hyphenated text form, which is
/// always 36 characters. The value is random; `new_v4` panics only when the
/// operating system has no source of randomness.
#[verifier::external_body]
fn fresh_id() -> (r: String)
    ensures
        r@.len() == 36,
{
    uuid::Uuid::new_v4().to_string()
}

/// Something stored under a textual id that can check its own data.
pub trait Entity {
    spec fn id_view(&self) -> Seq<char>;

    spec fn is_valid(&self) -> bool;

    fn get_id(&self) -> (r: &str)
        ensures
            r@ == self.id_view(),
    ;

    fn validate(&self) -> (r: bool)
        ensures
            r == self.is_valid(),
    ;
}

/// Identity and timestamps shared by stored entities.
#[derive(Debug)]
pub struct BaseEntity {
    pub id: String,
    pub created_at: std::time::SystemTime,
    pub updated_at: std::time::SystemTime,
}

impl Clone for BaseEntity {
    fn clone(&self) -> (r: Self)
        ensures
            r == *self,
    {
        BaseEntity { id: self.id.clone(), created_at: self.created_at, updated_at: self.updated_at }
    }
}

impl BaseEntity {
    /// A new entity created and last updated now.
    pub fn new(id: String) -> (r: Self)
        ensures
            r.id == id,
            r.created_at == r.updated_at,
    {
        let now = std::time::SystemTime::now();
        BaseEntity { id, created_at: now, updated_at: now }
    }

    /// Marks the entity as updated now; its id and creation time stay.
    pub fn touch(&mut self)
        ensures
            final(self).id == old(self).id,
            final(self).created_at == old(self).created_at,
    {
        self.updated_at = std::time::SystemTime::now();
    }
}

/// A user account: contact data, an optional password hash and its roles.
#[derive(Debug)]
pub struct User {
    base: BaseEntity,
    pub email: String,
    pub username: String,
    password_hash: Option<String>,
    roles: Vec<String>,
}

/// A copy of `v`, element by element.
fn clone_strings(v: &Vec<String>) -> (r: Vec<String>)
    ensures
        r@ == v@,
{
    let mut out: Vec<String> = Vec::new();
    let mut i: usize = 0;
    while i < v.len()
        invariant
            i <= v@.len(),
            out@ == v@.subrange(0, i as int),
        decreases v@.len() - i,
    {
        out.push(v[i].clone());
        i = i + 1;
    }
    assert(out@ =~= v@);
    out
}

impl Clone for User {
    fn clone(&self) -> (r: Self)
        ensures
            r@ == self@,
            r.created_at() == self.created_at(),
            r.updated_at() == self.updated_at(),
    {
        let password_hash = match &self.password_hash {
            Some(h) => Some(h.clone()),
            None => None,
        };
        User {
            base: self.base.clone(),
            email: self.email.clone(),
            username: self.username.clone(),
            password_hash,
            roles: clone_strings(&self.roles),
        }
    }
}

/// Whether `s` holds the character `c`.
fn has_char(s: &str, c: char) -> (r: bool)
    ensures
        r == s@.contains(c),
{
    for x in it: s.chars()
        invariant
            it.seq() == s@,
            forall|k: int| 0 <= k < it.index() ==> s@[k] != c,
    {
        if x == c {
            return true;
        }
    }
    false
}

/// What a user holds, as plain values.
pub struct UserData {
    pub id: Seq<char>,
    pub email: Seq<char>,
    pub username: Seq<char>,
    pub password_hash: Option<Seq<char>>,
    pub roles: Seq<Seq<char>>,
}

/// The text of each string of `v`.
pub open spec fn texts(v: Seq<String>) -> Seq<Seq<char>> {
    v.map_values(|r: String| r@)
}

/// The plain-value view of each element of `s`.
pub open spec fn views_of<T: View>(s: Seq<T>) -> Seq<T::V> {
    s.map_values(|e: T| e@)
}

impl View for User {
    type V = UserData;

    closed spec fn view(&self) -> UserData {
        UserData {
            id: self.base.id@,
            email: self.email@,
            username: self.username@,
            password_hash: match self.password_hash {
                Some(h) => Some(h@),
                None => None,
            },
            roles: texts(self.roles@),
        }
    }
}

impl User {
    /// When the user was created.
    pub closed spec fn created_at(&self) -> std::time::SystemTime {
        self.base.created_at
    }

    /// When the user was last updated.
    pub closed spec fn updated_at(&self) -> std::time::SystemTime {
        self.base.updated_at
    }

    /// A new user with the single role `user` and no password.
    pub fn new(id: String, email: String, username: String) -> (r: Self)
        ensures
            r@.id == id@,
            r@.email == email@,
            r@.username == username@,
            r@.roles == seq!["user"@],
            r@.password_hash is None,
            r.created_at() == r.updated_at(),
    {
        let u = User {
            base: BaseEntity::new(id),
            email,
            username,
            password_hash: None,
            roles: vec![String::from_str("user")],
        };
        assert(u@.roles =~= seq!["user"@]);
        u
    }

    /// Adds `role` unless the user has it already; adding it marks the user updated.
    pub fn add_role(&mut self, role: String)
        ensures
            final(self)@.id == old(self)@.id,
            final(self)@.email == old(self)@.email,
            final(self)@.username == old(self)@.username,
            final(self)@.password_hash == old(self)@.password_hash,
            final(self).created_at() == old(self).created_at(),
            old(self)@.roles.contains(role@) ==> final(self)@.roles == old(self)@.roles,
            !old(self)@.roles.contains(role@) ==> final(self)@.roles == old(self)@.roles.push(role@),
    {
        if !self.has_role(role.as_str()) {
            let ghost before = self.roles@;
            self.roles.push(role);
            self.base.touch();
            assert(texts(self.roles@) =~= texts(before).push(role@));
        }
    }

    /// Whether the user has `role`.
    pub fn has_role(&self, role: &str) -> (r: bool)
        ensures
            r == self@.roles.contains(role@),
    {
        let wanted = String::from_str(role);
        let mut i: usize = 0;
        while i < self.roles.len()
            invariant
                i <= self.roles@.len(),
                wanted@ == role@,
                forall|k: int| 0 <= k < i ==> self.roles@[k]@ != role@,
            decreases self.roles@.len() - i,
        {
            if self.roles[i] == wanted {
                assert(self@.roles[i as int] == role@);
                return true;
            }
            i = i + 1;
        }
        proof {
            if self@.roles.contains(role@) {
                let k = choose|k: int| 0 <= k < self@.roles.len() && self@.roles[k] == role@;
                assert(self.roles@[k]@ == role@);
            }
        }
        false
    }

    /// Stores the hash of `password` (the text `hashed_` before it) and marks
    /// the user updated.
    pub fn set_password(&mut self, password: &str)
        ensures
            final(self)@.id == old(self)@.id,
            final(self)@.email == old(self)@.email,
            final(self)@.username == old(self)@.username,
            final(self)@.roles == old(self)@.roles,
            final(self)@.password_hash == Some("hashed_"@ + password@),
            final(self).created_at() == old(self).created_at(),
    {
        self.password_hash = Some(String::from_str("hashed_").concat(password));
        self.base.touch();
    }
}

impl Entity for User {
    open spec fn id_view(&self) -> Seq<char> {
        self@.id
    }

    open spec fn is_valid(&self) -> bool {
        self@.email.contains('@') && self@.username.len() > 0
    }

    fn get_id(&self) -> (r: &str) {
        self.base.id.as_str()
    }

    fn validate(&self) -> (r: bool) {
        has_char(self.email.as_str(), '@') && !self.username.as_str().is_empty()
    }
}

/// Why a user operation failed.
#[derive(Debug, PartialEq, Eq)]
pub enum UserError {
    NotFound,
    AlreadyExists,
    ValidationError(String),
}

/// The result of a user operation.
pub type UserResult<T> = Result<T, UserError>;

/// A store of entities of type `T`, each under its own key.
pub trait Repository<T: View> {
    /// The stored entities, in storage order.
    spec fn entries(&self) -> Seq<T::V>;

    /// The key that an entity is stored under.
    spec fn key(&self, e: T::V) -> Seq<char>;

    /// No two stored entities share a key.
    spec fn repo_wf(&self) -> bool;

    fn find_by_id(&self, id: &str) -> (r: UserResult<T>)
        requires
            self.repo_wf(),
        ensures
            r is Ok <==> exists|i: int| 0 <= i < self.entries().len() && self.key(self.entries()[i]) == id@,
            r is Ok ==> exists|i: int|
                0 <= i < self.entries().len() && self.key(self.entries()[i]) == id@ && r->Ok_0@ == self.entries()[i],
            r is Err ==> r->Err_0 is NotFound,
    ;

    fn find_all(&self) -> (r: Vec<T>)
        ensures
            views_of(r@) == self.entries(),
    ;

    fn save(&mut self, entity: T) -> (r: UserResult<()>)
        requires
            old(self).repo_wf(),
        ensures
            final(self).repo_wf(),
            r is Ok,
            (exists|i: int| 0 <= i < old(self).entries().len() && old(self).key(old(self).entries()[i]) == old(self).key(entity@))
                ==> exists|i: int|
                0 <= i < old(self).entries().len() && old(self).key(old(self).entries()[i]) == old(self).key(entity@)
                    && final(self).entries() == old(self).entries().update(i, entity@),
            !(exists|i: int| 0 <= i < old(self).entries().len() && old(self).key(old(self).entries()[i]) == old(self).key(entity@))
                ==> final(self).entries() == old(self).entries().push(entity@),
    ;

    fn delete(&mut self, id: &str) -> (r: UserResult<()>)
        requires
            old(self).repo_wf(),
        ensures
            final(self).repo_wf(),
            r is Ok <==> exists|i: int| 0 <= i < old(self).entries().len() && old(self).key(old(self).entries()[i]) == id@,
            r is Ok ==> exists|i: int|
                0 <= i < old(self).entries().len() && old(self).key(old(self).entries()[i]) == id@
                    && final(self).entries() == old(self).entries().remove(i),
            r is Err ==> r->Err_0 is NotFound && final(self).entries() == old(self).entries(),
    ;
}

/// Users stored by id, in the order they were first saved.
pub struct UserRepository {
    users: Vec<User>,
}

/// No two users of `s` share an id.
pub open spec fn unique_ids(s: Seq<UserData>) -> bool {
    forall|i: int, j: int| 0 <= i < j < s.len() ==> s[i].id != s[j].id
}

impl UserRepository {
    /// The stored users, in storage order.
    pub closed spec fn stored(&self) -> Seq<UserData> {
        views_of(self.users@)
    }

    /// An empty repository.
    pub fn new() -> (r: Self)
        ensures
            r.stored() == Seq::<UserData>::empty(),
            unique_ids(r.stored()),
    {
        let r = UserRepository { users: Vec::new() };
        assert(r.stored() =~= Seq::<UserData>::empty());
        r
    }

    /// The first stored user whose email is `email`.
    pub fn find_by_email(&self, email: &str) -> (r: Option<&User>)
        ensures
            r is Some <==> exists|i: int| 0 <= i < self.stored().len() && self.stored()[i].email == email@,
            r is Some ==> exists|i: int|
                0 <= i < self.stored().len() && self.stored()[i] == r->0@ && r->0@.email == email@
                    && forall|j: int| 0 <= j < i ==> self.stored()[j].email != email@,
    {
        let wanted = String::from_str(email);
        let mut i: usize = 0;
        while i < self.users.len()
            invariant
                i <= self.users@.len(),
                wanted@ == email@,
                forall|j: int| 0 <= j < i ==> self.stored()[j].email != email@,
            decreases self.users@.len() - i,
        {
            if self.users[i].email == wanted {
                assert(self.stored()[i as int] == self.users@[i as int]@);
                return Some(&self.users[i]);
            }
            i = i + 1;
        }
        None
    }

    /// Index of the stored user with id `id`, if any.
    fn position(&self, id: &str) -> (r: Option<usize>)
        ensures
            r is Some <==> exists|i: int| 0 <= i < self.stored().len() && self.stored()[i].id == id@,
            r is Some ==> r->0 < self.stored().len() && self.stored()[r->0 as int].id == id@,
    {
        let wanted = String::from_str(id);
        let mut i: usize = 0;
        while i < self.users.len()
            invariant
                i <= self.users@.len(),
                wanted@ == id@,
                forall|j: int| 0 <= j < i ==> self.stored()[j].id != id@,
            decreases self.users@.len() - i,
        {
            if self.users[i].base.id == wanted {
                return Some(i);
            }
            i = i + 1;
        }
        None
    }
}

impl Repository<User> for UserRepository {
    open spec fn entries(&self) -> Seq<UserData> {
        self.stored()
    }

    open spec fn key(&self, e: UserData) -> Seq<char> {
        e.id
    }

    open spec fn repo_wf(&self) -> bool {
        unique_ids(self.stored())
    }

    fn find_by_id(&self, id: &str) -> (r: UserResult<User>) {
        match self.position(id) {
            Some(i) => {
                let u = self.users[i].clone();
                assert(self.stored()[i as int] == self.users@[i as int]@);
                assert(self.key(self.entries()[i as int]) == id@);
                Ok(u)
            },
            None => {
                assert forall|i: int| 0 <= i < self.entries().len() implies self.key(self.entries()[i]) != id@ by {
                    assert(self.entries()[i] == self.stored()[i]);
                }
                Err(UserError::NotFound)
            },
        }
    }

    fn find_all(&self) -> (r: Vec<User>) {
        let mut out: Vec<User> = Vec::new();
        let mut i: usize = 0;
        while i < self.users.len()
            invariant
                i <= self.users@.len(),
                views_of(out@) == views_of(self.users@.subrange(0, i as int)),
            decreases self.users@.len() - i,
        {
            let ghost before = out@;
            let u = self.users[i].clone();
            out.push(u);
            assert(out@ == before.push(u));
            assert(views_of(out@) =~= views_of(before).push(self.users@[i as int]@));
            assert(views_of(self.users@.subrange(0, i as int + 1)) =~= views_of(self.users@.subrange(0, i as int)).push(self.users@[i as int]@));
            i = i + 1;
        }
        assert(self.users@.subrange(0, self.users@.len() as int) =~= self.users@);
        out
    }

    fn save(&mut self, user: User) -> (r: UserResult<()>) {
        let ghost before = self.stored();
        match self.position(user.get_id()) {
            Some(i) => {
                self.users.set(i, user);
                assert(self.stored() =~= before.update(i as int, user@));
            },
            None => {
                self.users.push(user);
                assert(self.stored() =~= before.push(user@));
            },
        }
        Ok(())
    }

    fn delete(&mut self, id: &str) -> (r: UserResult<()>) {
        let ghost before = self.stored();
        match self.position(id) {
            Some(i) => {
                self.users.remove(i);
                assert(self.stored() =~= before.remove(i as int));
                assert(before[i as int].id == id@);
                assert(old(self).key(old(self).entries()[i as int]) == id@);
                Ok(())
            },
            None => {
                assert forall|i: int| 0 <= i < before.len() implies old(self).key(old(self).entries()[i]) != id@ by {
                    assert(old(self).entries()[i] == before[i]);
                }
                Err(UserError::NotFound)
            },
        }
    }
}

/// User operations over a repository.
pub struct UserService {
    repository: UserRepository,
}

impl UserService {
    /// The stored users, in storage order.
    pub closed spec fn users(&self) -> Seq<UserData> {
        self.repository.stored()
    }

    /// A service with no users.
    pub fn new() -> (r: Self)
        ensures
            r.users() == Seq::<UserData>::empty(),
            unique_ids(r.users()),
    {
        UserService { repository: UserRepository::new() }
    }

    /// Creates a user with id `id` and the role `user`, and saves it,
    /// replacing a stored user with the same id; a user without `@` in the
    /// email or with an empty username is rejected and nothing is stored.
    pub fn create_user_with_id(&mut self, id: String, email: String, username: String) -> (r: UserResult<User>)
        requires
            unique_ids(old(self).users()),
        ensures
            unique_ids(final(self).users()),
            r is Ok <==> email@.contains('@') && username@.len() > 0,
            r is Err ==> r->Err_0 is ValidationError && r->Err_0->ValidationError_0@ == "Invalid user data"@
                && final(self).users() == old(self).users(),
            r is Ok ==> r->Ok_0@.id == id@ && r->Ok_0@.email == email@ && r->Ok_0@.username == username@
                && r->Ok_0@.roles == seq!["user"@] && r->Ok_0@.password_hash is None
                && r->Ok_0.created_at() == r->Ok_0.updated_at(),
            r is Ok && (exists|i: int| 0 <= i < old(self).users().len() && old(self).users()[i].id == id@)
                ==> exists|i: int|
                0 <= i < old(self).users().len() && old(self).users()[i].id == id@
                    && final(self).users() == old(self).users().update(i, r->Ok_0@),
            r is Ok && !(exists|i: int| 0 <= i < old(self).users().len() && old(self).users()[i].id == id@)
                ==> final(self).users() == old(self).users().push(r->Ok_0@),
    {
        let user = User::new(id, email, username);
        if !user.validate() {
            proof {
                reveal_strlit("Invalid user data");
            }
            return Err(UserError::ValidationError(String::from_str("Invalid user data")));
        }
        let copy = user.clone();
        let _ = self.repository.save(copy);
        Ok(user)
    }

    /// Creates a user with a fresh random id (see [`Self::create_user_with_id`]).
    pub fn create_user(&mut self, email: String, username: String) -> (r: UserResult<User>)
        requires
            unique_ids(old(self).users()),
        ensures
            unique_ids(final(self).users()),
            r is Ok <==> email@.contains('@') && username@.len() > 0,
            r is Err ==> r->Err_0 is ValidationError && r->Err_0->ValidationError_0@ == "Invalid user data"@
                && final(self).users() == old(self).users(),
            r is Ok ==> r->Ok_0@.id.len() == 36 && r->Ok_0@.email == email@ && r->Ok_0@.username == username@
                && r->Ok_0@.roles == seq!["user"@] && r->Ok_0@.password_hash is None
                && r->Ok_0.created_at() == r->Ok_0.updated_at(),
            r is Ok && (exists|i: int| 0 <= i < old(self).users().len() && old(self).users()[i].id == r->Ok_0@.id)
                ==> exists|i: int|
                0 <= i < old(self).users().len() && old(self).users()[i].id == r->Ok_0@.id
                    && final(self).users() == old(self).users().update(i, r->Ok_0@),
            r is Ok && !(exists|i: int| 0 <= i < old(self).users().len() && old(self).users()[i].id == r->Ok_0@.id)
                ==> final(self).users() == old(self).users().push(r->Ok_0@),
    {
        let id = fresh_id();
        self.create_user_with_id(id, email, username)
    }

    /// The user with id `id`, or `NotFound`.
    pub fn get_user(&self, id: &str) -> (r: UserResult<User>)
        requires
            unique_ids(self.users()),
        ensures
            r is Ok <==> exists|i: int| 0 <= i < self.users().len() && self.users()[i].id == id@,
            r is Ok ==> exists|i: int| 0 <= i < self.users().len() && self.users()[i] == r->Ok_0@ && r->Ok_0@.id == id@,
            r is Err ==> r->Err_0 is NotFound,
    {
        let r = self.repository.find_by_id(id);
        proof {
            if r is Ok {
                let i = choose|i: int| 0 <= i < self.repository.entries().len()
                    && self.repository.key(self.repository.entries()[i]) == id@
                    && r->Ok_0@ == self.repository.entries()[i];
                assert(self.users()[i].id == id@);
            } else {
                assert forall|i: int| 0 <= i < self.users().len() implies self.users()[i].id != id@ by {
                    assert(self.repository.key(self.repository.entries()[i]) == self.users()[i].id);
                }
            }
        }
        r
    }

    /// Removes the user with id `id`, or reports `NotFound` and changes nothing.
    pub fn delete_user(&mut self, id: &str) -> (r: UserResult<()>)
        requires
            unique_ids(old(self).users()),
        ensures
            unique_ids(final(self).users()),
            r is Ok <==> exists|i: int| 0 <= i < old(self).users().len() && old(self).users()[i].id == id@,
            r is Ok ==> exists|i: int|
                0 <= i < old(self).users().len() && old(self).users()[i].id == id@
                    && final(self).users() == old(self).users().remove(i),
            r is Err ==> r->Err_0 is NotFound && final(self).users() == old(self).users(),
    {
        self.repository.delete(id)
    }
}

} // verus!

//! Who a caller is, what a token says, and what each route asks.
//!
//! A token carries the claims of a `User`: the reference it is bound to,
//! its level, when it expires and an identifier of its own. Signing the
//! claims and checking a signature are left to the transport; this module
//! decides which claims are signed and what accepted claims allow. A token
//! travels as the bare value of the `authorization` header.

use crate::outcome::Failure;
use crate::query::fault;
use crate::query::Answer;
use crate::query::AnswerView;
use crate::query::Query;
use crate::query::QueryView;
use crate::query::Step;
use crate::query::StepView;
use crate::refs::DEFAULT_REF;
use uuid::Uuid;
use vstd::prelude::*;

verus! {

/// `uuid::Uuid`: an identifier that is carried along and never looked
/// into.
#[verifier::external_type_specification]
#[verifier::external_body]
pub struct ExUuid(Uuid);

/// How far a caller is trusted.
#[derive(Clone, Copy, Debug, PartialEq, Eq, Structural)]
pub enum Level {
    /// Bound to one reference.
    Normal,
    /// May change references and skills; bound to the default reference.
    Admin,
}

/// The claims of a token.
#[derive(Debug, PartialEq, Eq)]
pub struct User {
    /// The key of the reference that the caller is bound to.
    pub reference: String,
    pub level: Level,
    /// The time, in seconds since 1970, at which the token expires.
    pub exp: usize,
    /// The identifier of the token.
    pub id: Uuid,
}

/// A user whose level is `Level::Admin`.
#[derive(Debug, PartialEq, Eq)]
pub struct AdminUser(User);

/// The password that makes an administrator.
#[derive(Clone)]
pub struct AuthPassword {
    pub password: String,
}

/// What tokens are signed with.
#[derive(Clone)]
pub struct JWTConfig {
    pub secret: String,
}

/// `User` as a mathematical value.
pub struct UserView {
    pub reference: Seq<char>,
    pub level: Level,
    pub exp: nat,
    pub id: Uuid,
}

impl DeepView for User {
    type V = UserView;

    open spec fn deep_view(&self) -> UserView {
        UserView {
            reference: self.reference@,
            level: self.level,
            exp: self.exp as nat,
            id: self.id,
        }
    }
}

/// The claims that `User::new` makes for a reference and a level, with the
/// identifier `id`: they never expire.
pub open spec fn minted(reference: Seq<char>, level: Level, id: Uuid) -> UserView {
    UserView { reference, level, exp: usize::MAX as nat, id }
}

/// `Uuid::new_v4`: an identifier drawn at random. Nothing is known of it.
#[verifier::external_body]
fn fresh_id() -> Uuid {
    Uuid::new_v4()
}

impl User {
    /// The claims of a new token for `reference` at `level`. The token
    /// never expires and gets an identifier of its own.
    pub fn new(reference: String, level: Level) -> (user: Self)
        ensures
            user.deep_view() == minted(reference@, level, user.id),
    {
        User { reference, level, exp: usize::MAX, id: fresh_id() }
    }
}

impl AdminUser {
    /// The claims of the administrator.
    pub closed spec fn claims(self) -> User {
        self.0
    }

    /// The claims of the administrator.
    pub fn user(&self) -> (user: &User)
        ensures
            *user == self.claims(),
    {
        &self.0
    }
}

/// The reference that the caller is bound to.
pub fn get_ref(user: User) -> (reference: String)
    ensures
        reference@ == user.reference@,
{
    user.reference
}

/// The steps of `generate_token`, where `id` is the identifier that the
/// token gets.
pub open spec fn generate_token_spec(
    reference: Seq<char>,
    answers: Seq<AnswerView>,
    id: Uuid,
) -> StepView<UserView> {
    if answers.len() == 0 {
        StepView::Ask(QueryView::CountRefs { refstr: reference })
    } else {
        match answers[0] {
            AnswerView::Count(count) => if count == 0 {
                StepView::Done(Err(Failure::UnknownReference))
            } else {
                StepView::Done(Ok(minted(reference, Level::Normal, id)))
            },
            _ => fault(),
        }
    }
}

/// Issues the claims of a normal token for a reference. A key under which
/// nothing is stored is reported as `Failure::UnknownReference`. The claims
/// are those of `User::new` for the reference and `Level::Normal`.
pub fn generate_token(reference: &String, answers: &Vec<Answer>) -> (step: Step<User>)
    ensures
        exists|id: Uuid|
            step.deep_view() == #[trigger] generate_token_spec(
                reference@,
                answers.deep_view(),
                id,
            ),
{
    if answers.len() == 0 {
        return Step::Ask(Query::CountRefs { refstr: reference.clone() });
    }
    match &answers[0] {
        Answer::Count(row) => if row.count == 0 {
            Step::Done(Err(Failure::UnknownReference))
        } else {
            let user = User::new(reference.clone(), Level::Normal);
            let step = Step::Done(Ok(user));
            assert(step.deep_view() == generate_token_spec(
                reference@,
                answers.deep_view(),
                user.id,
            ));
            step
        },
        _ => Step::Done(Err(Failure::Internal)),
    }
}

/// Issues the claims of an administrator's token to whoever knows the
/// password. The claims are those of `User::new` for the default reference
/// and `Level::Admin`; any other password is turned down as
/// `Failure::WrongPassword`.
pub fn upgrade(configured: &AuthPassword, provided: &AuthPassword) -> (outcome: Result<
    User,
    Failure,
>)
    ensures
        match outcome {
            Ok(user) => provided.password@ == configured.password@ && user.deep_view() == minted(
                DEFAULT_REF@,
                Level::Admin,
                user.id,
            ),
            Err(why) => provided.password@ != configured.password@ && why
                == Failure::WrongPassword,
        },
{
    if provided.password == configured.password {
        Ok(User::new(DEFAULT_REF.to_owned(), Level::Admin))
    } else {
        Err(Failure::WrongPassword)
    }
}

/// What is done with a request that has to carry a token.
#[derive(Debug, PartialEq, Eq)]
pub enum Presented {
    /// The token to check: its signature against the secret, its expiry
    /// against the clock.
    Token(String),
    /// The request carries no token.
    Nothing,
}

/// Takes the token from the `authorization` header: the value of the
/// header as it stands.
pub fn present(authorization: Option<String>) -> (presented: Presented)
    ensures
        match authorization {
            Some(value) => presented matches Presented::Token(token) && token@ == value@,
            None => presented is Nothing,
        },
{
    match authorization {
        Some(value) => Presented::Token(value),
        None => Presented::Nothing,
    }
}

/// Says who the caller is. `checked` holds the claims of the token where
/// one was presented and accepted, and nothing where the header is absent
/// or the token is malformed, wrongly signed or expired; the latter is
/// turned down as `Failure::Unauthenticated`.
pub fn identify(checked: Option<User>) -> (outcome: Result<User, Failure>)
    ensures
        match checked {
            Some(user) => outcome == Ok::<User, Failure>(user),
            None => outcome == Err::<User, Failure>(Failure::Unauthenticated),
        },
{
    match checked {
        Some(user) => Ok(user),
        None => Err(Failure::Unauthenticated),
    }
}

/// Lets an administrator through and turns every other caller down as
/// `Failure::NotAdmin`.
pub fn require_admin(user: User) -> (outcome: Result<AdminUser, Failure>)
    ensures
        match outcome {
            Ok(admin) => user.level == Level::Admin && admin.claims() == user,
            Err(why) => user.level == Level::Normal && why == Failure::NotAdmin,
        },
{
    match user.level {
        Level::Normal => Err(Failure::NotAdmin),
        Level::Admin => Ok(AdminUser(user)),
    }
}

/// What a route asks of its caller.
#[derive(Clone, Copy, Debug, PartialEq, Eq, Structural)]
pub enum Access {
    /// Nothing: the route is open to everyone.
    Public,
    /// A token that is accepted, of either level.
    Normal,
    /// A token that is accepted, of level `Level::Admin`.
    Admin,
}

/// The routes of the service.
#[derive(Clone, Copy, Debug, PartialEq, Eq, Structural)]
pub enum Route {
    /// `POST /ref/create/{name}`
    CreateRef,
    /// `DELETE /ref/delete/{name}`
    DeleteRef,
    /// `GET /ref/list`
    ListRefs,
    /// `GET /ref/{ref}/name`
    RefName,
    /// `GET /ref/{ref}/skills`
    RefSkills,
    /// `POST /ref/{ref}/add_skill/{skill}`
    AddSkill,
    /// `DELETE /ref/{ref}/remove_skill/{skill}`
    RemoveSkill,
    /// `POST /skills/create/{name}`
    CreateSkill,
    /// `DELETE /skills/delete/{skill}`
    DeleteSkill,
    /// `GET /skills/list`
    ListSkills,
    /// `GET /skills/search/{term}`
    SearchSkills,
    /// `GET /getref`
    GetRef,
    /// `GET /token/{ref}`
    Token,
    /// `POST /token/admin`
    AdminToken,
}

impl Route {
    /// What the route asks of its caller.
    pub open spec fn access_spec(self) -> Access {
        match self {
            Route::CreateRef | Route::RefName | Route::Token | Route::AdminToken => Access::Public,
            Route::RefSkills | Route::ListSkills | Route::SearchSkills | Route::GetRef =>
                Access::Normal,
            Route::DeleteRef
            | Route::ListRefs
            | Route::AddSkill
            | Route::RemoveSkill
            | Route::CreateSkill
            | Route::DeleteSkill => Access::Admin,
        }
    }

    /// What the route asks of its caller.
    pub fn access(&self) -> (access: Access)
        ensures
            access == self.access_spec(),
    {
        match self {
            Route::CreateRef | Route::RefName | Route::Token | Route::AdminToken => Access::Public,
            Route::RefSkills | Route::ListSkills | Route::SearchSkills | Route::GetRef =>
                Access::Normal,
            Route::DeleteRef
            | Route::ListRefs
            | Route::AddSkill
            | Route::RemoveSkill
            | Route::CreateSkill
            | Route::DeleteSkill => Access::Admin,
        }
    }
}

/// Why a caller is turned away from a route, if it is. `level` is the
/// level of the accepted token, and nothing where no token was accepted.
pub open spec fn refusal(access: Access, level: Option<Level>) -> Option<Failure> {
    match (access, level) {
        (Access::Public, _) => None,
        (_, None) => Some(Failure::Unauthenticated),
        (Access::Admin, Some(Level::Normal)) => Some(Failure::NotAdmin),
        _ => None,
    }
}

/// The level of accepted claims.
pub open spec fn level_of(checked: Option<User>) -> Option<Level> {
    match checked {
        Some(user) => Some(user.level),
        None => None,
    }
}

/// Who is let through to a route.
#[derive(Debug, PartialEq, Eq)]
pub enum Caller {
    /// Whoever calls: the route is open.
    Anyone,
    /// The bearer of an accepted token.
    Known(User),
    /// An administrator.
    Admin(AdminUser),
}

/// Decides whether a caller may use a route that asks for `access`.
/// `checked` holds the claims of the token where one was presented and
/// accepted. An open route lets everyone through; any other needs accepted
/// claims, and a route for administrators needs those of an administrator.
pub fn authorize(access: Access, checked: Option<User>) -> (outcome: Result<Caller, Failure>)
    ensures
        match outcome {
            Ok(caller) => refusal(access, level_of(checked)) is None && match caller {
                Caller::Anyone => access == Access::Public,
                Caller::Known(user) => access == Access::Normal && checked == Some(user),
                Caller::Admin(admin) => access == Access::Admin && checked == Some(admin.claims()),
            },
            Err(why) => refusal(access, level_of(checked)) == Some(why),
        },
{
    match access {
        Access::Public => Ok(Caller::Anyone),
        Access::Normal => match identify(checked) {
            Ok(user) => Ok(Caller::Known(user)),
            Err(why) => Err(why),
        },
        Access::Admin => match identify(checked) {
            Ok(user) => match require_admin(user) {
                Ok(admin) => Ok(Caller::Admin(admin)),
                Err(why) => Err(why),
            },
            Err(why) => Err(why),
        },
    }
}

/// A token of level `Level::Normal` does not open a route for
/// administrators: its bearer is turned away, and the failure is of the
/// class `Kind::Unauthorized`.
pub proof fn law_normal_is_no_admin(route: Route)
    requires
        route.access_spec() == Access::Admin,
    ensures
        refusal(route.access_spec(), Some(Level::Normal)) == Some(Failure::NotAdmin),
        Failure::NotAdmin.kind_spec() == crate::outcome::Kind::Unauthorized,
        Failure::NotAdmin.kind_spec().status_spec() == crate::outcome::STATUS_UNAUTHORIZED,
{
}

} // verus!

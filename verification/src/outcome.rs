//! The failures a handler can report, their classes and their status codes.

use vstd::prelude::*;

verus! {

/// The class of a failure: what kind of mistake, if any, the caller made.
#[derive(Clone, Copy, Debug, PartialEq, Eq, Structural)]
pub enum Kind {
    /// Something was to be created that exists already.
    Conflict,
    /// The request names something that does not exist, or asks for what is
    /// never allowed.
    BadRequest,
    /// The caller did not prove who it is, or is not allowed to do this.
    Unauthorized,
    /// The store failed or holds data it should not hold.
    Internal,
}

/// Why a request was turned down.
#[derive(Clone, Copy, Debug, PartialEq, Eq, Structural)]
pub enum Failure {
    /// A reference with the derived key is already stored.
    ReferenceExists,
    /// The skill is already in the catalog.
    SkillExists,
    /// The default reference is permanent.
    DefaultReference,
    /// No reference has the given key.
    UnknownReference,
    /// The catalog does not hold the skill.
    UnknownSkill,
    /// No token was presented, or the one presented was not accepted.
    Unauthenticated,
    /// The password is not the administrator's.
    WrongPassword,
    /// The caller is known but is no administrator.
    NotAdmin,
    /// The store failed, a stored value could not be read, or an answer did
    /// not fit the question.
    Internal,
}

/// Status code of a request that succeeded.
pub const STATUS_OK: u16 = 200;

/// Status code of conflicts and bad requests alike.
pub const STATUS_BAD_REQUEST: u16 = 400;

/// Status code of every failure of class `Unauthorized`.
pub const STATUS_UNAUTHORIZED: u16 = 401;

/// Status code of every failure of class `Internal`.
pub const STATUS_INTERNAL: u16 = 500;

impl Kind {
    /// The status code that answers a failure of this class.
    pub open spec fn status_spec(self) -> u16 {
        match self {
            Kind::Conflict => STATUS_BAD_REQUEST,
            Kind::BadRequest => STATUS_BAD_REQUEST,
            Kind::Unauthorized => STATUS_UNAUTHORIZED,
            Kind::Internal => STATUS_INTERNAL,
        }
    }

    /// The status code that answers a failure of this class.
    pub fn status(&self) -> (code: u16)
        ensures
            code == self.status_spec(),
    {
        match self {
            Kind::Conflict => STATUS_BAD_REQUEST,
            Kind::BadRequest => STATUS_BAD_REQUEST,
            Kind::Unauthorized => STATUS_UNAUTHORIZED,
            Kind::Internal => STATUS_INTERNAL,
        }
    }
}

impl Failure {
    /// The class this failure belongs to.
    pub open spec fn kind_spec(self) -> Kind {
        match self {
            Failure::ReferenceExists | Failure::SkillExists => Kind::Conflict,
            Failure::DefaultReference | Failure::UnknownReference | Failure::UnknownSkill =>
                Kind::BadRequest,
            Failure::Unauthenticated | Failure::WrongPassword | Failure::NotAdmin =>
                Kind::Unauthorized,
            Failure::Internal => Kind::Internal,
        }
    }

    /// The short text sent along with the status code.
    pub open spec fn message_spec(self) -> Seq<char> {
        match self {
            Failure::ReferenceExists => "Reference already exists"@,
            Failure::SkillExists => "Skill already exists"@,
            Failure::DefaultReference => "cannot delete default ref"@,
            Failure::UnknownReference => "Reference does not exist"@,
            Failure::UnknownSkill => "Skill does not exist"@,
            Failure::NotAdmin => "You are not an admin user!"@,
            Failure::Unauthenticated | Failure::WrongPassword | Failure::Internal => ""@,
        }
    }

    /// The class this failure belongs to.
    pub fn kind(&self) -> (kind: Kind)
        ensures
            kind == self.kind_spec(),
    {
        match self {
            Failure::ReferenceExists | Failure::SkillExists => Kind::Conflict,
            Failure::DefaultReference | Failure::UnknownReference | Failure::UnknownSkill =>
                Kind::BadRequest,
            Failure::Unauthenticated | Failure::WrongPassword | Failure::NotAdmin =>
                Kind::Unauthorized,
            Failure::Internal => Kind::Internal,
        }
    }

    /// The status code that answers this failure.
    pub fn status(&self) -> (code: u16)
        ensures
            code == self.kind_spec().status_spec(),
            code != STATUS_OK,
    {
        self.kind().status()
    }

    /// The short text sent along with the status code. Nothing is said of a
    /// failed login or of a fault of the store.
    pub fn message(&self) -> (text: String)
        ensures
            text@ == self.message_spec(),
    {
        match self {
            Failure::ReferenceExists => "Reference already exists".to_owned(),
            Failure::SkillExists => "Skill already exists".to_owned(),
            Failure::DefaultReference => "cannot delete default ref".to_owned(),
            Failure::UnknownReference => "Reference does not exist".to_owned(),
            Failure::UnknownSkill => "Skill does not exist".to_owned(),
            Failure::NotAdmin => "You are not an admin user!".to_owned(),
            Failure::Unauthenticated | Failure::WrongPassword | Failure::Internal => "".to_owned(),
        }
    }
}

} // verus!

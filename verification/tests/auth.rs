use skillrefs::auth::authorize;
use skillrefs::auth::generate_token;
use skillrefs::auth::get_ref;
use skillrefs::auth::identify;
use skillrefs::auth::present;
use skillrefs::auth::require_admin;
use skillrefs::auth::upgrade;
use skillrefs::auth::Access;
use skillrefs::auth::AuthPassword;
use skillrefs::auth::Caller;
use skillrefs::auth::JWTConfig;
use skillrefs::auth::Level;
use skillrefs::auth::Presented;
use skillrefs::auth::Route;
use skillrefs::auth::User;
use skillrefs::outcome::Failure;
use skillrefs::outcome::Kind;
use skillrefs::query::Answer;
use skillrefs::query::Query;
use skillrefs::query::Step;
use skillrefs::refs::Count;
use skillrefs::refs::DEFAULT_REF;

fn text(value: &str) -> String {
    String::from(value)
}

fn password(value: &str) -> AuthPassword {
    AuthPassword { password: text(value) }
}

fn normal() -> User {
    User::new(text("AsfBJGbiWmA"), Level::Normal)
}

fn admin() -> User {
    User::new(text(DEFAULT_REF), Level::Admin)
}

#[test]
fn new_user_never_expires() {
    let user = User::new(text("AsfBJGbiWmA"), Level::Normal);
    assert_eq!(user.reference, "AsfBJGbiWmA");
    assert_eq!(user.level, Level::Normal);
    assert_eq!(user.exp, usize::MAX);
}

#[test]
fn new_users_differ_in_their_id() {
    let first = normal();
    let second = normal();
    assert_ne!(first.id, second.id);
    assert_eq!(first.id.get_version_num(), 4);
}

#[test]
fn get_ref_is_the_reference_of_the_user() {
    assert_eq!(get_ref(normal()), "AsfBJGbiWmA");
    assert_eq!(get_ref(admin()), "NOREF");
}

#[test]
fn generate_token_asks_whether_the_reference_is_stored() {
    let reference = text("AsfBJGbiWmA");
    assert_eq!(
        generate_token(&reference, &Vec::new()),
        Step::Ask(Query::CountRefs { refstr: reference.clone() })
    );
}

#[test]
fn generate_token_mints_normal_claims() {
    let reference = text("AsfBJGbiWmA");
    match generate_token(&reference, &vec![Answer::Count(Count { count: 1 })]) {
        Step::Done(Ok(user)) => {
            assert_eq!(user.reference, reference);
            assert_eq!(user.level, Level::Normal);
            assert_eq!(user.exp, usize::MAX);
        }
        other => panic!("no claims: {:?}", other),
    }
}

#[test]
fn generate_token_reports_an_unknown_reference() {
    let reference = text("AsfBJGbiWmA");
    assert_eq!(
        generate_token(&reference, &vec![Answer::Count(Count { count: 0 })]),
        Step::Done(Err(Failure::UnknownReference))
    );
    assert_eq!(
        generate_token(&reference, &vec![Answer::Failed]),
        Step::Done(Err(Failure::Internal))
    );
}

#[test]
fn upgrade_with_the_wrong_password_is_unauthorized() {
    let outcome = upgrade(&password("secret"), &password("guess"));
    assert_eq!(outcome, Err(Failure::WrongPassword));
    assert_eq!(Failure::WrongPassword.kind(), Kind::Unauthorized);
    assert_eq!(Failure::WrongPassword.status(), 401);
    assert_eq!(upgrade(&password("secret"), &password("")), Err(Failure::WrongPassword));
    assert_eq!(upgrade(&password("secret"), &password("secret ")), Err(Failure::WrongPassword));
    assert_eq!(upgrade(&password("secret"), &password("Secret")), Err(Failure::WrongPassword));
}

#[test]
fn upgrade_with_the_right_password_mints_admin_claims() {
    let user = upgrade(&password("secret"), &password("secret")).unwrap();
    assert_eq!(user.level, Level::Admin);
    assert_eq!(user.reference, "NOREF");
    assert_eq!(user.exp, usize::MAX);
}

#[test]
fn admin_token_decodes_to_admin() {
    let user = upgrade(&password("secret"), &password("secret")).unwrap();
    let config = JWTConfig { secret: text("signing secret") };
    let mut claims = serde_json::Map::new();
    claims.insert(text("reference"), serde_json::Value::from(user.reference.clone()));
    claims.insert(text("level"), serde_json::Value::from(format!("{:?}", user.level)));
    claims.insert(text("exp"), serde_json::Value::from(user.exp as u64));
    claims.insert(text("id"), serde_json::Value::from(user.id.to_string()));
    let token = jsonwebtoken::encode(
        &jsonwebtoken::Header::default(),
        &claims,
        &jsonwebtoken::EncodingKey::from_secret(config.secret.as_bytes()),
    )
    .unwrap();
    let decoded = jsonwebtoken::decode::<serde_json::Value>(
        &token,
        &jsonwebtoken::DecodingKey::from_secret(config.secret.as_bytes()),
        &jsonwebtoken::Validation::default(),
    )
    .unwrap();
    assert_eq!(decoded.claims["level"], "Admin");
    assert_eq!(decoded.claims["reference"], "NOREF");
    let forged = jsonwebtoken::decode::<serde_json::Value>(
        &token,
        &jsonwebtoken::DecodingKey::from_secret(b"another secret"),
        &jsonwebtoken::Validation::default(),
    );
    assert!(forged.is_err());
    assert_eq!(identify(None), Err(Failure::Unauthenticated));
}

#[test]
fn present_takes_the_header_as_it_stands() {
    assert_eq!(present(Some(text("a.b.c"))), Presented::Token(text("a.b.c")));
    assert_eq!(present(Some(text("Bearer a.b.c"))), Presented::Token(text("Bearer a.b.c")));
    assert_eq!(present(None), Presented::Nothing);
}

#[test]
fn identify_needs_accepted_claims() {
    assert_eq!(identify(None), Err(Failure::Unauthenticated));
    assert_eq!(Failure::Unauthenticated.status(), 401);
    let user = normal();
    let id = user.id;
    let known = identify(Some(user)).unwrap();
    assert_eq!(known.id, id);
    assert_eq!(known.level, Level::Normal);
}

#[test]
fn require_admin_turns_a_normal_user_down() {
    assert_eq!(require_admin(normal()), Err(Failure::NotAdmin));
    assert_eq!(Failure::NotAdmin.status(), 401);
    assert_eq!(Failure::NotAdmin.message(), "You are not an admin user!");
}

#[test]
fn require_admin_lets_an_admin_through() {
    let user = admin();
    let id = user.id;
    let let_through = require_admin(user).unwrap();
    assert_eq!(let_through.user().id, id);
    assert_eq!(let_through.user().level, Level::Admin);
}

#[test]
fn routes_ask_what_the_interface_says() {
    assert_eq!(Route::CreateRef.access(), Access::Public);
    assert_eq!(Route::DeleteRef.access(), Access::Admin);
    assert_eq!(Route::ListRefs.access(), Access::Admin);
    assert_eq!(Route::RefName.access(), Access::Public);
    assert_eq!(Route::RefSkills.access(), Access::Normal);
    assert_eq!(Route::AddSkill.access(), Access::Admin);
    assert_eq!(Route::RemoveSkill.access(), Access::Admin);
    assert_eq!(Route::CreateSkill.access(), Access::Admin);
    assert_eq!(Route::DeleteSkill.access(), Access::Admin);
    assert_eq!(Route::ListSkills.access(), Access::Normal);
    assert_eq!(Route::SearchSkills.access(), Access::Normal);
    assert_eq!(Route::GetRef.access(), Access::Normal);
    assert_eq!(Route::Token.access(), Access::Public);
    assert_eq!(Route::AdminToken.access(), Access::Public);
}

#[test]
fn normal_token_on_an_admin_route_is_unauthorized() {
    let routes = [
        Route::DeleteRef,
        Route::ListRefs,
        Route::AddSkill,
        Route::RemoveSkill,
        Route::CreateSkill,
        Route::DeleteSkill,
    ];
    for route in routes {
        let outcome = authorize(route.access(), Some(normal()));
        assert_eq!(outcome, Err(Failure::NotAdmin));
        assert_eq!(outcome.unwrap_err().kind(), Kind::Unauthorized);
    }
}

#[test]
fn admin_token_opens_every_route() {
    for access in [Access::Normal, Access::Admin] {
        assert!(authorize(access, Some(admin())).is_ok());
    }
    assert!(matches!(authorize(Access::Admin, Some(admin())), Ok(Caller::Admin(_))));
    assert!(matches!(authorize(Access::Normal, Some(admin())), Ok(Caller::Known(_))));
}

#[test]
fn normal_token_opens_normal_routes() {
    let user = normal();
    let id = user.id;
    match authorize(Access::Normal, Some(user)) {
        Ok(Caller::Known(known)) => assert_eq!(known.id, id),
        other => panic!("not let through: {:?}", other),
    }
}

#[test]
fn no_token_opens_public_routes_only() {
    assert_eq!(authorize(Access::Public, None), Ok(Caller::Anyone));
    assert_eq!(authorize(Access::Normal, None), Err(Failure::Unauthenticated));
    assert_eq!(authorize(Access::Admin, None), Err(Failure::Unauthenticated));
    assert_eq!(authorize(Access::Public, Some(normal())), Ok(Caller::Anyone));
}

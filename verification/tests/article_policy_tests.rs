use auth_core::articles::create_article;
use auth_core::articles::delete_article;
use auth_core::articles::get_all_articles;
use auth_core::articles::get_article;
use auth_core::articles::update_article_content;
use auth_core::articles::update_article_title;
use auth_core::articles::ArticleStore;
use auth_core::articles::CreateArticleBody;
use auth_core::articles::UpdateArticleBody;
use auth_core::auth::Role;
use auth_core::auth::TokenClaims;
use auth_core::policy::decide;
use auth_core::policy::Decision;
use auth_core::response::ApiError;

fn body() -> CreateArticleBody {
    CreateArticleBody { title: "On ducks".to_string(), content: "They quack.".to_string() }
}

#[test]
fn decide_owner_allowed() {
    assert_eq!(decide(5, Role::User, 5), Decision::Allow);
}

#[test]
fn decide_stranger_denied() {
    assert_eq!(decide(5, Role::User, 7), Decision::Deny);
}

#[test]
fn decide_admin_allowed() {
    assert_eq!(decide(5, Role::Admin, 7), Decision::Allow);
}

#[test]
fn create_article_requires_identity() {
    let mut store = ArticleStore::new();
    let e = create_article(&mut store, None, &body(), None).unwrap_err();
    assert_eq!(e, ApiError::IdentityUnverified);
    assert_eq!(e.status(), 401);
    assert_eq!(e.message(), "Unable to verify identity");
    assert_eq!(store.articles.len(), 0);
}

#[test]
fn create_and_get_article() {
    let mut store = ArticleStore::new();
    let author = TokenClaims { id: 5, role: Role::User };
    let a = create_article(&mut store, Some(&author), &body(), Some(1700000000)).unwrap();
    assert_eq!(a.id, 1);
    assert_eq!(a.title, "On ducks");
    assert_eq!(a.content, "They quack.");
    assert_eq!(a.published_by, 5);
    assert_eq!(a.published_on, Some(1700000000));

    let got = get_article(&store, 1).unwrap();
    assert_eq!(got.title, "On ducks");
    let e = get_article(&store, 2).unwrap_err();
    assert_eq!(e, ApiError::ArticleNotFound);
    assert_eq!(e.status(), 404);
    assert_eq!(e.message(), "Article not found");

    let all = get_all_articles(&store);
    assert_eq!(all.len(), 1);
    assert_eq!(all[0].id, 1);
}

#[test]
fn delete_by_non_owner_denied_and_article_stays() {
    let mut store = ArticleStore::new();
    let owner = TokenClaims { id: 5, role: Role::User };
    let stranger = TokenClaims { id: 7, role: Role::User };
    create_article(&mut store, Some(&owner), &body(), None).unwrap();

    let e = delete_article(&mut store, Some(&stranger), 1).unwrap_err();
    assert_eq!(e, ApiError::NotArticleOwnerDelete);
    assert_eq!(e.status(), 403);
    assert_eq!(e.message(), "You can only delete your own articles");
    assert_eq!(store.articles.len(), 1);
}

#[test]
fn delete_by_owner_removes_article() {
    let mut store = ArticleStore::new();
    let owner = TokenClaims { id: 5, role: Role::User };
    create_article(&mut store, Some(&owner), &body(), None).unwrap();
    let m = delete_article(&mut store, Some(&owner), 1).unwrap();
    assert_eq!(m, "Article deleted successfully");
    assert_eq!(store.articles.len(), 0);
}

#[test]
fn delete_by_admin_allowed() {
    let mut store = ArticleStore::new();
    let owner = TokenClaims { id: 5, role: Role::User };
    let admin = TokenClaims { id: 1, role: Role::Admin };
    create_article(&mut store, Some(&owner), &body(), None).unwrap();
    delete_article(&mut store, Some(&admin), 1).unwrap();
    assert_eq!(store.articles.len(), 0);
}

#[test]
fn delete_absent_article_is_not_found_even_for_strangers() {
    let mut store = ArticleStore::new();
    let stranger = TokenClaims { id: 7, role: Role::User };
    let e = delete_article(&mut store, Some(&stranger), 123).unwrap_err();
    assert_eq!(e, ApiError::ArticleNotFound);
}

#[test]
fn delete_requires_identity() {
    let mut store = ArticleStore::new();
    let owner = TokenClaims { id: 5, role: Role::User };
    create_article(&mut store, Some(&owner), &body(), None).unwrap();
    let e = delete_article(&mut store, None, 1).unwrap_err();
    assert_eq!(e, ApiError::IdentityUnverified);
    assert_eq!(store.articles.len(), 1);
}

#[test]
fn update_title_flow() {
    let mut store = ArticleStore::new();
    let owner = TokenClaims { id: 5, role: Role::User };
    let stranger = TokenClaims { id: 7, role: Role::User };
    create_article(&mut store, Some(&owner), &body(), None).unwrap();

    let upd = UpdateArticleBody { title: Some("On geese".to_string()), content: None };
    let e = update_article_title(&mut store, Some(&stranger), 1, &upd).unwrap_err();
    assert_eq!(e, ApiError::NotArticleOwnerUpdate);
    assert_eq!(e.message(), "You can only update your own articles");

    let empty = UpdateArticleBody { title: None, content: None };
    let e = update_article_title(&mut store, Some(&owner), 1, &empty).unwrap_err();
    assert_eq!(e, ApiError::TitleMissing);

    let a = update_article_title(&mut store, Some(&owner), 1, &upd).unwrap();
    assert_eq!(a.title, "On geese");
    assert_eq!(a.content, "They quack.");
    assert_eq!(store.articles[0].title, "On geese");
}

#[test]
fn update_content_flow() {
    let mut store = ArticleStore::new();
    let owner = TokenClaims { id: 5, role: Role::User };
    create_article(&mut store, Some(&owner), &body(), None).unwrap();

    let empty = UpdateArticleBody { title: None, content: None };
    let e = update_article_content(&mut store, Some(&owner), 1, &empty).unwrap_err();
    assert_eq!(e, ApiError::ContentMissing);

    let upd = UpdateArticleBody { title: None, content: Some("They honk.".to_string()) };
    let a = update_article_content(&mut store, Some(&owner), 1, &upd).unwrap();
    assert_eq!(a.content, "They honk.");
    assert_eq!(a.title, "On ducks");
    assert_eq!(store.articles[0].content, "They honk.");

    let e = update_article_content(&mut store, Some(&owner), 9, &upd).unwrap_err();
    assert_eq!(e, ApiError::ArticleNotFound);
}

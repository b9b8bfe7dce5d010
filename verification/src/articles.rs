//! The article directory and its handlers: the resources the access rule
//! guards.

use vstd::prelude::*;

use crate::auth::Role;
use crate::auth::TokenClaims;
use crate::policy::decide;
use crate::policy::Decision;
use crate::response::ApiError;

verus! {

/// The body of an article creation request.
#[derive(Debug)]
pub struct CreateArticleBody {
    pub title: String,
    pub content: String,
}

/// One stored article. The publication instant is kept as seconds since
/// the epoch; whoever owns a clock converts at the boundary.
#[derive(Debug)]
pub struct Article {
    pub id: i32,
    pub title: String,
    pub content: String,
    pub published_by: i32,
    pub published_on: Option<i64>,
}

impl Clone for Article {
    fn clone(&self) -> (r: Self)
        ensures
            r == *self,
    {
        Article {
            id: self.id,
            title: self.title.clone(),
            content: self.content.clone(),
            published_by: self.published_by,
            published_on: self.published_on,
        }
    }
}

/// The body of an article update; each request fills one field.
#[derive(Debug)]
pub struct UpdateArticleBody {
    pub title: Option<String>,
    pub content: Option<String>,
}

/// The directory of articles.
pub struct ArticleStore {
    pub articles: Vec<Article>,
    pub next_id: i32,
}

impl ArticleStore {
    /// Well-formedness: ids are positive, below the next id to hand out,
    /// and pairwise distinct.
    pub open spec fn wf(&self) -> bool {
        &&& 1 <= self.next_id
        &&& forall|i: int|
            0 <= i < self.articles@.len() ==> 1 <= (#[trigger] self.articles@[i]).id < self.next_id
        &&& forall|i: int, j: int|
            0 <= i < j < self.articles@.len() ==> #[trigger] self.articles@[i].id
                != #[trigger] self.articles@[j].id
    }

    /// Some article carries this id.
    pub open spec fn has_article(&self, id: int) -> bool {
        exists|i: int| 0 <= i < self.articles@.len() && (#[trigger] self.articles@[i]).id == id
    }

    /// An empty directory.
    pub fn new() -> (s: ArticleStore)
        ensures
            s.wf(),
            s.articles@.len() == 0,
            s.next_id == 1,
    {
        ArticleStore { articles: Vec::new(), next_id: 1 }
    }

    /// The index of the article with this id, if any.
    pub fn find_article(&self, id: i32) -> (r: Option<usize>)
        ensures
            match r {
                Some(i) => i < self.articles@.len() && self.articles@[i as int].id == id,
                None => !self.has_article(id as int),
            },
    {
        let n = self.articles.len();
        let mut i: usize = 0;
        while i < n
            invariant
                n == self.articles@.len(),
                0 <= i <= n,
                forall|k: int| 0 <= k < i ==> (#[trigger] self.articles@[k]).id != id,
            decreases n - i,
        {
            if self.articles[i].id == id {
                return Some(i);
            }
            i = i + 1;
        }
        None
    }
}

/// Articles with equal ids sit at equal indices.
proof fn lemma_article_id_unique(s: ArticleStore, i: int, j: int)
    requires
        s.wf(),
        0 <= i < s.articles@.len(),
        0 <= j < s.articles@.len(),
        s.articles@[i].id == s.articles@[j].id,
    ensures
        i == j,
{
    if i < j {
        assert(s.articles@[i].id != s.articles@[j].id);
    }
    if j < i {
        assert(s.articles@[j].id != s.articles@[i].id);
    }
}

/// Publishes an article under the acting identity. Without an identity the
/// request is refused before anything is stored.
pub fn create_article(
    store: &mut ArticleStore,
    identity: Option<&TokenClaims>,
    body: &CreateArticleBody,
    published_on: Option<i64>,
) -> (r: Result<Article, ApiError>)
    requires
        old(store).wf(),
    ensures
        final(store).wf(),
        identity is None ==> r == Err::<Article, ApiError>(ApiError::IdentityUnverified) && *final(store) == *old(store),
        identity matches Some(c) ==> {
            &&& old(store).next_id == i32::MAX ==> r == Err::<Article, ApiError>(
                ApiError::StorageFailed,
            ) && *final(store) == *old(store)
            &&& old(store).next_id < i32::MAX ==> {
                &&& r matches Ok(a)
                &&& a.id == old(store).next_id
                &&& a.title@ == body.title@
                &&& a.content@ == body.content@
                &&& a.published_by == c.id
                &&& a.published_on == published_on
                &&& final(store).next_id == old(store).next_id + 1
                &&& final(store).articles@ == old(store).articles@.push(
                    final(store).articles@.last(),
                )
                &&& final(store).articles@.last() == a
            }
        },
{
    let c = match identity {
        None => {
            return Err(ApiError::IdentityUnverified);
        },
        Some(c) => c,
    };
    if store.next_id == i32::MAX {
        return Err(ApiError::StorageFailed);
    }
    let id = store.next_id;
    let rec = Article {
        id,
        title: body.title.clone(),
        content: body.content.clone(),
        published_by: c.id,
        published_on,
    };
    let out = rec.clone();
    store.articles.push(rec);
    store.next_id = store.next_id + 1;
    proof {
        assert(final(store).articles@ =~= old(store).articles@.push(
            final(store).articles@.last(),
        ));
        assert forall|i: int, j: int|
            0 <= i < j < store.articles@.len() implies #[trigger] store.articles@[i].id
            != #[trigger] store.articles@[j].id by {
            if j < store.articles@.len() - 1 {
                assert(store.articles@[i] == old(store).articles@[i]);
                assert(store.articles@[j] == old(store).articles@[j]);
            } else {
                assert(store.articles@[i] == old(store).articles@[i]);
            }
        }
        assert forall|i: int|
            0 <= i < store.articles@.len() implies 1 <= (#[trigger] store.articles@[i]).id
            < store.next_id by {
            if i < store.articles@.len() - 1 {
                assert(store.articles@[i] == old(store).articles@[i]);
            }
        }
    }
    Ok(out)
}

/// Fetches one article by id.
pub fn get_article(store: &ArticleStore, article_id: i32) -> (r: Result<Article, ApiError>)
    requires
        store.wf(),
    ensures
        !store.has_article(article_id as int) ==> r == Err::<Article, ApiError>(
            ApiError::ArticleNotFound,
        ),
        forall|i: int|
            0 <= i < store.articles@.len() && (#[trigger] store.articles@[i]).id == article_id
                ==> (r matches Ok(a) && a == store.articles@[i]),
{
    match store.find_article(article_id) {
        None => Err(ApiError::ArticleNotFound),
        Some(idx) => {
            proof {
                assert forall|i: int|
                    0 <= i < store.articles@.len() && (#[trigger] store.articles@[i]).id
                        == article_id implies i == idx as int by {
                    lemma_article_id_unique(*store, i, idx as int);
                }
            }
            Ok(store.articles[idx].clone())
        },
    }
}

/// Fetches every article, in storage order.
pub fn get_all_articles(store: &ArticleStore) -> (r: Vec<Article>)
    ensures
        r@ == store.articles@,
{
    let n = store.articles.len();
    let mut out: Vec<Article> = Vec::new();
    let mut i: usize = 0;
    while i < n
        invariant
            n == store.articles@.len(),
            0 <= i <= n,
            out@.len() == i,
            forall|k: int| 0 <= k < i ==> out@[k] == store.articles@[k],
        decreases n - i,
    {
        out.push(store.articles[i].clone());
        i = i + 1;
    }
    assert(out@ =~= store.articles@);
    out
}

/// Deletes an article: the existence check precedes the ownership check,
/// so an absent article reads as missing even to a stranger; only the
/// owner or an admin may delete.
pub fn delete_article(
    store: &mut ArticleStore,
    identity: Option<&TokenClaims>,
    article_id: i32,
) -> (r: Result<String, ApiError>)
    requires
        old(store).wf(),
    ensures
        final(store).wf(),
        identity is None ==> r == Err::<String, ApiError>(ApiError::IdentityUnverified) && *final(store) == *old(store),
        identity matches Some(c) ==> {
            &&& !old(store).has_article(article_id as int) ==> r == Err::<String, ApiError>(
                ApiError::ArticleNotFound,
            ) && *final(store) == *old(store)
            &&& forall|i: int|
                0 <= i < old(store).articles@.len() && (#[trigger] old(store).articles@[i]).id
                    == article_id ==> if old(store).articles@[i].published_by == c.id || c.role
                    == Role::Admin {
                    (r matches Ok(m) && m@ == "Article deleted successfully"@) && final(store).articles@ == old(store).articles@.remove(i) && final(store).next_id == old(store).next_id
                } else {
                    r == Err::<String, ApiError>(ApiError::NotArticleOwnerDelete) && *final(store)
                        == *old(store)
                }
        },
{
    let c = match identity {
        None => {
            return Err(ApiError::IdentityUnverified);
        },
        Some(c) => c,
    };
    let idx = match store.find_article(article_id) {
        None => {
            return Err(ApiError::ArticleNotFound);
        },
        Some(i) => i,
    };
    proof {
        assert forall|i: int|
            0 <= i < store.articles@.len() && (#[trigger] store.articles@[i]).id
                == article_id implies i == idx as int by {
            lemma_article_id_unique(*store, i, idx as int);
        }
    }
    match decide(c.id, c.role, store.articles[idx].published_by) {
        Decision::Deny => Err(ApiError::NotArticleOwnerDelete),
        Decision::Allow => {
            store.articles.remove(idx);
            proof {
                let a = old(store).articles@;
                let b = store.articles@;
                assert forall|i: int|
                    0 <= i < b.len() implies 1 <= (#[trigger] b[i]).id < store.next_id by {
                    if i < idx {
                        assert(b[i] == a[i]);
                    } else {
                        assert(b[i] == a[i + 1]);
                    }
                }
                assert forall|i: int, j: int|
                    0 <= i < j < b.len() implies #[trigger] b[i].id != #[trigger] b[j].id by {
                    let i0: int = if i < idx { i } else { i + 1 };
                    let j0: int = if j < idx { j } else { j + 1 };
                    assert(b[i] == a[i0] && b[j] == a[j0]);
                    assert(a[i0].id != a[j0].id);
                }
            }
            Ok("Article deleted successfully".to_owned())
        },
    }
}

/// Retitles an article: it must exist, the actor must own it or be an
/// admin, and the body must carry a title.
pub fn update_article_title(
    store: &mut ArticleStore,
    identity: Option<&TokenClaims>,
    article_id: i32,
    body: &UpdateArticleBody,
) -> (r: Result<Article, ApiError>)
    requires
        old(store).wf(),
    ensures
        final(store).wf(),
        identity is None ==> r == Err::<Article, ApiError>(ApiError::IdentityUnverified) && *final(store) == *old(store),
        identity matches Some(c) ==> {
            &&& !old(store).has_article(article_id as int) ==> r == Err::<Article, ApiError>(
                ApiError::ArticleNotFound,
            ) && *final(store) == *old(store)
            &&& forall|i: int|
                0 <= i < old(store).articles@.len() && (#[trigger] old(store).articles@[i]).id
                    == article_id ==> if old(store).articles@[i].published_by != c.id && c.role
                    != Role::Admin {
                    r == Err::<Article, ApiError>(ApiError::NotArticleOwnerUpdate) && *final(store)
                        == *old(store)
                } else {
                    {
                        &&& body.title is None ==> r == Err::<Article, ApiError>(
                            ApiError::TitleMissing,
                        ) && *final(store) == *old(store)
                        &&& body.title matches Some(t) ==> {
                            &&& final(store).articles@ == old(store).articles@.update(
                                i,
                                (Article { title: t, ..old(store).articles@[i] }),
                            )
                            &&& final(store).next_id == old(store).next_id
                            &&& r matches Ok(a) && a == final(store).articles@[i]
                        }
                    }
                }
        },
{
    let c = match identity {
        None => {
            return Err(ApiError::IdentityUnverified);
        },
        Some(c) => c,
    };
    let idx = match store.find_article(article_id) {
        None => {
            return Err(ApiError::ArticleNotFound);
        },
        Some(i) => i,
    };
    proof {
        assert forall|i: int|
            0 <= i < store.articles@.len() && (#[trigger] store.articles@[i]).id
                == article_id implies i == idx as int by {
            lemma_article_id_unique(*store, i, idx as int);
        }
    }
    match decide(c.id, c.role, store.articles[idx].published_by) {
        Decision::Deny => Err(ApiError::NotArticleOwnerUpdate),
        Decision::Allow => {
            let t = match &body.title {
                None => {
                    return Err(ApiError::TitleMissing);
                },
                Some(t) => t,
            };
            let rec = Article {
                id: store.articles[idx].id,
                title: t.clone(),
                content: store.articles[idx].content.clone(),
                published_by: store.articles[idx].published_by,
                published_on: store.articles[idx].published_on,
            };
            let out = rec.clone();
            store.articles[idx] = rec;
            proof {
                assert(final(store).articles@ =~= old(store).articles@.update(
                    idx as int,
                    (Article { title: *t, ..old(store).articles@[idx as int] }),
                ));
                let a = old(store).articles@;
                let b = store.articles@;
                assert forall|i: int|
                    0 <= i < b.len() implies 1 <= (#[trigger] b[i]).id < store.next_id by {
                    if i != idx {
                        assert(b[i] == a[i]);
                    }
                }
                assert forall|i: int, j: int|
                    0 <= i < j < b.len() implies #[trigger] b[i].id != #[trigger] b[j].id by {
                    assert(a[i].id != a[j].id);
                    if i == idx {
                        assert(b[j] == a[j]);
                    } else if j == idx {
                        assert(b[i] == a[i]);
                    }
                }
            }
            Ok(out)
        },
    }
}

/// Rewrites an article's content: the same guards as for the title.
pub fn update_article_content(
    store: &mut ArticleStore,
    identity: Option<&TokenClaims>,
    article_id: i32,
    body: &UpdateArticleBody,
) -> (r: Result<Article, ApiError>)
    requires
        old(store).wf(),
    ensures
        final(store).wf(),
        identity is None ==> r == Err::<Article, ApiError>(ApiError::IdentityUnverified) && *final(store) == *old(store),
        identity matches Some(c) ==> {
            &&& !old(store).has_article(article_id as int) ==> r == Err::<Article, ApiError>(
                ApiError::ArticleNotFound,
            ) && *final(store) == *old(store)
            &&& forall|i: int|
                0 <= i < old(store).articles@.len() && (#[trigger] old(store).articles@[i]).id
                    == article_id ==> if old(store).articles@[i].published_by != c.id && c.role
                    != Role::Admin {
                    r == Err::<Article, ApiError>(ApiError::NotArticleOwnerUpdate) && *final(store)
                        == *old(store)
                } else {
                    {
                        &&& body.content is None ==> r == Err::<Article, ApiError>(
                            ApiError::ContentMissing,
                        ) && *final(store) == *old(store)
                        &&& body.content matches Some(t) ==> {
                            &&& final(store).articles@ == old(store).articles@.update(
                                i,
                                (Article { content: t, ..old(store).articles@[i] }),
                            )
                            &&& final(store).next_id == old(store).next_id
                            &&& r matches Ok(a) && a == final(store).articles@[i]
                        }
                    }
                }
        },
{
    let c = match identity {
        None => {
            return Err(ApiError::IdentityUnverified);
        },
        Some(c) => c,
    };
    let idx = match store.find_article(article_id) {
        None => {
            return Err(ApiError::ArticleNotFound);
        },
        Some(i) => i,
    };
    proof {
        assert forall|i: int|
            0 <= i < store.articles@.len() && (#[trigger] store.articles@[i]).id
                == article_id implies i == idx as int by {
            lemma_article_id_unique(*store, i, idx as int);
        }
    }
    match decide(c.id, c.role, store.articles[idx].published_by) {
        Decision::Deny => Err(ApiError::NotArticleOwnerUpdate),
        Decision::Allow => {
            let t = match &body.content {
                None => {
                    return Err(ApiError::ContentMissing);
                },
                Some(t) => t,
            };
            let rec = Article {
                id: store.articles[idx].id,
                title: store.articles[idx].title.clone(),
                content: t.clone(),
                published_by: store.articles[idx].published_by,
                published_on: store.articles[idx].published_on,
            };
            let out = rec.clone();
            store.articles[idx] = rec;
            proof {
                assert(final(store).articles@ =~= old(store).articles@.update(
                    idx as int,
                    (Article { content: *t, ..old(store).articles@[idx as int] }),
                ));
                let a = old(store).articles@;
                let b = store.articles@;
                assert forall|i: int|
                    0 <= i < b.len() implies 1 <= (#[trigger] b[i]).id < store.next_id by {
                    if i != idx {
                        assert(b[i] == a[i]);
                    }
                }
                assert forall|i: int, j: int|
                    0 <= i < j < b.len() implies #[trigger] b[i].id != #[trigger] b[j].id by {
                    assert(a[i].id != a[j].id);
                    if i == idx {
                        assert(b[j] == a[j]);
                    } else if j == idx {
                        assert(b[i] == a[i]);
                    }
                }
            }
            Ok(out)
        },
    }
}

} // verus!

use vstd::prelude::*;

verus! {

/// A persisted account. Identifiers carry the 128-bit value of the row's
/// UUID; `created_at` and `updated_at` are unix time in milliseconds.
#[derive(Debug, Clone)]
pub struct User {
    pub id: u128,
    pub email: String,
    pub username: Option<String>,
    pub full_name: Option<String>,
    pub avatar_url: Option<String>,
    pub bio: Option<String>,
    pub created_at: i64,
    pub updated_at: i64,
}

#[derive(Debug)]
pub struct CreateUser {
    pub id: u128,
    pub email: String,
    pub username: Option<String>,
    pub full_name: Option<String>,
    pub avatar_url: Option<String>,
    pub bio: Option<String>,
}

#[derive(Debug)]
pub struct UpdateUser {
    pub username: Option<String>,
    pub full_name: Option<String>,
    pub avatar_url: Option<String>,
    pub bio: Option<String>,
}

/// A post joined with its author, as clients receive it.
#[derive(Debug, Clone)]
pub struct Post {
    pub id: u128,
    pub title: String,
    pub content: String,
    pub author_id: u128,
    pub author: User,
    pub created_at: i64,
    pub updated_at: i64,
    pub likes_count: i64,
    pub comments_count: i64,
    pub is_liked: bool,
}

/// The flat row a post-with-author query returns, before it is folded into
/// a `Post` with a nested author.
#[derive(Debug)]
pub struct PostWithAuthor {
    pub id: u128,
    pub title: String,
    pub content: String,
    pub author_id: u128,
    pub created_at: i64,
    pub updated_at: i64,
    pub author_email: String,
    pub author_username: Option<String>,
    pub author_full_name: Option<String>,
    pub author_avatar_url: Option<String>,
    pub author_bio: Option<String>,
    pub author_created_at: i64,
    pub author_updated_at: i64,
    pub likes_count: i64,
    pub comments_count: i64,
    pub is_liked: bool,
}

/// How the flat row folds into a `Post`: every author column moves into the
/// nested `User`, everything else is carried over unchanged.
pub open spec fn spec_post_from(p: PostWithAuthor) -> Post {
    Post {
        id: p.id,
        title: p.title,
        content: p.content,
        author_id: p.author_id,
        author: User {
            id: p.author_id,
            email: p.author_email,
            username: p.author_username,
            full_name: p.author_full_name,
            avatar_url: p.author_avatar_url,
            bio: p.author_bio,
            created_at: p.author_created_at,
            updated_at: p.author_updated_at,
        },
        created_at: p.created_at,
        updated_at: p.updated_at,
        likes_count: p.likes_count,
        comments_count: p.comments_count,
        is_liked: p.is_liked,
    }
}

impl From<PostWithAuthor> for Post {
    fn from(post_with_author: PostWithAuthor) -> (r: Post) {
        Post {
            id: post_with_author.id,
            title: post_with_author.title,
            content: post_with_author.content,
            author_id: post_with_author.author_id,
            author: User {
                id: post_with_author.author_id,
                email: post_with_author.author_email,
                username: post_with_author.author_username,
                full_name: post_with_author.author_full_name,
                avatar_url: post_with_author.author_avatar_url,
                bio: post_with_author.author_bio,
                created_at: post_with_author.author_created_at,
                updated_at: post_with_author.author_updated_at,
            },
            created_at: post_with_author.created_at,
            updated_at: post_with_author.updated_at,
            likes_count: post_with_author.likes_count,
            comments_count: post_with_author.comments_count,
            is_liked: post_with_author.is_liked,
        }
    }
}

impl vstd::std_specs::convert::FromSpecImpl<PostWithAuthor> for Post {
    open spec fn obeys_from_spec() -> bool {
        true
    }

    open spec fn from_spec(v: PostWithAuthor) -> Post {
        spec_post_from(v)
    }
}

#[derive(Debug)]
pub struct CreatePost {
    pub id: u128,
    pub title: String,
    pub content: String,
    pub author_id: u128,
}

#[derive(Debug)]
pub struct UpdatePost {
    pub title: Option<String>,
    pub content: Option<String>,
}

#[derive(Debug, Clone)]
pub struct Chat {
    pub id: u128,
    pub name: Option<String>,
    pub chat_type: ChatType,
    pub created_at: i64,
    pub updated_at: i64,
}

#[derive(Debug, Clone, PartialEq, Eq, Structural)]
pub enum ChatType {
    Direct,
    Group,
}

/// A persisted chat message; `metadata` carries the row's auxiliary JSON
/// text, when any.
#[derive(Debug, Clone)]
pub struct Message {
    pub id: u128,
    pub chat_id: u128,
    pub sender_id: u128,
    pub sender: User,
    pub content: String,
    pub message_type: MessageType,
    pub metadata: Option<String>,
    pub created_at: i64,
}

#[derive(Debug, Clone, PartialEq, Eq, Structural)]
pub enum MessageType {
    Text,
    Image,
    File,
}

#[derive(Debug)]
pub struct CreateMessage {
    pub id: u128,
    pub chat_id: u128,
    pub sender_id: u128,
    pub content: String,
    pub message_type: MessageType,
    pub metadata: Option<String>,
}

#[derive(Debug, Clone)]
pub struct Notification {
    pub id: u128,
    pub user_id: u128,
    pub notification_type: String,
    pub title: String,
    pub message: String,
    pub read: bool,
    pub metadata: Option<String>,
    pub created_at: i64,
}

#[derive(Debug)]
pub struct CreateNotification {
    pub id: u128,
    pub user_id: u128,
    pub notification_type: String,
    pub title: String,
    pub message: String,
    pub metadata: Option<String>,
}

/// The uniform happy-path response wrapper.
#[derive(Debug)]
pub struct ApiResponse<T> {
    pub data: T,
    pub message: Option<String>,
    pub success: bool,
}

impl<T> ApiResponse<T> {
    pub fn success(data: T) -> (r: ApiResponse<T>)
        ensures
            r.data == data,
            r.message is None,
            r.success,
    {
        ApiResponse { data, message: None, success: true }
    }

    pub fn success_with_message(data: T, message: String) -> (r: ApiResponse<T>)
        ensures
            r.data == data,
            r.message == Some(message),
            r.success,
    {
        ApiResponse { data, message: Some(message), success: true }
    }
}

/// The uniform error response wrapper; `details` carries rendered JSON
/// text, when any.
#[derive(Debug)]
pub struct ErrorResponse {
    pub message: String,
    pub code: Option<String>,
    pub details: Option<String>,
    pub success: bool,
}

impl ErrorResponse {
    pub fn new(message: String) -> (r: ErrorResponse)
        ensures
            r.message == message,
            r.code is None,
            r.details is None,
            !r.success,
    {
        ErrorResponse { message, code: None, details: None, success: false }
    }

    pub fn with_code(message: String, code: String) -> (r: ErrorResponse)
        ensures
            r.message == message,
            r.code == Some(code),
            r.details is None,
            !r.success,
    {
        ErrorResponse { message, code: Some(code), details: None, success: false }
    }

    pub fn with_details(message: String, details: String) -> (r: ErrorResponse)
        ensures
            r.message == message,
            r.code is None,
            r.details == Some(details),
            !r.success,
    {
        ErrorResponse { message, code: None, details: Some(details), success: false }
    }
}

#[derive(Debug)]
pub struct PaginatedResponse<T> {
    pub data: Vec<T>,
    pub pagination: PaginationMeta,
}

#[derive(Debug)]
pub struct PaginationMeta {
    pub page: i64,
    pub limit: i64,
    pub total: i64,
    pub total_pages: i64,
    pub has_next: bool,
    pub has_prev: bool,
}

impl PaginationMeta {
    /// Page bookkeeping: the page count is `total / limit` rounded up, and
    /// the neighbours exist exactly when a page lies on that side.
    pub fn new(page: i64, limit: i64, total: i64) -> (m: PaginationMeta)
        requires
            limit >= 1,
            total >= 0,
            total <= i64::MAX - limit + 1,
        ensures
            m.page == page,
            m.limit == limit,
            m.total == total,
            m.total_pages == (total + limit - 1) / (limit as int),
            m.has_next == (page < m.total_pages),
            m.has_prev == (page > 1),
    {
        let total_pages = (total - 1 + limit) / limit;
        PaginationMeta {
            page,
            limit,
            total,
            total_pages,
            has_next: page < total_pages,
            has_prev: page > 1,
        }
    }
}

} // verus!

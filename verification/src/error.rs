use vstd::prelude::*;

verus! {

/// The service's error taxonomy, each variant carrying the internal reason.
/// What a client sees goes through `status_code`, `error_code` and
/// `user_message` below; internal reasons of server-side errors never leak.
#[derive(Debug)]
pub enum AppError {
    BadRequest(String),
    Unauthorized(String),
    Forbidden(String),
    NotFound(String),
    Conflict(String),
    UnprocessableEntity(String),
    TooManyRequests(String),
    InternalServer(String),
}

/// The HTTP status each variant maps to.
pub open spec fn spec_status_code(e: AppError) -> u16 {
    match e {
        AppError::BadRequest(_) => 400,
        AppError::Unauthorized(_) => 401,
        AppError::Forbidden(_) => 403,
        AppError::NotFound(_) => 404,
        AppError::Conflict(_) => 409,
        AppError::UnprocessableEntity(_) => 422,
        AppError::TooManyRequests(_) => 429,
        AppError::InternalServer(_) => 500,
    }
}

/// The stable machine-readable code each variant maps to.
pub open spec fn spec_error_code(e: AppError) -> Seq<char> {
    match e {
        AppError::BadRequest(_) => "BAD_REQUEST"@,
        AppError::Unauthorized(_) => "UNAUTHORIZED"@,
        AppError::Forbidden(_) => "FORBIDDEN"@,
        AppError::NotFound(_) => "NOT_FOUND"@,
        AppError::Conflict(_) => "CONFLICT"@,
        AppError::UnprocessableEntity(_) => "UNPROCESSABLE_ENTITY"@,
        AppError::TooManyRequests(_) => "TOO_MANY_REQUESTS"@,
        AppError::InternalServer(_) => "INTERNAL_SERVER_ERROR"@,
    }
}

/// What a client is told: client-caused errors repeat their reason, the
/// rest get a fixed text that leaks nothing internal.
pub open spec fn spec_user_message(e: AppError) -> Seq<char> {
    match e {
        AppError::BadRequest(msg) => msg@,
        AppError::Unauthorized(_) => "Authentication required"@,
        AppError::Forbidden(_) => "Access denied"@,
        AppError::NotFound(msg) => msg@,
        AppError::Conflict(msg) => msg@,
        AppError::UnprocessableEntity(msg) => msg@,
        AppError::TooManyRequests(_) => "Too many requests. Please try again later"@,
        AppError::InternalServer(_) => "An internal error occurred"@,
    }
}

impl AppError {
    pub fn status_code(&self) -> (c: u16)
        ensures
            c == spec_status_code(*self),
    {
        match self {
            AppError::BadRequest(_) => 400,
            AppError::Unauthorized(_) => 401,
            AppError::Forbidden(_) => 403,
            AppError::NotFound(_) => 404,
            AppError::Conflict(_) => 409,
            AppError::UnprocessableEntity(_) => 422,
            AppError::TooManyRequests(_) => 429,
            AppError::InternalServer(_) => 500,
        }
    }

    pub fn error_code(&self) -> (s: String)
        ensures
            s@ == spec_error_code(*self),
    {
        match self {
            AppError::BadRequest(_) => "BAD_REQUEST".to_owned(),
            AppError::Unauthorized(_) => "UNAUTHORIZED".to_owned(),
            AppError::Forbidden(_) => "FORBIDDEN".to_owned(),
            AppError::NotFound(_) => "NOT_FOUND".to_owned(),
            AppError::Conflict(_) => "CONFLICT".to_owned(),
            AppError::UnprocessableEntity(_) => "UNPROCESSABLE_ENTITY".to_owned(),
            AppError::TooManyRequests(_) => "TOO_MANY_REQUESTS".to_owned(),
            AppError::InternalServer(_) => "INTERNAL_SERVER_ERROR".to_owned(),
        }
    }

    pub fn user_message(&self) -> (m: String)
        ensures
            m@ == spec_user_message(*self),
    {
        match self {
            AppError::BadRequest(msg) => msg.clone(),
            AppError::Unauthorized(_) => "Authentication required".to_owned(),
            AppError::Forbidden(_) => "Access denied".to_owned(),
            AppError::NotFound(msg) => msg.clone(),
            AppError::Conflict(msg) => msg.clone(),
            AppError::UnprocessableEntity(msg) => msg.clone(),
            AppError::TooManyRequests(_) => "Too many requests. Please try again later".to_owned(),
            AppError::InternalServer(_) => "An internal error occurred".to_owned(),
        }
    }

    pub fn bad_request(msg: String) -> (e: AppError)
        ensures
            e == AppError::BadRequest(msg),
    {
        AppError::BadRequest(msg)
    }

    pub fn unauthorized(msg: String) -> (e: AppError)
        ensures
            e == AppError::Unauthorized(msg),
    {
        AppError::Unauthorized(msg)
    }

    pub fn forbidden(msg: String) -> (e: AppError)
        ensures
            e == AppError::Forbidden(msg),
    {
        AppError::Forbidden(msg)
    }

    pub fn not_found(msg: String) -> (e: AppError)
        ensures
            e == AppError::NotFound(msg),
    {
        AppError::NotFound(msg)
    }

    pub fn conflict(msg: String) -> (e: AppError)
        ensures
            e == AppError::Conflict(msg),
    {
        AppError::Conflict(msg)
    }

    pub fn unprocessable(msg: String) -> (e: AppError)
        ensures
            e == AppError::UnprocessableEntity(msg),
    {
        AppError::UnprocessableEntity(msg)
    }

    pub fn internal(msg: String) -> (e: AppError)
        ensures
            e == AppError::InternalServer(msg),
    {
        AppError::InternalServer(msg)
    }

    pub fn too_many_requests(msg: String) -> (e: AppError)
        ensures
            e == AppError::TooManyRequests(msg),
    {
        AppError::TooManyRequests(msg)
    }
}

} // verus!

//! The error codes that the server answers with, and the error body it sends.

use vstd::prelude::*;

verus! {

/// Every error the library can answer with.
///
/// A code is written in octal as `0o[01]{group}{kind}{no}`: the first digit tells a
/// request problem (0) from a server problem (1), the next two name the group
/// (general, login, words, users, versions), then the kind (extra, wrong, missing,
/// expired, duplicate) and a two-digit number.
#[derive(Clone, Copy, Debug, PartialEq, Eq, Structural)]
pub enum ErrorKind {
    GeneralRequestError,
    MissingParam,
    WrongParam,
    NotFound,
    LoginFailNotFound,
    TempTokenNotFound,
    TokenExpired,
    Unauthorized,
    Forbidden,
    FailToRegister,
    GenTokenFailed,
    UserWordExist,
    VersionOutDate,
    NotImplemented,
    ServerError,
}

/// An error code: its number, the HTTP status it is sent with, and the reason shown
/// to the user.
pub struct HttpErrorCode {
    pub code: u16,
    pub status: u16,
    pub reason: &'static str,
}

/// The number of each kind of error.
pub open spec fn spec_code(kind: ErrorKind) -> u16 {
    match kind {
        ErrorKind::GeneralRequestError => 0o0_00_0_00,
        ErrorKind::MissingParam => 0o0_00_2_01,
        ErrorKind::WrongParam => 0o0_00_1_01,
        ErrorKind::NotFound => 0o0_00_2_01,
        ErrorKind::LoginFailNotFound => 0o0_01_1_01,
        ErrorKind::TempTokenNotFound => 0o0_01_1_02,
        ErrorKind::TokenExpired => 0o0_01_3_01,
        ErrorKind::Unauthorized => 0o0_01_2_01,
        ErrorKind::Forbidden => 0o0_01_2_02,
        ErrorKind::FailToRegister => 0o1_01_1_01,
        ErrorKind::GenTokenFailed => 0o1_01_1_01,
        ErrorKind::UserWordExist => 0o0_02_4_01,
        ErrorKind::VersionOutDate => 0o0_04_3_01,
        ErrorKind::NotImplemented => 0o1_00_2_00,
        ErrorKind::ServerError => 0o1_00_0_00,
    }
}

/// The HTTP status that each kind of error is sent with.
pub open spec fn spec_status(kind: ErrorKind) -> u16 {
    match kind {
        ErrorKind::GeneralRequestError => 400,
        ErrorKind::MissingParam => 400,
        ErrorKind::WrongParam => 400,
        ErrorKind::NotFound => 404,
        ErrorKind::LoginFailNotFound => 404,
        ErrorKind::TempTokenNotFound => 404,
        ErrorKind::TokenExpired => 403,
        ErrorKind::Unauthorized => 401,
        ErrorKind::Forbidden => 403,
        ErrorKind::FailToRegister => 500,
        ErrorKind::GenTokenFailed => 500,
        ErrorKind::UserWordExist => 400,
        ErrorKind::VersionOutDate => 400,
        ErrorKind::NotImplemented => 501,
        ErrorKind::ServerError => 500,
    }
}

/// The reason shown to the user for each kind of error.
pub open spec fn spec_reason(kind: ErrorKind) -> Seq<char> {
    match kind {
        ErrorKind::GeneralRequestError => "请求错误"@,
        ErrorKind::MissingParam => "参数缺少"@,
        ErrorKind::WrongParam => "参数错误"@,
        ErrorKind::NotFound => "NotFound"@,
        ErrorKind::LoginFailNotFound => "认证失败"@,
        ErrorKind::TempTokenNotFound => "认证失败"@,
        ErrorKind::TokenExpired => "Token过期"@,
        ErrorKind::Unauthorized => "需要授权"@,
        ErrorKind::Forbidden => "禁止访问"@,
        ErrorKind::FailToRegister => "创建账户失败"@,
        ErrorKind::GenTokenFailed => "创建Token失败"@,
        ErrorKind::UserWordExist => "该单词可能已存在于用户的生词本中"@,
        ErrorKind::VersionOutDate => "该版本可能已过期，可尝试全量下载"@,
        ErrorKind::NotImplemented => "还未实现"@,
        ErrorKind::ServerError => "未知错误"@,
    }
}

impl ErrorKind {
    /// The number of this error.
    pub fn code(&self) -> (c: u16)
        ensures
            c == spec_code(*self),
    {
        match self {
            ErrorKind::GeneralRequestError => 0o0_00_0_00,
            ErrorKind::MissingParam => 0o0_00_2_01,
            ErrorKind::WrongParam => 0o0_00_1_01,
            ErrorKind::NotFound => 0o0_00_2_01,
            ErrorKind::LoginFailNotFound => 0o0_01_1_01,
            ErrorKind::TempTokenNotFound => 0o0_01_1_02,
            ErrorKind::TokenExpired => 0o0_01_3_01,
            ErrorKind::Unauthorized => 0o0_01_2_01,
            ErrorKind::Forbidden => 0o0_01_2_02,
            ErrorKind::FailToRegister => 0o1_01_1_01,
            ErrorKind::GenTokenFailed => 0o1_01_1_01,
            ErrorKind::UserWordExist => 0o0_02_4_01,
            ErrorKind::VersionOutDate => 0o0_04_3_01,
            ErrorKind::NotImplemented => 0o1_00_2_00,
            ErrorKind::ServerError => 0o1_00_0_00,
        }
    }

    /// The HTTP status this error is sent with.
    pub fn status(&self) -> (s: u16)
        ensures
            s == spec_status(*self),
    {
        match self {
            ErrorKind::GeneralRequestError => 400,
            ErrorKind::MissingParam => 400,
            ErrorKind::WrongParam => 400,
            ErrorKind::NotFound => 404,
            ErrorKind::LoginFailNotFound => 404,
            ErrorKind::TempTokenNotFound => 404,
            ErrorKind::TokenExpired => 403,
            ErrorKind::Unauthorized => 401,
            ErrorKind::Forbidden => 403,
            ErrorKind::FailToRegister => 500,
            ErrorKind::GenTokenFailed => 500,
            ErrorKind::UserWordExist => 400,
            ErrorKind::VersionOutDate => 400,
            ErrorKind::NotImplemented => 501,
            ErrorKind::ServerError => 500,
        }
    }

    /// The reason shown to the user.
    pub fn reason(&self) -> (r: &'static str)
        ensures
            r@ == spec_reason(*self),
    {
        match self {
            ErrorKind::GeneralRequestError => "请求错误",
            ErrorKind::MissingParam => "参数缺少",
            ErrorKind::WrongParam => "参数错误",
            ErrorKind::NotFound => "NotFound",
            ErrorKind::LoginFailNotFound => "认证失败",
            ErrorKind::TempTokenNotFound => "认证失败",
            ErrorKind::TokenExpired => "Token过期",
            ErrorKind::Unauthorized => "需要授权",
            ErrorKind::Forbidden => "禁止访问",
            ErrorKind::FailToRegister => "创建账户失败",
            ErrorKind::GenTokenFailed => "创建Token失败",
            ErrorKind::UserWordExist => "该单词可能已存在于用户的生词本中",
            ErrorKind::VersionOutDate => "该版本可能已过期，可尝试全量下载",
            ErrorKind::NotImplemented => "还未实现",
            ErrorKind::ServerError => "未知错误",
        }
    }

    /// The full error code of this kind.
    pub fn http_code(&self) -> (c: HttpErrorCode)
        ensures
            c.code == spec_code(*self),
            c.status == spec_status(*self),
            c.reason@ == spec_reason(*self),
    {
        HttpErrorCode { code: self.code(), status: self.status(), reason: self.reason() }
    }
}

} // verus!

//! The library's single error type. Every variant carries a message for the
//! user; `message` renders it the way the user sees it.
use vstd::prelude::*;

verus! {

#[derive(Debug)]
pub enum AppError {
    Database(String),
    Io(String),
    NotFound(String),
    Migration(String),
    Other(String),
}

pub type AppResult<T> = Result<T, AppError>;

impl AppError {
    /// The text shown to the user: a Japanese label of the kind, `": "`,
    /// and the message.
    pub open spec fn text(&self) -> Seq<char> {
        match self {
            AppError::Database(m) => "データベースエラー: "@ + m@,
            AppError::Io(m) => "ファイル入出力エラー: "@ + m@,
            AppError::NotFound(m) => "見つかりません: "@ + m@,
            AppError::Migration(m) => "マイグレーションエラー: "@ + m@,
            AppError::Other(m) => "エラー: "@ + m@,
        }
    }

    /// The message the user sees for this error.
    pub fn message(&self) -> (r: String)
        ensures
            r@ == self.text(),
    {
        let (label, m) = match self {
            AppError::Database(m) => ("データベースエラー: ", m),
            AppError::Io(m) => ("ファイル入出力エラー: ", m),
            AppError::NotFound(m) => ("見つかりません: ", m),
            AppError::Migration(m) => ("マイグレーションエラー: ", m),
            AppError::Other(m) => ("エラー: ", m),
        };
        let mut r = String::from_str(label);
        r.append(m.as_str());
        r
    }
}

/// An `Other` error whose message is `prefix` followed by `detail`.
pub fn other_with(prefix: &str, detail: &str) -> (e: AppError)
    ensures
        e matches AppError::Other(m) && m@ == prefix@ + detail@,
{
    let mut m = String::from_str(prefix);
    m.append(detail);
    AppError::Other(m)
}

} // verus!

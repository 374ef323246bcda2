//! The error taxonomy of the engine.

use vstd::prelude::*;

verus! {

/// Why an operation was refused.
#[derive(Clone, Copy, Debug, PartialEq, Eq, Structural)]
pub enum GroupBuyError {
    /// Malformed or out-of-range input.
    Validation,
    /// The optimistic version check lost; re-read and retry.
    VersionConflict,
    /// The session is in the wrong state for the operation.
    PreconditionFailed,
    /// The actor is not the organizer of the session.
    AuthorizationDenied,
    /// No such session or order.
    NotFound,
    /// A session with this id already exists.
    DuplicateId,
}

impl GroupBuyError {
    /// A short user-facing message.
    pub fn message(&self) -> (r: &'static str) {
        match self {
            GroupBuyError::Validation => "輸入格式錯誤",
            GroupBuyError::VersionConflict => "更新失敗：團購已被修改，請重新整理",
            GroupBuyError::PreconditionFailed => "團購狀態不允許此操作",
            GroupBuyError::AuthorizationDenied => "只有團購建立者可以執行此操作",
            GroupBuyError::NotFound => "找不到該團購",
            GroupBuyError::DuplicateId => "團購編號重複",
        }
    }
}

} // verus!

//! An attachment of a stored message.

use vstd::prelude::*;

verus! {

/// One attachment. It belongs to exactly one message.
#[derive(Debug)]
pub struct Model {
    pub id: u128,
    pub message_id: u128,
    pub file_name: String,
    pub content_type: String,
    pub size_bytes: i64,
    pub is_inline: bool,
    pub content_id: Option<String>,
    pub data: Vec<u8>,
    pub created_at: i64,
}

/// The mathematical value of an attachment.
pub struct ModelView {
    pub id: u128,
    pub message_id: u128,
    pub file_name: Seq<char>,
    pub content_type: Seq<char>,
    pub size_bytes: i64,
    pub is_inline: bool,
    pub content_id: Option<Seq<char>>,
    pub data: Seq<u8>,
    pub created_at: i64,
}

impl DeepView for Model {
    type V = ModelView;

    open spec fn deep_view(&self) -> ModelView {
        ModelView {
            id: self.id,
            message_id: self.message_id,
            file_name: self.file_name@,
            content_type: self.content_type@,
            size_bytes: self.size_bytes,
            is_inline: self.is_inline,
            content_id: self.content_id.deep_view(),
            data: self.data@,
            created_at: self.created_at,
        }
    }
}

} // verus!

//! The response shape of the external image-hosting service that avatar
//! uploads go through.

use vstd::prelude::*;

verus! {

/// The error part of an upload response.
pub struct Error {
    pub message: String,
    pub code: u16,
}

/// The stored image.
pub struct ImageData {
    pub filename: String,
    pub name: String,
    pub mime: String,
    pub extension: String,
    pub url: String,
}

/// The stored thumbnail.
pub struct ThumbData {
    pub filename: String,
    pub name: String,
    pub mime: String,
    pub extension: String,
    pub url: String,
}

/// The payload of a successful upload.
pub struct Data {
    pub id: String,
    pub title: String,
    pub url_viewer: String,
    pub url: String,
    pub display_url: String,
    pub width: u32,
    pub height: u32,
    pub size: u32,
    pub time: u64,
    pub expiration: u32,
    pub image: ImageData,
    pub thumb: ThumbData,
    pub delete_url: String,
}

/// An upload response: either an error or a payload.
pub struct IBBApiResponse {
    pub error: Option<Error>,
    pub data: Option<Data>,
}

} // verus!

//! The GPU texture handle type that cache entries carry.
use vstd::prelude::*;


verus! {

/// macroquad's texture handle, carried through the cache as an opaque value.
#[verifier::external_type_specification]
#[verifier::external_body]
pub struct ExTexture2D(macroquad::texture::Texture2D);

} // verus!

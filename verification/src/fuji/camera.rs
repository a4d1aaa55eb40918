//! The decisions of a camera session that do not touch the camera: which
//! models are supported, what an upload announces, and how a recipe is
//! applied to a conversion profile.

use vstd::prelude::*;

use crate::error::Error;
use crate::ptp::ObjectInfo;
use crate::text::str_eq;
use super::codec::{encode_recipe, fits_recipe, param_count, recipe_params, spec_set_params};
use super::prop::FORMAT_FUJI_UPLOAD;
use super::recipe::Recipe;

verus! {

/// Whether this camera model is officially supported (the X-M5).
pub fn is_supported_model(model: &str) -> (supported: bool)
    ensures
        supported == (model@ == "X-M5"@),
{
    str_eq(model, "X-M5")
}

/// The ObjectInfo that announces the upload of a RAF of `raw_len` bytes for
/// conversion: the Fuji upload format, the size (kept to 32 bits) and the
/// name `FUP_FILE.dat`.
pub fn upload_object_info(raw_len: usize) -> (info: ObjectInfo)
    ensures
        info.format_code == FORMAT_FUJI_UPLOAD,
        info.compressed_size == raw_len as u32,
        info.filename@ == "FUP_FILE.dat"@,
{
    ObjectInfo {
        format_code: FORMAT_FUJI_UPLOAD,
        compressed_size: raw_len as u32,
        filename: "FUP_FILE.dat".to_owned(),
    }
}

/// Opaque conversion profile read from the camera for a loaded RAF.
/// Render it with a recipe through [`Profile::with_recipe`].
pub struct Profile(Vec<u8>);

impl View for Profile {
    type V = Seq<u8>;

    closed spec fn view(&self) -> Seq<u8> {
        self.0@
    }
}

impl Profile {
    /// The profile the camera reported.
    pub fn new(data: Vec<u8>) -> (p: Self)
        ensures
            p@ == data@,
    {
        Profile(data)
    }

    /// Whether the profile has a parameter table holding every parameter a
    /// recipe sets.
    pub fn fits_recipe(&self) -> (ok: bool)
        ensures
            ok == fits_recipe(self@),
    {
        let data = &self.0;
        if data.len() < 2 {
            return false;
        }
        let num_params = data[0] as usize + 256 * (data[1] as usize);
        assert(num_params == param_count(self@));
        num_params <= data.len() / 4 && num_params > 27
    }

    /// A copy of the profile with the recipe's settings written into it.
    pub fn with_recipe(&self, recipe: &Recipe) -> (data: Vec<u8>)
        requires
            fits_recipe(self@),
            i32::MIN <= recipe.clarity * 10 <= i32::MAX,
        ensures
            data@ == spec_set_params(self@, recipe_params(*recipe)),
    {
        let mut data = self.0.clone();
        encode_recipe(recipe, data.as_mut_slice());
        data
    }
}


/// How many times, a second apart, the camera is asked for the converted
/// JPEG before giving up.
pub const CONVERSION_POLLS: u32 = 30;

/// What to do after asking the camera for its object handles while waiting
/// for a RAW conversion.
#[derive(Debug, Clone, Copy, PartialEq, Eq)]
pub enum ConversionPoll {
    /// The JPEG is ready: fetch the object with this handle, then delete it.
    Fetch(u32),
    /// Wait a second and ask again.
    Wait,
}

/// The decision after poll number `attempt` (counting from 1) gave
/// `handles`: fetch the first handle when there is one; else wait for
/// another poll, or time out after the last one.
pub fn conversion_poll(attempt: u32, handles: &Vec<u32>) -> (res: Result<ConversionPoll, Error>)
    ensures
        handles@.len() > 0 ==> res == Ok::<ConversionPoll, Error>(ConversionPoll::Fetch(handles@[0])),
        handles@.len() == 0 && attempt < CONVERSION_POLLS ==> res == Ok::<ConversionPoll, Error>(
            ConversionPoll::Wait,
        ),
        handles@.len() == 0 && attempt >= CONVERSION_POLLS ==> res == Err::<ConversionPoll, Error>(
            Error::ConversionTimedOut,
        ),
{
    if handles.len() > 0 {
        Ok(ConversionPoll::Fetch(handles[0]))
    } else if attempt < CONVERSION_POLLS {
        Ok(ConversionPoll::Wait)
    } else {
        Err(Error::ConversionTimedOut)
    }
}

} // verus!

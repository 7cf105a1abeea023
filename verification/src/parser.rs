//! Loading a model from the bytes of a model file.
use crate::bytes::{fits, u32_at};
use crate::error::{reported_as, truncated_message, MdlError};
use crate::mdx::parse_mdx;
use crate::mdx_spec::{len_ok, mdx_model, TAG_MDLX};
use crate::model::{empty_geoset, empty_model, Geoset, Model, SpecModel};
use vstd::prelude::*;
use vstd::utf8::{decode_utf8, valid_utf8};

verus! {

broadcast use vstd::string::group_string_axioms;

/// The placeholder model that stands for a file in the text format: one empty geoset.
pub open spec fn text_model() -> SpecModel {
    SpecModel { geosets: seq![empty_geoset()], ..empty_model("Text Model"@) }
}

/// Whether the file starts with the magic of the binary format.
pub open spec fn is_mdx(s: Seq<u8>) -> bool {
    fits(s, 0, 4) && u32_at(s, 0) == TAG_MDLX()
}

/// `std::str::from_utf8` of the standard library, asked only whether it
/// succeeds: whether the bytes are valid UTF-8.
#[verifier::external_body]
fn is_utf8(bytes: &[u8]) -> (r: bool)
    ensures
        r == valid_utf8(bytes@),
{
    std::str::from_utf8(bytes).is_ok()
}

/// Loads a model from the bytes of a file.  A file that starts with `MDLX`
/// is read as the binary format; any other file must be UTF-8 text and
/// yields a placeholder model with one empty geoset.
pub fn load_mdl(data: &[u8]) -> (r: Result<Model, MdlError>)
    requires
        len_ok(data@),
    ensures
        data@.len() < 4 ==> (r matches Err(MdlError::Io(m)) && m@ == truncated_message()),
        is_mdx(data@) ==> match mdx_model(data@) {
            Ok(m) => r is Ok && r->Ok_0@ == m,
            Err(f) => r is Err && reported_as(r->Err_0, f),
        },
        data@.len() >= 4 && !is_mdx(data@) ==> if valid_utf8(data@) {
            r is Ok && r->Ok_0@ == text_model()
        } else {
            r matches Err(MdlError::Io(m)) && m@ == "stream did not contain valid UTF-8"@
        },
{
    if data.len() < 4 {
        return Err(MdlError::Io("failed to fill whole buffer".to_string()));
    }
    let is_binary = match crate::bytes::read_u32(data, 0) {
        Ok(magic) => magic == 0x584c444d,
        Err(_) => false,
    };
    if is_binary {
        match parse_mdx(data) {
            Ok(m) => Ok(m),
            Err(f) => Err(MdlError::from_parse_fail(f)),
        }
    } else if is_utf8(data) {
        let mut model = Model::named("Text Model".to_string());
        model.geosets.push(Geoset::default());
        assert(model@.geosets =~= seq![empty_geoset()]);
        Ok(model)
    } else {
        Err(MdlError::Io("stream did not contain valid UTF-8".to_string()))
    }
}

} // verus!

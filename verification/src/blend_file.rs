use vstd::prelude::*;

verus! {

/// The seven bytes `BLENDER` that open an uncompressed `.blend` file.
pub open spec fn blend_magic() -> Seq<u8> {
    seq![66u8, 76u8, 69u8, 78u8, 68u8, 69u8, 82u8]
}

/// Whether file data starts with `BLENDER`; data that does not is read as
/// gzip-compressed.
pub fn is_uncompressed_blend(data: &[u8]) -> (plain: bool)
    requires
        data@.len() >= 7,
    ensures
        plain == (data@.subrange(0, 7) == blend_magic()),
        plain == (data[0] == 66 && data[1] == 76 && data[2] == 69 && data[3] == 78 && data[4]
            == 68 && data[5] == 69 && data[6] == 82),
{
    let plain = data[0] == 66 && data[1] == 76 && data[2] == 69 && data[3] == 78 && data[4] == 68
        && data[5] == 69 && data[6] == 82;
    proof {
        if plain {
            assert(data@.subrange(0, 7) =~= blend_magic());
        }
    }
    plain
}

/// Whether a block code names a mesh: its first two bytes are `ME`.
pub fn is_mesh_code(code: &[u8]) -> (mesh: bool)
    requires
        code@.len() >= 2,
    ensures
        mesh == (code@[0] == 77u8 && code@[1] == 69u8),
{
    code[0] == 77 && code[1] == 69
}

/// What gzip decompression makes of `data`: `None` where `data` is not a
/// well-formed gzip member.
pub uninterp spec fn gunzip_result(data: Seq<u8>) -> Option<Seq<u8>>;

/// Calls `libflate::gzip::Decoder::new` on `data` and reads the decoder to
/// its end. The claim: the result depends on the bytes alone, and `None`
/// stands for the `io::Error` that either step reports.
#[verifier::external_body]
fn gunzip(data: &[u8]) -> (out: Option<Vec<u8>>)
    ensures
        out matches Some(v) ==> gunzip_result(data@) == Some(v@),
        out is None ==> gunzip_result(data@) is None,
{
    let mut decoder = libflate::gzip::Decoder::new(data).ok()?;
    let mut out = Vec::new();
    std::io::Read::read_to_end(&mut decoder, &mut out).ok()?;
    Some(out)
}

/// The contents of a `.blend` file: the data itself when it starts with
/// `BLENDER`, its gzip decompression otherwise.
pub open spec fn blend_file_contents(data: Seq<u8>) -> Option<Seq<u8>> {
    if data.subrange(0, 7) == blend_magic() {
        Some(data)
    } else {
        gunzip_result(data)
    }
}

/// The contents of a `.blend` file, decompressed when it is not plain;
/// `None` when the decompression fails.
pub fn blend_file_bytes(data: &[u8]) -> (out: Option<Vec<u8>>)
    requires
        data@.len() >= 7,
    ensures
        out matches Some(v) ==> blend_file_contents(data@) == Some(v@),
        out is None <==> blend_file_contents(data@) is None,
        data@.subrange(0, 7) == blend_magic() ==> (out matches Some(v) && v@ == data@),
        data@.subrange(0, 7) != blend_magic() ==> (out matches Some(v) ==> gunzip_result(data@)
            == Some(v@)) && (out is None <==> gunzip_result(data@) is None),
{
    if is_uncompressed_blend(data) {
        Some(vstd::slice::slice_to_vec(data))
    } else {
        gunzip(data)
    }
}

} // verus!

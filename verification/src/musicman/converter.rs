//! FLAC to M4A conversion: where the converted file goes and how the
//! encoder is asked to make it.
use vstd::prelude::*;
use crate::musicman::config::string_views;
use crate::paths::{
    extension_spec, file_name_spec, file_stem_spec, lemma_with_extension, with_extension,
    with_extension_spec,
};
use crate::text::owned;

verus! {

broadcast use vstd::string::group_string_axioms;

/// The converted file sits beside the input, with the extension `m4a`.
pub fn m4a_output_path(input: &str) -> (r: String)
    ensures
        r@ == with_extension_spec(input@, "m4a"@),
{
    proof {
        reveal_strlit("m4a");
    }
    with_extension(input, "m4a")
}

/// The converted file of an input with a file name keeps the input's stem
/// and has the extension `m4a`.
pub proof fn lemma_m4a_output(input: Seq<char>)
    requires
        file_name_spec(input) is Some,
    ensures
        file_stem_spec(with_extension_spec(input, "m4a"@)) == file_stem_spec(input),
        extension_spec(with_extension_spec(input, "m4a"@)) == Some("m4a"@),
{
    reveal_strlit("m4a");
    lemma_with_extension(input, "m4a"@);
}

/// The encoder's arguments: read `input`, encode the audio as AAC at
/// `bitrate`, put the index at the front, drop any video stream, write
/// `output`.
pub open spec fn ffmpeg_args_spec(input: Seq<char>, bitrate: Seq<char>, output: Seq<char>) -> Seq<
    Seq<char>,
> {
    seq![
        "-i"@,
        input,
        "-c:a"@,
        "aac"@,
        "-b:a"@,
        bitrate,
        "-movflags"@,
        "+faststart"@,
        "-vn"@,
        output,
    ]
}

pub fn ffmpeg_args(input: &str, bitrate: &str, output: &str) -> (r: Vec<String>)
    ensures
        string_views(r@) == ffmpeg_args_spec(input@, bitrate@, output@),
{
    let mut v: Vec<String> = Vec::new();
    v.push(owned("-i"));
    v.push(owned(input));
    v.push(owned("-c:a"));
    v.push(owned("aac"));
    v.push(owned("-b:a"));
    v.push(owned(bitrate));
    v.push(owned("-movflags"));
    v.push(owned("+faststart"));
    v.push(owned("-vn"));
    v.push(owned(output));
    assert(string_views(v@) =~= ffmpeg_args_spec(input@, bitrate@, output@));
    v
}

} // verus!
